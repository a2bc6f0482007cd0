//! The board model: pieces, squares and a position with its en-passant target.

use vstd::prelude::*;

verus! {

/// The kind of a chess piece.
#[derive(Clone, Copy, Debug, PartialEq, Eq, Structural)]
pub enum PieceKind {
    Pawn,
    Knight,
    Bishop,
    Rook,
    Queen,
    King,
}

/// The side a piece belongs to.
#[derive(Clone, Copy, Debug, PartialEq, Eq, Structural)]
pub enum PieceColor {
    White,
    Black,
}

/// A piece on the board: its kind and its side.
#[derive(Clone, Copy, Debug, PartialEq, Eq, Structural)]
pub struct Piece {
    pub kind: PieceKind,
    pub color: PieceColor,
}

/// A square as (rank, file), both counted from 0; rank 0 is White's back rank
/// and file 0 is the a-file.
pub type Square = (usize, usize);

/// The other side.
pub open spec fn opposite(c: PieceColor) -> PieceColor {
    match c {
        PieceColor::White => PieceColor::Black,
        PieceColor::Black => PieceColor::White,
    }
}

/// Returns the side that moves after `c`.
pub fn other_side(c: PieceColor) -> (r: PieceColor)
    ensures
        r == opposite(c),
{
    match c {
        PieceColor::White => PieceColor::Black,
        PieceColor::Black => PieceColor::White,
    }
}

/// Whether (r, f) names a square of the board.
pub open spec fn on_board(r: int, f: int) -> bool {
    0 <= r < 8 && 0 <= f < 8
}

/// Where square (r, f) is kept in the 64 cells of a board.
pub open spec fn cell(r: int, f: int) -> int {
    8 * r + f
}

/// The mathematical value of a position: 64 cells, rank by rank from rank 0,
/// and the en-passant target.
pub struct BoardState {
    pub cells: Seq<Option<Piece>>,
    pub ep: Option<Square>,
}

impl BoardState {
    /// 64 cells, and an en-passant target, if any, on the board.
    pub open spec fn wf(self) -> bool {
        &&& self.cells.len() == 64
        &&& (self.ep matches Some(t) ==> t.0 < 8 && t.1 < 8)
    }

    /// The content of square (r, f).
    pub open spec fn at(self, r: int, f: int) -> Option<Piece> {
        self.cells[cell(r, f)]
    }

    /// Whether no square holds a piece.
    pub open spec fn is_bare(self) -> bool {
        forall|i: int| 0 <= i < self.cells.len() ==> self.cells[i] is None
    }
}

/// An 8x8 board of optional pieces plus the en-passant target square.
#[derive(Clone, Debug)]
pub struct Position {
    pub squares: Vec<Option<Piece>>,
    pub en_passant_target: Option<Square>,
}

impl View for Position {
    type V = BoardState;

    open spec fn view(&self) -> BoardState {
        BoardState { cells: self.squares@, ep: self.en_passant_target }
    }
}

/// The piece that stands on a back rank in the starting setup, by file.
pub open spec fn back_rank_kind(f: int) -> PieceKind {
    if f == 0 || f == 7 {
        PieceKind::Rook
    } else if f == 1 || f == 6 {
        PieceKind::Knight
    } else if f == 2 || f == 5 {
        PieceKind::Bishop
    } else if f == 3 {
        PieceKind::Queen
    } else {
        PieceKind::King
    }
}

/// The content of square (r, f) in the starting setup.
pub open spec fn start_piece(r: int, f: int) -> Option<Piece> {
    if r == 0 {
        Some(Piece { kind: back_rank_kind(f), color: PieceColor::White })
    } else if r == 1 {
        Some(Piece { kind: PieceKind::Pawn, color: PieceColor::White })
    } else if r == 6 {
        Some(Piece { kind: PieceKind::Pawn, color: PieceColor::Black })
    } else if r == 7 {
        Some(Piece { kind: back_rank_kind(f), color: PieceColor::Black })
    } else {
        None
    }
}

/// The starting position of a game.
pub open spec fn start_state() -> BoardState {
    BoardState { cells: Seq::new(64, |i: int| start_piece(i / 8, i % 8)), ep: None }
}

/// The board with no piece on it.
pub open spec fn bare_state() -> BoardState {
    BoardState { cells: Seq::new(64, |i: int| None), ep: None }
}

fn back_rank_piece(f: usize, color: PieceColor) -> (p: Piece)
    ensures
        p == (Piece { kind: back_rank_kind(f as int), color }),
{
    let kind = if f == 0 || f == 7 {
        PieceKind::Rook
    } else if f == 1 || f == 6 {
        PieceKind::Knight
    } else if f == 2 || f == 5 {
        PieceKind::Bishop
    } else if f == 3 {
        PieceKind::Queen
    } else {
        PieceKind::King
    };
    Piece { kind, color }
}

impl Position {
    /// 64 squares and an en-passant target on the board.
    pub open spec fn wf(&self) -> bool {
        self@.wf()
    }

    /// A board with no piece and no en-passant target.
    pub fn new() -> (p: Position)
        ensures
            p@ == bare_state(),
            p.wf(),
    {
        let squares: Vec<Option<Piece>> = vec![None; 64];
        let p = Position { squares, en_passant_target: None };
        assert(p@.cells =~= bare_state().cells);
        p
    }

    /// The standard starting setup, with no en-passant target.
    pub fn initial() -> (p: Position)
        ensures
            p@ == start_state(),
            p.wf(),
    {
        let mut squares: Vec<Option<Piece>> = Vec::new();
        let mut r: usize = 0;
        while r < 8
            invariant
                r <= 8,
                squares@.len() == 8 * r,
                forall|i: int| 0 <= i < squares@.len() ==> squares@[i] == start_piece(i / 8, i % 8),
            decreases 8 - r,
        {
            let mut f: usize = 0;
            while f < 8
                invariant
                    r < 8,
                    f <= 8,
                    squares@.len() == 8 * r + f,
                    forall|i: int| 0 <= i < squares@.len() ==> squares@[i] == start_piece(i / 8, i % 8),
                decreases 8 - f,
            {
                let content = if r == 0 {
                    Some(back_rank_piece(f, PieceColor::White))
                } else if r == 1 {
                    Some(Piece { kind: PieceKind::Pawn, color: PieceColor::White })
                } else if r == 6 {
                    Some(Piece { kind: PieceKind::Pawn, color: PieceColor::Black })
                } else if r == 7 {
                    Some(back_rank_piece(f, PieceColor::Black))
                } else {
                    None
                };
                assert((8 * r + f) / 8 == r && (8 * r + f) % 8 == f);
                squares.push(content);
                f = f + 1;
            }
            r = r + 1;
        }
        let p = Position { squares, en_passant_target: None };
        assert(p@.cells =~= start_state().cells);
        p
    }

    /// The content of square (r, f).
    pub fn piece_at(&self, r: usize, f: usize) -> (p: Option<Piece>)
        requires
            self.wf(),
            r < 8,
            f < 8,
        ensures
            p == self@.at(r as int, f as int),
    {
        self.squares[8 * r + f]
    }

    /// Puts `content` on square (r, f); nothing else changes.
    pub fn set_piece(&mut self, r: usize, f: usize, content: Option<Piece>)
        requires
            old(self).wf(),
            r < 8,
            f < 8,
        ensures
            final(self)@ == (BoardState {
                cells: old(self)@.cells.update(cell(r as int, f as int), content),
                ep: old(self)@.ep,
            }),
            final(self).wf(),
    {
        self.squares.set(8 * r + f, content);
    }
}

/// The letter of a file, 'a' for file 0.
pub open spec fn file_char(f: int) -> char {
    (f + 97) as char
}

/// The digit of a rank, '1' for rank 0.
pub open spec fn rank_char(r: int) -> char {
    (r + 49) as char
}

/// Returns the letter of file `f`.
pub fn file_letter(f: usize) -> (c: char)
    requires
        f < 8,
    ensures
        c == file_char(f as int),
{
    ((f as u8) + 97u8) as char
}

/// Returns the digit of rank `r`.
pub fn rank_digit(r: usize) -> (c: char)
    requires
        r < 8,
    ensures
        c == rank_char(r as int),
{
    ((r as u8) + 49u8) as char
}

} // verus!
