//! From a position string and coordinate moves ("e2e4", "d7d8q") to one
//! notation token per move. The tokens name the origin square of every piece
//! move, so they never need a search to be read back.

use vstd::prelude::*;
use crate::codec::{kind_char, kind_letter, parse_fen, parsed, square_of};
use crate::error::NotationError;
use crate::executor::{applied, is_castling};
use crate::position::{file_char, file_letter, rank_char, rank_digit, BoardState, PieceColor, PieceKind, Position, Square};
use crate::text::{chars_of, string_of};

verus! {

/// A move given by its origin and destination, with the kind a pawn promotes
/// to, if one is named.
#[derive(Clone, Copy, Debug)]
pub struct Move {
    pub start_square: Square,
    pub end_square: Square,
    pub promotion: Option<PieceKind>,
}

/// The kind a promotion letter names, in either case.
pub open spec fn promotion_kind(c: char) -> Option<PieceKind> {
    if c == 'q' || c == 'Q' {
        Some(PieceKind::Queen)
    } else if c == 'r' || c == 'R' {
        Some(PieceKind::Rook)
    } else if c == 'b' || c == 'B' {
        Some(PieceKind::Bishop)
    } else if c == 'n' || c == 'N' {
        Some(PieceKind::Knight)
    } else {
        None
    }
}

/// The move that four or five characters name: origin square, destination
/// square, and an optional promotion letter.
pub open spec fn coordinate_move(m: Seq<char>) -> Option<Move> {
    if (m.len() == 4 || m.len() == 5) && square_of(m.subrange(0, 2)) is Some && square_of(m.subrange(2, 4)) is Some
        && (m.len() == 5 ==> promotion_kind(m[4]) is Some) {
        Some(
            Move {
                start_square: square_of(m.subrange(0, 2))->Some_0,
                end_square: square_of(m.subrange(2, 4))->Some_0,
                promotion: if m.len() == 5 {
                    promotion_kind(m[4])
                } else {
                    None
                },
            },
        )
    } else {
        None
    }
}

/// The name of a square, as "e4".
pub open spec fn square_text(sq: Square) -> Seq<char> {
    seq![file_char(sq.1 as int), rank_char(sq.0 as int)]
}

/// The promotion a move makes: its named kind, when it lands on a back rank.
pub open spec fn promotion_on(m: Move) -> Option<PieceKind> {
    if m.end_square.0 == 0 || m.end_square.0 == 7 {
        m.promotion
    } else {
        None
    }
}

/// The token of move `m` on board `b`, whose origin holds a piece:
/// "O-O" or "O-O-O" for castling; for a pawn its destination, after
/// "<origin file>x" when it changes file and before "=<kind>" when it
/// promotes; for another piece its letter, origin, an "x" when the
/// destination is occupied, and destination.
pub open spec fn encoded(b: BoardState, m: Move) -> Seq<char> {
    let p = b.at(m.start_square.0 as int, m.start_square.1 as int)->Some_0;
    if is_castling(b, m.start_square, m.end_square) {
        if m.end_square.1 == 6 {
            seq!['O', '-', 'O']
        } else {
            seq!['O', '-', 'O', '-', 'O']
        }
    } else if p.kind == PieceKind::Pawn {
        (if m.start_square.1 != m.end_square.1 {
            seq![file_char(m.start_square.1 as int), 'x']
        } else {
            seq![]
        }) + square_text(m.end_square) + match promotion_on(m) {
            Some(k) => seq!['=', kind_char(k)],
            None => seq![],
        }
    } else {
        seq![kind_char(p.kind)] + square_text(m.start_square) + (if b.at(
            m.end_square.0 as int,
            m.end_square.1 as int,
        ) is Some {
            seq!['x']
        } else {
            seq![]
        }) + square_text(m.end_square)
    }
}

/// One move of the sequence, the `index`th: its token and the board after it.
pub open spec fn encode_step(b: BoardState, mv: Seq<char>, index: int) -> Result<(Seq<char>, BoardState), NotationError> {
    match coordinate_move(mv) {
        None => Err(NotationError::MalformedPly(index as usize)),
        Some(m) => if b.at(m.start_square.0 as int, m.start_square.1 as int) is None {
            Err(NotationError::UnresolvableOrigin(index as usize))
        } else {
            Ok((encoded(b, m), applied(b, m.start_square, m.end_square, promotion_on(m))))
        },
    }
}

/// The tokens of `moves` played in turn from `b`, and the final board; or the
/// first move's error.
pub open spec fn encode_all(b: BoardState, moves: Seq<Seq<char>>) -> Result<(Seq<Seq<char>>, BoardState), NotationError>
    decreases moves.len(),
{
    if moves.len() == 0 {
        Ok((seq![], b))
    } else {
        match encode_all(b, moves.drop_last()) {
            Err(e) => Err(e),
            Ok((tokens, b1)) => match encode_step(b1, moves.last(), moves.len() - 1) {
                Err(e) => Err(e),
                Ok((t, b2)) => Ok((tokens.push(t), b2)),
            },
        }
    }
}

/// The tokens for `moves` played from the position string `fen`.
pub open spec fn encoded_game(fen: Seq<char>, moves: Seq<Seq<char>>) -> Result<Seq<Seq<char>>, NotationError> {
    match parsed(fen) {
        Err(e) => Err(e),
        Ok((b, side)) => match encode_all(b, moves) {
            Err(e) => Err(e),
            Ok((tokens, last)) => Ok(tokens),
        },
    }
}

/// The views of a sequence of strings.
pub open spec fn string_views(v: Seq<String>) -> Seq<Seq<char>> {
    v.map_values(|s: String| s@)
}

impl Move {
    /// Reads a coordinate move such as "e2e4" or "d7d8q".
    pub fn from_ambiguous(m: &str) -> (r: Option<Move>)
        ensures
            r == coordinate_move(m@),
    {
        let c = chars_of(m);
        if c.len() != 4 && c.len() != 5 {
            return None;
        }
        let ghost s = m@;
        assert(s.subrange(0, 2)[0] == s[0] && s.subrange(0, 2)[1] == s[1]);
        assert(s.subrange(2, 4)[0] == s[2] && s.subrange(2, 4)[1] == s[3]);
        let start = match square_from(c[0], c[1]) {
            Some(sq) => sq,
            None => {
                return None;
            },
        };
        let end = match square_from(c[2], c[3]) {
            Some(sq) => sq,
            None => {
                return None;
            },
        };
        let promotion = if c.len() == 5 {
            match promotion_from(c[4]) {
                Some(k) => Some(k),
                None => {
                    return None;
                },
            }
        } else {
            None
        };
        Some(Move { start_square: start, end_square: end, promotion })
    }
}

/// Returns the square named by file letter `f` and rank digit `r`.
pub fn square_from(f: char, r: char) -> (sq: Option<Square>)
    ensures
        sq == square_of(seq![f, r]),
{
    if 'a' <= f && f <= 'h' && '1' <= r && r <= '8' {
        Some((((r as u32) - 49) as usize, ((f as u32) - 97) as usize))
    } else {
        None
    }
}

/// Returns the kind a promotion letter names.
pub fn promotion_from(c: char) -> (k: Option<PieceKind>)
    ensures
        k == promotion_kind(c),
{
    if c == 'q' || c == 'Q' {
        Some(PieceKind::Queen)
    } else if c == 'r' || c == 'R' {
        Some(PieceKind::Rook)
    } else if c == 'b' || c == 'B' {
        Some(PieceKind::Bishop)
    } else if c == 'n' || c == 'N' {
        Some(PieceKind::Knight)
    } else {
        None
    }
}

/// Appends the name of `sq` to `out`.
pub fn index_to_square(out: &mut Vec<char>, sq: Square)
    requires
        sq.0 < 8 && sq.1 < 8,
    ensures
        final(out)@ == old(out)@ + square_text(sq),
{
    out.push(file_letter(sq.1));
    out.push(rank_digit(sq.0));
    assert(final(out)@ =~= old(out)@ + square_text(sq));
}

/// Castles for the king on `start_square` and returns "O-O" or "O-O-O".
fn handle_castling(board: &mut Position, start_square: Square, end_square: Square) -> (t: Vec<char>)
    requires
        old(board).wf(),
        start_square.0 < 8 && start_square.1 < 8 && end_square.0 < 8 && end_square.1 < 8,
        is_castling(old(board)@, start_square, end_square),
    ensures
        final(board).wf(),
        final(board)@ == applied(old(board)@, start_square, end_square, None),
        t@ == (if end_square.1 == 6 {
            seq!['O', '-', 'O']
        } else {
            seq!['O', '-', 'O', '-', 'O']
        }),
{
    board.apply_move(start_square, end_square, None);
    let mut t: Vec<char> = Vec::new();
    t.push('O');
    t.push('-');
    t.push('O');
    if end_square.1 != 6 {
        t.push('-');
        t.push('O');
    }
    assert(t@ =~= (if end_square.1 == 6 {
        seq!['O', '-', 'O']
    } else {
        seq!['O', '-', 'O', '-', 'O']
    }));
    t
}

/// Plays the pawn move `m` and returns its token.
fn handle_pawn_move(board: &mut Position, m: &Move) -> (t: Vec<char>)
    requires
        old(board).wf(),
        m.start_square.0 < 8 && m.start_square.1 < 8 && m.end_square.0 < 8 && m.end_square.1 < 8,
        old(board)@.at(m.start_square.0 as int, m.start_square.1 as int) matches Some(p) && p.kind
            == PieceKind::Pawn,
        !is_castling(old(board)@, m.start_square, m.end_square),
    ensures
        final(board).wf(),
        final(board)@ == applied(old(board)@, m.start_square, m.end_square, promotion_on(*m)),
        t@ == encoded(old(board)@, *m),
{
    let mut t: Vec<char> = Vec::new();
    if m.start_square.1 != m.end_square.1 {
        t.push(file_letter(m.start_square.1));
        t.push('x');
    }
    index_to_square(&mut t, m.end_square);
    let promotion = if m.end_square.0 == 0 || m.end_square.0 == 7 {
        m.promotion
    } else {
        None
    };
    match promotion {
        Some(k) => {
            t.push('=');
            t.push(kind_letter(k));
        },
        None => {},
    }
    assert(t@ =~= encoded(old(board)@, *m));
    board.apply_move(m.start_square, m.end_square, promotion);
    t
}

/// Plays move `m`, whose origin holds a piece, and returns its token.
fn encode_move(board: &mut Position, m: &Move) -> (t: Vec<char>)
    requires
        old(board).wf(),
        m.start_square.0 < 8 && m.start_square.1 < 8 && m.end_square.0 < 8 && m.end_square.1 < 8,
        old(board)@.at(m.start_square.0 as int, m.start_square.1 as int) is Some,
    ensures
        final(board).wf(),
        final(board)@ == applied(old(board)@, m.start_square, m.end_square, promotion_on(*m)),
        t@ == encoded(old(board)@, *m),
{
    let p = board.piece_at(m.start_square.0, m.start_square.1).unwrap();
    let home: usize = match p.color {
        PieceColor::White => 0,
        PieceColor::Black => 7,
    };
    if p.kind == PieceKind::King && m.start_square.0 == home && m.start_square.1 == 4 && m.end_square.0
        == m.start_square.0 && (m.end_square.1 == 2 || m.end_square.1 == 6) {
        handle_castling(board, m.start_square, m.end_square)
    } else if p.kind == PieceKind::Pawn {
        handle_pawn_move(board, m)
    } else {
        let mut t: Vec<char> = Vec::new();
        t.push(kind_letter(p.kind));
        index_to_square(&mut t, m.start_square);
        if board.piece_at(m.end_square.0, m.end_square.1).is_some() {
            t.push('x');
        }
        index_to_square(&mut t, m.end_square);
        assert(t@ =~= encoded(old(board)@, *m));
        board.apply_move(m.start_square, m.end_square, None);
        t
    }
}

} // verus!

verus! {

/// When the moves encode without error, there is one token per move.
pub proof fn lemma_one_token_per_move(b: BoardState, moves: Seq<Seq<char>>)
    ensures
        encode_all(b, moves) matches Ok((tokens, last)) ==> tokens.len() == moves.len(),
    decreases moves.len(),
{
    if moves.len() > 0 {
        lemma_one_token_per_move(b, moves.drop_last());
    }
}

/// The first error of a prefix is the error of the whole sequence.
proof fn lemma_error_persists(b: BoardState, moves: Seq<Seq<char>>, j: int)
    requires
        0 <= j <= moves.len(),
        encode_all(b, moves.take(j)) is Err,
    ensures
        encode_all(b, moves) == encode_all(b, moves.take(j)),
    decreases moves.len(),
{
    if j == moves.len() {
        assert(moves.take(j) =~= moves);
    } else {
        assert(moves.drop_last().take(j) =~= moves.take(j));
        lemma_error_persists(b, moves.drop_last(), j);
    }
}

/// Turns coordinate moves played from the position string `fen` into one
/// notation token per move. Fails with `MalformedPosition` on a bad position
/// string, `MalformedPly(i)` when move `i` is not a coordinate move, and
/// `UnresolvableOrigin(i)` when the origin of move `i` is empty.
pub fn fen_to_pgn(fen: &str, ambiguous_moves: Vec<String>) -> (r: Result<Vec<String>, NotationError>)
    ensures
        match encoded_game(fen@, string_views(ambiguous_moves@)) {
            Ok(tokens) => r matches Ok(v) && string_views(v@) == tokens,
            Err(e) => r == Err::<Vec<String>, NotationError>(e),
        },
        r matches Ok(v) ==> v.len() == ambiguous_moves.len(),
{
    let ghost moves = string_views(ambiguous_moves@);
    let (mut board, side) = match parse_fen(fen) {
        Ok(parsed) => parsed,
        Err(e) => {
            return Err(e);
        },
    };
    let ghost b0 = board@;
    let mut tokens: Vec<String> = Vec::new();
    let mut i: usize = 0;
    assert(moves.take(0) =~= Seq::<Seq<char>>::empty());
    assert(string_views(tokens@) =~= Seq::<Seq<char>>::empty());
    while i < ambiguous_moves.len()
        invariant
            board.wf(),
            parsed(fen@) == Ok::<(BoardState, PieceColor), NotationError>((b0, side)),
            i <= ambiguous_moves@.len(),
            moves == string_views(ambiguous_moves@),
            encode_all(b0, moves.take(i as int)) == Ok::<(Seq<Seq<char>>, BoardState), NotationError>(
                (string_views(tokens@), board@),
            ),
        decreases ambiguous_moves@.len() - i,
    {
        assert(moves.take(i + 1).drop_last() =~= moves.take(i as int));
        assert(moves.take(i + 1).last() == ambiguous_moves@[i as int]@);
        let m = match Move::from_ambiguous(ambiguous_moves[i].as_str()) {
            Some(m) => m,
            None => {
                proof {
                    lemma_error_persists(b0, moves, i + 1);
                }
                return Err(NotationError::MalformedPly(i));
            },
        };
        if board.piece_at(m.start_square.0, m.start_square.1).is_none() {
            proof {
                lemma_error_persists(b0, moves, i + 1);
            }
            return Err(NotationError::UnresolvableOrigin(i));
        }
        let t = encode_move(&mut board, &m);
        let token = string_of(&t);
        let ghost before = tokens@;
        tokens.push(token);
        assert(string_views(tokens@) =~= string_views(before).push(token@));
        i = i + 1;
    }
    assert(moves.take(i as int) =~= moves);
    proof {
        lemma_one_token_per_move(b0, moves);
    }
    Ok(tokens)
}

} // verus!
