//! Applying one move to a position: castling, pawn moves (en passant and
//! promotion) and plain relocation, as three exclusive cases.

use vstd::prelude::*;
use crate::position::{cell, opposite, BoardState, Piece, PieceColor, PieceKind, Position, Square};

verus! {

/// The rank a side's king and rooks start on.
pub open spec fn home_rank(c: PieceColor) -> int {
    match c {
        PieceColor::White => 0,
        PieceColor::Black => 7,
    }
}

/// The cells after the content of `from` moves to `to`, leaving `from` empty.
pub open spec fn relocate(cells: Seq<Option<Piece>>, from: Square, to: Square) -> Seq<Option<Piece>> {
    let p = cells[cell(from.0 as int, from.1 as int)];
    cells.update(cell(from.0 as int, from.1 as int), None).update(cell(to.0 as int, to.1 as int), p)
}

/// A king on its home square moving two files along its home rank.
pub open spec fn is_castling(b: BoardState, from: Square, to: Square) -> bool {
    match b.at(from.0 as int, from.1 as int) {
        Some(p) => p.kind == PieceKind::King && from.0 == home_rank(p.color) && from.1 == 4
            && to.0 == from.0 && (to.1 == 2 || to.1 == 6),
        None => false,
    }
}

/// The board after castling on `rank`: the rook of the chosen wing goes next
/// to the king's destination, the king goes two files over; the en-passant
/// target is cleared.
pub open spec fn castled(b: BoardState, rank: usize, kingside: bool) -> BoardState {
    let rook_from: usize = if kingside { 7 } else { 0 };
    let rook_to: usize = if kingside { 5 } else { 3 };
    let king_to: usize = if kingside { 6 } else { 2 };
    BoardState {
        cells: relocate(relocate(b.cells, (rank, rook_from), (rank, rook_to)), (rank, 4), (rank, king_to)),
        ep: None,
    }
}

/// A move of two ranks along one file.
pub open spec fn is_double_advance(from: Square, to: Square) -> bool {
    from.1 == to.1 && (from.0 == to.0 + 2 || to.0 == from.0 + 2)
}

/// The rank of the pawn that a pawn of `c` takes en passant on rank `r`.
pub open spec fn passed_rank(c: PieceColor, r: int) -> int {
    match c {
        PieceColor::White => r - 1,
        PieceColor::Black => r + 1,
    }
}

/// The board after the pawn on `from` moves to `to`: a pawn landing on the
/// en-passant target removes the enemy pawn behind it; a promotion kind
/// replaces the pawn; a double advance sets the en-passant target to the
/// square passed over, any other pawn move clears it.
pub open spec fn pawn_moved(b: BoardState, from: Square, to: Square, promotion: Option<PieceKind>) -> BoardState {
    let p = b.at(from.0 as int, from.1 as int)->Some_0;
    let c1 = relocate(b.cells, from, to);
    let behind = passed_rank(p.color, to.0 as int);
    let c2 = if b.ep == Some(to) && 0 <= behind < 8 {
        c1.update(cell(behind, to.1 as int), None)
    } else {
        c1
    };
    let c3 = match promotion {
        Some(k) => c2.update(cell(to.0 as int, to.1 as int), Some(Piece { kind: k, color: p.color })),
        None => c2,
    };
    let ep = if is_double_advance(from, to) {
        Some((((from.0 + to.0) / 2) as usize, to.1))
    } else {
        None
    };
    BoardState { cells: c3, ep }
}

/// The board after the move from `from` to `to`: castling, a pawn move, or a
/// plain relocation that clears the en-passant target.
pub open spec fn applied(b: BoardState, from: Square, to: Square, promotion: Option<PieceKind>) -> BoardState {
    if is_castling(b, from, to) {
        castled(b, from.0, to.1 == 6)
    } else if b.at(from.0 as int, from.1 as int) matches Some(p) && p.kind == PieceKind::Pawn {
        pawn_moved(b, from, to, promotion)
    } else {
        BoardState { cells: relocate(b.cells, from, to), ep: None }
    }
}

impl Position {
    /// Moves the content of `from` to `to`, leaving `from` empty.
    fn relocate(&mut self, from: Square, to: Square)
        requires
            old(self).wf(),
            from.0 < 8 && from.1 < 8 && to.0 < 8 && to.1 < 8,
        ensures
            final(self)@ == (BoardState { cells: relocate(old(self)@.cells, from, to), ep: old(self)@.ep }),
            final(self).wf(),
    {
        let p = self.piece_at(from.0, from.1);
        self.set_piece(from.0, from.1, None);
        self.set_piece(to.0, to.1, p);
    }

    /// Castles on `rank`, on the king's wing when `kingside` holds, else on the
    /// queen's wing.
    pub fn castle(&mut self, rank: usize, kingside: bool)
        requires
            old(self).wf(),
            rank < 8,
        ensures
            final(self)@ == castled(old(self)@, rank, kingside),
            final(self).wf(),
    {
        if kingside {
            self.relocate((rank, 7), (rank, 5));
            self.relocate((rank, 4), (rank, 6));
        } else {
            self.relocate((rank, 0), (rank, 3));
            self.relocate((rank, 4), (rank, 2));
        }
        self.en_passant_target = None;
    }

    /// Applies the move from `from` to `to`, promoting a pawn to `promotion`
    /// when one is given, and returns the piece that moved.
    pub fn apply_move(&mut self, from: Square, to: Square, promotion: Option<PieceKind>) -> (moved: Piece)
        requires
            old(self).wf(),
            from.0 < 8 && from.1 < 8 && to.0 < 8 && to.1 < 8,
            old(self)@.at(from.0 as int, from.1 as int) is Some,
        ensures
            final(self)@ == applied(old(self)@, from, to, promotion),
            Some(moved) == old(self)@.at(from.0 as int, from.1 as int),
            final(self).wf(),
    {
        let p = self.piece_at(from.0, from.1).unwrap();
        let home: usize = match p.color {
            PieceColor::White => 0,
            PieceColor::Black => 7,
        };
        if p.kind == PieceKind::King && from.0 == home && from.1 == 4 && to.0 == from.0 && (to.1 == 2
            || to.1 == 6) {
            self.castle(from.0, to.1 == 6);
        } else if p.kind == PieceKind::Pawn {
            let target = self.en_passant_target;
            self.relocate(from, to);
            let takes_passed = match target {
                Some(t) => t.0 == to.0 && t.1 == to.1,
                None => false,
            };
            if takes_passed {
                match p.color {
                    PieceColor::White => {
                        if to.0 >= 1 {
                            self.set_piece(to.0 - 1, to.1, None);
                        }
                    },
                    PieceColor::Black => {
                        if to.0 + 1 < 8 {
                            self.set_piece(to.0 + 1, to.1, None);
                        }
                    },
                }
            }
            match promotion {
                Some(k) => {
                    self.set_piece(to.0, to.1, Some(Piece { kind: k, color: p.color }));
                },
                None => {},
            }
            if from.1 == to.1 && (from.0 == to.0 + 2 || to.0 == from.0 + 2) {
                self.en_passant_target = Some(((from.0 + to.0) / 2, to.1));
            } else {
                self.en_passant_target = None;
            }
        } else {
            self.relocate(from, to);
            self.en_passant_target = None;
        }
        p
    }
}

} // verus!

verus! {

/// A pawn that advances two ranks from `from` to `to` sets the en-passant
/// target to the square it passed; an enemy pawn beside `to` that then
/// captures onto that square removes the advanced pawn, and leaves no target.
pub proof fn lemma_en_passant_capture(b: BoardState, from: Square, to: Square, capturer: Square)
    requires
        b.wf(),
        from.0 < 8 && from.1 < 8 && to.0 < 8 && to.1 < 8 && capturer.0 < 8 && capturer.1 < 8,
        b.at(from.0 as int, from.1 as int) matches Some(p) && p.kind == PieceKind::Pawn && to.1 == from.1
            && (p.color == PieceColor::White ==> to.0 == from.0 + 2) && (p.color == PieceColor::Black
            ==> from.0 == to.0 + 2) && b.at(capturer.0 as int, capturer.1 as int) == Some(
            Piece { kind: PieceKind::Pawn, color: opposite(p.color) },
        ),
        capturer.0 == to.0,
        capturer.1 == to.1 + 1 || to.1 == capturer.1 + 1,
    ensures
        ({
            let p = b.at(from.0 as int, from.1 as int)->Some_0;
            let passed: Square = (((from.0 + to.0) / 2) as usize, to.1);
            let b1 = applied(b, from, to, None);
            let b2 = applied(b1, capturer, passed, None);
            &&& b1.ep == Some(passed)
            &&& b1.at(to.0 as int, to.1 as int) == Some(p)
            &&& b2.at(to.0 as int, to.1 as int) is None
            &&& b2.at(passed.0 as int, passed.1 as int) == Some(
                Piece { kind: PieceKind::Pawn, color: opposite(p.color) },
            )
            &&& b2.at(capturer.0 as int, capturer.1 as int) is None
            &&& b2.ep is None
        }),
{
}

/// The en-passant target lives for one ply: any move that is not a pawn's
/// double advance leaves none.
pub proof fn lemma_en_passant_target_expires(b: BoardState, from: Square, to: Square, promotion: Option<PieceKind>)
    requires
        b.at(from.0 as int, from.1 as int) is Some,
        !(b.at(from.0 as int, from.1 as int)->Some_0.kind == PieceKind::Pawn && is_double_advance(from, to)),
    ensures
        applied(b, from, to, promotion).ep is None,
{
}

/// A pawn move onto a square that is not the en-passant target, without
/// promotion, only moves the pawn: no other square changes.
pub proof fn lemma_no_capture_off_target(b: BoardState, from: Square, to: Square)
    requires
        b.at(from.0 as int, from.1 as int) matches Some(p) && p.kind == PieceKind::Pawn,
        b.ep != Some(to),
    ensures
        applied(b, from, to, None).cells == relocate(b.cells, from, to),
{
}

} // verus!

verus! {

/// A pawn that moves with a promotion kind leaves a piece of that kind, of
/// its own side, on its destination, and its origin empty.
pub proof fn lemma_promotion_replaces_pawn(b: BoardState, from: Square, to: Square, k: PieceKind)
    requires
        b.wf(),
        from.0 < 8 && from.1 < 8 && to.0 < 8 && to.1 < 8,
        from != to,
        b.at(from.0 as int, from.1 as int) matches Some(p) && p.kind == PieceKind::Pawn,
    ensures
        ({
            let p = b.at(from.0 as int, from.1 as int)->Some_0;
            let after = applied(b, from, to, Some(k));
            &&& after.at(to.0 as int, to.1 as int) == Some(Piece { kind: k, color: p.color })
            &&& after.at(from.0 as int, from.1 as int) is None
        }),
{
    assert(cell(from.0 as int, from.1 as int) != cell(to.0 as int, to.1 as int));
}

} // verus!
