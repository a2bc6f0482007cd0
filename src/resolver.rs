//! Finding the square a piece came from, given where it landed: a search
//! along fixed rays out of the destination, in a fixed order.

use vstd::prelude::*;
use crate::position::{on_board, BoardState, Piece, PieceColor, PieceKind, Position, Square};

verus! {

/// A walk out of `origin` along `search_direction` that looks for `target`.
/// A sliding walk goes on over empty squares; a jumping walk inspects one
/// square only. The first occupied square ends the walk.
#[derive(Clone, Copy, Debug)]
pub struct PieceLocator {
    pub origin: Square,
    pub target: Piece,
    pub search_direction: (i64, i64),
    pub scope_restriction: (Option<usize>, Option<usize>),
    pub is_jump: bool,
}

/// The first occupied square met from (r, f) on, stepping by (dr, df), while
/// on the board; a walk that does not slide looks at (r, f) alone. `reach`
/// bounds the number of further steps.
pub open spec fn first_occupied(b: BoardState, r: int, f: int, dr: int, df: int, slides: bool, reach: nat) -> Option<Square>
    decreases reach,
{
    if !on_board(r, f) {
        None
    } else if b.at(r, f) is Some {
        Some((r as usize, f as usize))
    } else if !slides || reach == 0 {
        None
    } else {
        first_occupied(b, r + dr, f + df, dr, df, slides, (reach - 1) as nat)
    }
}

/// Whether `sq` meets the rank and file restrictions that are given.
pub open spec fn fits(sq: Square, scope: (Option<usize>, Option<usize>)) -> bool {
    &&& (scope.0 matches Some(r) ==> sq.0 == r)
    &&& (scope.1 matches Some(f) ==> sq.1 == f)
}

impl PieceLocator {
    /// Origin on the board and a step of at most two in each direction.
    pub open spec fn wf(self) -> bool {
        &&& self.origin.0 < 8 && self.origin.1 < 8
        &&& -2 <= self.search_direction.0 <= 2 && -2 <= self.search_direction.1 <= 2
    }

    /// What the walk finds: the first occupied square, if it holds the
    /// target and meets the restrictions; otherwise nothing.
    pub open spec fn found(self, b: BoardState) -> Option<Square> {
        let d = self.search_direction;
        match first_occupied(b, self.origin.0 + d.0, self.origin.1 + d.1, d.0 as int, d.1 as int, !self.is_jump, 7) {
            Some(sq) => if b.at(sq.0 as int, sq.1 as int) == Some(self.target) && fits(sq, self.scope_restriction) {
                Some(sq)
            } else {
                None
            },
            None => None,
        }
    }

    /// A walk from `origin` along `search_direction`.
    pub fn new(
        origin: Square,
        target: Piece,
        search_direction: (i64, i64),
        scope_restriction: (Option<usize>, Option<usize>),
        is_jump: bool,
    ) -> (l: PieceLocator)
        ensures
            l == (PieceLocator { origin, target, search_direction, scope_restriction, is_jump }),
    {
        PieceLocator { origin, target, search_direction, scope_restriction, is_jump }
    }

    /// Walks the ray on `board` and returns the square of the target found on it.
    pub fn locate(&self, board: &Position) -> (r: Option<Square>)
        requires
            board.wf(),
            self.wf(),
        ensures
            r == self.found(board@),
    {
        let dr = self.search_direction.0;
        let df = self.search_direction.1;
        let mut rank: i64 = self.origin.0 as i64 + dr;
        let mut file: i64 = self.origin.1 as i64 + df;
        let mut reach: u64 = 7;
        let ghost b = board@;
        let ghost start = first_occupied(b, rank as int, file as int, dr as int, df as int, !self.is_jump, 7);
        assert(self.found(b) == match start {
            Some(sq) => if b.at(sq.0 as int, sq.1 as int) == Some(self.target) && fits(sq, self.scope_restriction) {
                Some(sq)
            } else {
                None
            },
            None => None,
        });
        loop
            invariant
                board.wf(),
                b == board@,
                -2 <= dr <= 2 && -2 <= df <= 2,
                -2 <= rank <= 9 && -2 <= file <= 9,
                reach <= 7,
                first_occupied(b, rank as int, file as int, dr as int, df as int, !self.is_jump, reach as nat) == start,
                self.found(b) == match start {
                    Some(sq) => if b.at(sq.0 as int, sq.1 as int) == Some(self.target) && fits(sq, self.scope_restriction) {
                        Some(sq)
                    } else {
                        None
                    },
                    None => None,
                },
            decreases reach,
        {
            if !(0 <= rank && rank < 8 && 0 <= file && file < 8) {
                return None;
            }
            let here = board.piece_at(rank as usize, file as usize);
            match here {
                Some(p) => {
                    let sq: Square = (rank as usize, file as usize);
                    let rank_ok = match self.scope_restriction.0 {
                        Some(x) => sq.0 == x,
                        None => true,
                    };
                    let file_ok = match self.scope_restriction.1 {
                        Some(y) => sq.1 == y,
                        None => true,
                    };
                    if p == self.target && rank_ok && file_ok {
                        return Some(sq);
                    }
                    return None;
                },
                None => {},
            }
            if self.is_jump || reach == 0 {
                return None;
            }
            rank = rank + dr;
            file = file + df;
            reach = reach - 1;
        }
    }
}

/// What the first walk that finds anything finds, walks taken in order.
pub open spec fn first_found(b: BoardState, ls: Seq<PieceLocator>) -> Option<Square>
    decreases ls.len(),
{
    if ls.len() == 0 {
        None
    } else {
        match ls[0].found(b) {
            Some(sq) => Some(sq),
            None => first_found(b, ls.drop_first()),
        }
    }
}

/// One walk out of `to` per direction, in the order of `dirs`.
pub open spec fn spawned(
    dirs: Seq<(i64, i64)>,
    to: Square,
    target: Piece,
    scope: (Option<usize>, Option<usize>),
    is_jump: bool,
) -> Seq<PieceLocator> {
    dirs.map_values(
        |d: (i64, i64)|
            PieceLocator { origin: to, target, search_direction: d, scope_restriction: scope, is_jump },
    )
}

/// The four orthogonal directions, as (rank step, file step).
pub open spec fn orthogonal_dirs() -> Seq<(i64, i64)> {
    seq![(0i64, 1i64), (0i64, -1i64), (1i64, 0i64), (-1i64, 0i64)]
}

/// The four diagonal directions.
pub open spec fn diagonal_dirs() -> Seq<(i64, i64)> {
    seq![(1i64, 1i64), (1i64, -1i64), (-1i64, 1i64), (-1i64, -1i64)]
}

/// The eight knight jumps.
pub open spec fn knight_dirs() -> Seq<(i64, i64)> {
    seq![(1i64, 2i64), (1i64, -2i64), (2i64, 1i64), (2i64, -1i64), (-1i64, 2i64), (-1i64, -2i64), (-2i64, 1i64), (-2i64, -1i64)]
}

/// The eight king steps.
pub open spec fn king_dirs() -> Seq<(i64, i64)> {
    diagonal_dirs() + orthogonal_dirs()
}

/// Every step of `dirs` is at most two in each direction.
pub open spec fn short_steps(dirs: Seq<(i64, i64)>) -> bool {
    forall|i: int| 0 <= i < dirs.len() ==> -2 <= #[trigger] dirs[i].0 <= 2 && -2 <= dirs[i].1 <= 2
}

/// The single step a pawn of `c` advances by.
pub open spec fn advance(c: PieceColor) -> int {
    match c {
        PieceColor::White => 1,
        PieceColor::Black => -1,
    }
}

/// The rank a side's pawns start on.
pub open spec fn pawn_rank(c: PieceColor) -> int {
    match c {
        PieceColor::White => 1,
        PieceColor::Black => 6,
    }
}

/// Where a pawn of `c` that landed on `to` came from. With a file (a capture)
/// it is the square one rank back on that file. Without one it is the square
/// one rank back on the same file, or, over an empty square, the one two
/// ranks back when that lies on the pawns' starting rank.
pub open spec fn pawn_origin(b: BoardState, to: Square, c: PieceColor, file: Option<usize>) -> Option<Square> {
    let pawn = Some(Piece { kind: PieceKind::Pawn, color: c });
    let r1 = to.0 - advance(c);
    let r2 = r1 - advance(c);
    match file {
        Some(f) => if on_board(r1, f as int) && b.at(r1, f as int) == pawn {
            Some((r1 as usize, f))
        } else {
            None
        },
        None => if on_board(r1, to.1 as int) && b.at(r1, to.1 as int) == pawn {
            Some((r1 as usize, to.1))
        } else if on_board(r1, to.1 as int) && b.at(r1, to.1 as int) is None && r2 == pawn_rank(c)
            && b.at(r2, to.1 as int) == pawn {
            Some((r2 as usize, to.1))
        } else {
            None
        },
    }
}

/// Where a piece of `kind` and `color` that landed on `to` came from: the
/// first find of the kind's walks, or, for a pawn, its origin as above (the
/// file restriction then marks a capture). Either way the origin must meet
/// the restrictions given.
pub open spec fn origin_of(
    b: BoardState,
    to: Square,
    kind: PieceKind,
    color: PieceColor,
    scope: (Option<usize>, Option<usize>),
) -> Option<Square> {
    let target = Piece { kind, color };
    match kind {
        PieceKind::Pawn => match pawn_origin(b, to, color, scope.1) {
            Some(sq) => if fits(sq, scope) {
                Some(sq)
            } else {
                None
            },
            None => None,
        },
        PieceKind::Knight => first_found(b, spawned(knight_dirs(), to, target, scope, true)),
        PieceKind::Bishop => first_found(b, spawned(diagonal_dirs(), to, target, scope, false)),
        PieceKind::Rook => first_found(b, spawned(orthogonal_dirs(), to, target, scope, false)),
        PieceKind::Queen => first_found(b, spawned(diagonal_dirs() + orthogonal_dirs(), to, target, scope, false)),
        PieceKind::King => first_found(b, spawned(king_dirs(), to, target, scope, true)),
    }
}

/// Returns the walks of `spawned`, one per direction.
pub fn spawn_locators(
    directions: &Vec<(i64, i64)>,
    end_square: Square,
    piece: Piece,
    scope_restriction: (Option<usize>, Option<usize>),
    is_jump: bool,
) -> (ls: Vec<PieceLocator>)
    ensures
        ls@ == spawned(directions@, end_square, piece, scope_restriction, is_jump),
{
    let mut ls: Vec<PieceLocator> = Vec::new();
    let mut i: usize = 0;
    while i < directions.len()
        invariant
            i <= directions@.len(),
            ls@ == spawned(directions@.take(i as int), end_square, piece, scope_restriction, is_jump),
        decreases directions@.len() - i,
    {
        ls.push(PieceLocator::new(end_square, piece, directions[i], scope_restriction, is_jump));
        assert(spawned(directions@.take(i + 1), end_square, piece, scope_restriction, is_jump) =~= ls@);
        i = i + 1;
    }
    assert(directions@.take(directions@.len() as int) =~= directions@);
    ls
}

/// Returns what the first walk that finds anything finds.
pub fn find_piece_location(locators: &Vec<PieceLocator>, board: &Position) -> (r: Option<Square>)
    requires
        board.wf(),
        forall|i: int| 0 <= i < locators@.len() ==> (#[trigger] locators@[i]).wf(),
    ensures
        r == first_found(board@, locators@),
{
    let mut i: usize = 0;
    assert(locators@.skip(0) =~= locators@);
    while i < locators.len()
        invariant
            board.wf(),
            i <= locators@.len(),
            forall|j: int| 0 <= j < locators@.len() ==> (#[trigger] locators@[j]).wf(),
            first_found(board@, locators@) == first_found(board@, locators@.skip(i as int)),
        decreases locators@.len() - i,
    {
        assert(locators@.skip(i as int).drop_first() =~= locators@.skip(i + 1));
        let hit = locators[i].locate(board);
        if hit.is_some() {
            return hit;
        }
        i = i + 1;
    }
    None
}

fn orthogonal_directions() -> (v: Vec<(i64, i64)>)
    ensures
        v@ == orthogonal_dirs(),
{
    let v: Vec<(i64, i64)> = vec![(0, 1), (0, -1), (1, 0), (-1, 0)];
    assert(v@ =~= orthogonal_dirs());
    v
}

fn diagonal_directions() -> (v: Vec<(i64, i64)>)
    ensures
        v@ == diagonal_dirs(),
{
    let v: Vec<(i64, i64)> = vec![(1, 1), (1, -1), (-1, 1), (-1, -1)];
    assert(v@ =~= diagonal_dirs());
    v
}

fn knight_directions() -> (v: Vec<(i64, i64)>)
    ensures
        v@ == knight_dirs(),
{
    let v: Vec<(i64, i64)> = vec![(1, 2), (1, -2), (2, 1), (2, -1), (-1, 2), (-1, -2), (-2, 1), (-2, -1)];
    assert(v@ =~= knight_dirs());
    v
}

fn king_directions() -> (v: Vec<(i64, i64)>)
    ensures
        v@ == king_dirs(),
{
    let v: Vec<(i64, i64)> = vec![(1, 1), (1, -1), (-1, 1), (-1, -1), (0, 1), (0, -1), (1, 0), (-1, 0)];
    assert(v@ =~= king_dirs());
    v
}

} // verus!

verus! {

proof fn lemma_short_steps_spawned(
    dirs: Seq<(i64, i64)>,
    to: Square,
    target: Piece,
    scope: (Option<usize>, Option<usize>),
    is_jump: bool,
)
    requires
        short_steps(dirs),
        to.0 < 8 && to.1 < 8,
    ensures
        forall|i: int|
            0 <= i < dirs.len() ==> (#[trigger] spawned(dirs, to, target, scope, is_jump)[i]).wf(),
{
}

impl Position {
    /// Returns where a pawn of `color` that landed on `end_square` came from:
    /// one rank back on `file_restriction` for a capture, else one rank back
    /// on its own file or, from the starting rank, two.
    pub fn find_origin_of_pawn_move(
        &self,
        end_square: Square,
        piece_color: PieceColor,
        file_restriction: Option<usize>,
    ) -> (r: Option<Square>)
        requires
            self.wf(),
            end_square.0 < 8 && end_square.1 < 8,
        ensures
            r == pawn_origin(self@, end_square, piece_color, file_restriction),
    {
        let pawn = Some(Piece { kind: PieceKind::Pawn, color: piece_color });
        let (r1, r2): (i64, i64) = match piece_color {
            PieceColor::White => (end_square.0 as i64 - 1, end_square.0 as i64 - 2),
            PieceColor::Black => (end_square.0 as i64 + 1, end_square.0 as i64 + 2),
        };
        let start: i64 = match piece_color {
            PieceColor::White => 1,
            PieceColor::Black => 6,
        };
        if r1 < 0 || r1 >= 8 {
            return None;
        }
        match file_restriction {
            Some(f) => {
                if f < 8 && self.piece_at(r1 as usize, f) == pawn {
                    Some((r1 as usize, f))
                } else {
                    None
                }
            },
            None => {
                let one_back = self.piece_at(r1 as usize, end_square.1);
                if one_back == pawn {
                    Some((r1 as usize, end_square.1))
                } else if one_back.is_none() && r2 == start && self.piece_at(r2 as usize, end_square.1)
                    == pawn {
                    Some((r2 as usize, end_square.1))
                } else {
                    None
                }
            },
        }
    }

    /// Returns where a piece of `piece_name` and `piece_color` that landed on
    /// `end_square` came from, under the rank and file restrictions given.
    pub fn find_origin_of_move(
        &self,
        end_square: Square,
        piece_name: PieceKind,
        piece_color: PieceColor,
        scope_restriction: (Option<usize>, Option<usize>),
    ) -> (r: Option<Square>)
        requires
            self.wf(),
            end_square.0 < 8 && end_square.1 < 8,
        ensures
            r == origin_of(self@, end_square, piece_name, piece_color, scope_restriction),
    {
        let piece = Piece { kind: piece_name, color: piece_color };
        let (directions, is_jump) = match piece_name {
            PieceKind::Pawn => {
                let found = self.find_origin_of_pawn_move(end_square, piece_color, scope_restriction.1);
                return match (found, scope_restriction.0) {
                    (Some(sq), Some(r)) => if sq.0 == r {
                        found
                    } else {
                        None
                    },
                    _ => found,
                };
            },
            PieceKind::Knight => (knight_directions(), true),
            PieceKind::Bishop => (diagonal_directions(), false),
            PieceKind::Rook => (orthogonal_directions(), false),
            PieceKind::Queen => {
                let mut d = diagonal_directions();
                let mut o = orthogonal_directions();
                d.append(&mut o);
                (d, false)
            },
            PieceKind::King => (king_directions(), true),
        };
        proof {
            assert(short_steps(directions@));
            lemma_short_steps_spawned(directions@, end_square, piece, scope_restriction, is_jump);
        }
        let locators = spawn_locators(&directions, end_square, piece, scope_restriction, is_jump);
        find_piece_location(&locators, self)
    }
}

} // verus!

verus! {

proof fn lemma_first_occupied_on_board(b: BoardState, r: int, f: int, dr: int, df: int, slides: bool, reach: nat)
    ensures
        first_occupied(b, r, f, dr, df, slides, reach) matches Some(sq) ==> sq.0 < 8 && sq.1 < 8,
    decreases reach,
{
    if on_board(r, f) && b.at(r, f) is None && slides && reach > 0 {
        lemma_first_occupied_on_board(b, r + dr, f + df, dr, df, slides, (reach - 1) as nat);
    }
}

proof fn lemma_first_found_holds(b: BoardState, ls: Seq<PieceLocator>, target: Piece)
    requires
        forall|i: int| 0 <= i < ls.len() ==> (#[trigger] ls[i]).target == target,
    ensures
        first_found(b, ls) matches Some(sq) ==> sq.0 < 8 && sq.1 < 8 && b.at(sq.0 as int, sq.1 as int) == Some(target),
    decreases ls.len(),
{
    if ls.len() > 0 {
        let l = ls[0];
        let d = l.search_direction;
        lemma_first_occupied_on_board(b, l.origin.0 + d.0, l.origin.1 + d.1, d.0 as int, d.1 as int, !l.is_jump, 7);
        lemma_first_found_holds(b, ls.drop_first(), target);
    }
}

/// A square the resolver returns is on the board and holds the piece sought.
pub proof fn lemma_origin_holds_piece(
    b: BoardState,
    to: Square,
    kind: PieceKind,
    color: PieceColor,
    scope: (Option<usize>, Option<usize>),
)
    ensures
        origin_of(b, to, kind, color, scope) matches Some(sq) ==> sq.0 < 8 && sq.1 < 8 && b.at(sq.0 as int, sq.1 as int)
            == Some(Piece { kind, color }),
{
    let target = Piece { kind, color };
    let dirs = match kind {
        PieceKind::Knight => knight_dirs(),
        PieceKind::Bishop => diagonal_dirs(),
        PieceKind::Rook => orthogonal_dirs(),
        PieceKind::Queen => diagonal_dirs() + orthogonal_dirs(),
        _ => king_dirs(),
    };
    let jumps = kind == PieceKind::Knight || kind == PieceKind::King;
    if kind != PieceKind::Pawn {
        lemma_first_found_holds(b, spawned(dirs, to, target, scope, jumps), target);
    }
}

} // verus!

verus! {

proof fn lemma_bare_walk(b: BoardState, r: int, f: int, dr: int, df: int, slides: bool, reach: nat)
    requires
        b.wf(),
        b.is_bare(),
    ensures
        first_occupied(b, r, f, dr, df, slides, reach) is None,
    decreases reach,
{
    if on_board(r, f) {
        assert(b.at(r, f) is None);
        if slides && reach > 0 {
            lemma_bare_walk(b, r + dr, f + df, dr, df, slides, (reach - 1) as nat);
        }
    }
}

proof fn lemma_bare_walks(b: BoardState, ls: Seq<PieceLocator>)
    requires
        b.wf(),
        b.is_bare(),
    ensures
        first_found(b, ls) is None,
    decreases ls.len(),
{
    if ls.len() > 0 {
        let l = ls[0];
        let d = l.search_direction;
        lemma_bare_walk(b, l.origin.0 + d.0, l.origin.1 + d.1, d.0 as int, d.1 as int, !l.is_jump, 7);
        lemma_bare_walks(b, ls.drop_first());
    }
}

/// On a board with no piece, the resolver finds no origin, whatever the
/// destination, kind, side and restrictions.
pub proof fn lemma_bare_board_has_no_origin(
    b: BoardState,
    to: Square,
    kind: PieceKind,
    color: PieceColor,
    scope: (Option<usize>, Option<usize>),
)
    requires
        b.wf(),
        b.is_bare(),
    ensures
        origin_of(b, to, kind, color, scope) is None,
{
    let target = Piece { kind, color };
    let dirs = match kind {
        PieceKind::Knight => knight_dirs(),
        PieceKind::Bishop => diagonal_dirs(),
        PieceKind::Rook => orthogonal_dirs(),
        PieceKind::Queen => diagonal_dirs() + orthogonal_dirs(),
        _ => king_dirs(),
    };
    let jumps = kind == PieceKind::Knight || kind == PieceKind::King;
    if kind == PieceKind::Pawn {
        let r1 = to.0 - advance(color);
        let r2 = r1 - advance(color);
        if on_board(r1, to.1 as int) {
            assert(b.at(r1, to.1 as int) is None);
        }
        if on_board(r2, to.1 as int) {
            assert(b.at(r2, to.1 as int) is None);
        }
        if let Some(f) = scope.1 {
            if on_board(r1, f as int) {
                assert(b.at(r1, f as int) is None);
            }
        }
    } else {
        lemma_bare_walks(b, spawned(dirs, to, target, scope, jumps));
    }
}

} // verus!
