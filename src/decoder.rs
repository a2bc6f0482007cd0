//! From standard movetext ("e4 e5 Nf3 Nc6 O-O") to the position string of the
//! final position, replayed from the starting setup.

use vstd::prelude::*;
use crate::codec::{position_text, square_of};
use crate::encoder::{promotion_from, promotion_kind, square_from};
use crate::error::NotationError;
use crate::executor::{applied, castled, home_rank};
use crate::position::{opposite, other_side, start_state, BoardState, PieceColor, PieceKind, Position, Square};
use crate::resolver::{lemma_origin_holds_piece, origin_of};
use crate::text::{chars_of, split_words, views, words};

verus! {

/// What one ply of movetext asks for.
#[derive(Clone, Copy, Debug)]
pub enum Ply {
    /// Castling of the side to move, on the king's wing or the queen's.
    Castle { kingside: bool },
    /// A pawn to `to`; `file` is the origin file of a capture.
    PawnMove { to: Square, file: Option<usize>, promotion: Option<PieceKind> },
    /// A piece of `kind` to `to`, with the rank and file restrictions given.
    PieceMove { kind: PieceKind, to: Square, rank: Option<usize>, file: Option<usize> },
}

/// The token without one trailing check or mate mark.
pub open spec fn cleaned(t: Seq<char>) -> Seq<char> {
    if t.len() > 0 && (t.last() == '+' || t.last() == '#') {
        t.drop_last()
    } else {
        t
    }
}

/// The kind a piece letter of movetext names; pawns have none.
pub open spec fn kind_of_letter(c: char) -> Option<PieceKind> {
    if c == 'K' {
        Some(PieceKind::King)
    } else if c == 'Q' {
        Some(PieceKind::Queen)
    } else if c == 'R' {
        Some(PieceKind::Rook)
    } else if c == 'B' {
        Some(PieceKind::Bishop)
    } else if c == 'N' {
        Some(PieceKind::Knight)
    } else {
        None
    }
}

/// The file a letter names.
pub open spec fn file_of_char(c: char) -> Option<usize> {
    if 'a' <= c <= 'h' {
        Some((c as int - 97) as usize)
    } else {
        None
    }
}

/// The rank a digit names.
pub open spec fn rank_of_char(c: char) -> Option<usize> {
    if '1' <= c <= '8' {
        Some((c as int - 49) as usize)
    } else {
        None
    }
}

/// The token with every 'x' taken out.
pub open spec fn without_x(t: Seq<char>) -> Seq<char>
    decreases t.len(),
{
    if t.len() == 0 {
        seq![]
    } else if t.last() == 'x' {
        without_x(t.drop_last())
    } else {
        without_x(t.drop_last()).push(t.last())
    }
}

/// A pawn ply: "e4", "exd5", each optionally followed by "=<kind>".
pub open spec fn pawn_ply(t: Seq<char>) -> Option<Ply> {
    let promoted = t.len() >= 2 && t[t.len() - 2] == '=';
    let body = if promoted {
        t.take(t.len() - 2)
    } else {
        t
    };
    let promotion = if promoted {
        promotion_kind(t.last())
    } else {
        None
    };
    if promoted && promotion is None {
        None
    } else if body.len() == 4 && body[1] == 'x' && file_of_char(body[0]) is Some && square_of(body.subrange(2, 4)) is Some {
        Some(Ply::PawnMove { to: square_of(body.subrange(2, 4))->Some_0, file: file_of_char(body[0]), promotion })
    } else if body.len() == 2 && square_of(body) is Some {
        Some(Ply::PawnMove { to: square_of(body)->Some_0, file: None, promotion })
    } else {
        None
    }
}

/// A piece ply with its captures marks taken out: a kind letter, up to two
/// characters of disambiguation (a rank digit, a file letter, or a file letter
/// and a rank digit), and the destination.
pub open spec fn piece_ply(s: Seq<char>) -> Option<Ply> {
    if 3 <= s.len() <= 5 && kind_of_letter(s[0]) is Some && square_of(s.subrange(s.len() - 2, s.len() as int)) is Some {
        let kind = kind_of_letter(s[0])->Some_0;
        let to = square_of(s.subrange(s.len() - 2, s.len() as int))->Some_0;
        if s.len() == 3 {
            Some(Ply::PieceMove { kind, to, rank: None, file: None })
        } else if s.len() == 4 && rank_of_char(s[1]) is Some {
            Some(Ply::PieceMove { kind, to, rank: rank_of_char(s[1]), file: None })
        } else if s.len() == 4 && file_of_char(s[1]) is Some {
            Some(Ply::PieceMove { kind, to, rank: None, file: file_of_char(s[1]) })
        } else if s.len() == 5 && file_of_char(s[1]) is Some && rank_of_char(s[2]) is Some {
            Some(Ply::PieceMove { kind, to, rank: rank_of_char(s[2]), file: file_of_char(s[1]) })
        } else {
            None
        }
    } else {
        None
    }
}

/// What a cleaned token asks for: castling, a pawn ply (a token that starts
/// in lower case) or a piece ply; `None` for any other shape.
pub open spec fn ply_of(t: Seq<char>) -> Option<Ply> {
    if t == seq!['O', '-', 'O'] {
        Some(Ply::Castle { kingside: true })
    } else if t == seq!['O', '-', 'O', '-', 'O'] {
        Some(Ply::Castle { kingside: false })
    } else if t.len() > 0 && 'a' <= t[0] <= 'z' {
        pawn_ply(t)
    } else if t.len() > 0 {
        piece_ply(without_x(t))
    } else {
        None
    }
}

/// The board after `side` plays `ply`, the `index`th, on `b`; or
/// `UnresolvableOrigin` when no origin is found.
pub open spec fn played(b: BoardState, side: PieceColor, ply: Ply, index: int) -> Result<BoardState, NotationError> {
    match ply {
        Ply::Castle { kingside } => Ok(castled(b, home_rank(side) as usize, kingside)),
        Ply::PawnMove { to, file, promotion } => match origin_of(b, to, PieceKind::Pawn, side, (None, file)) {
            Some(from) => Ok(applied(b, from, to, promotion)),
            None => Err(NotationError::UnresolvableOrigin(index as usize)),
        },
        Ply::PieceMove { kind, to, rank, file } => match origin_of(b, to, kind, side, (rank, file)) {
            Some(from) => Ok(applied(b, from, to, None)),
            None => Err(NotationError::UnresolvableOrigin(index as usize)),
        },
    }
}

/// The board and the side to move after the tokens are played in turn from
/// the starting setup, White first; or the first ply's error.
pub open spec fn replayed(tokens: Seq<Seq<char>>) -> Result<(BoardState, PieceColor), NotationError>
    decreases tokens.len(),
{
    if tokens.len() == 0 {
        Ok((start_state(), PieceColor::White))
    } else {
        let i = tokens.len() - 1;
        match replayed(tokens.drop_last()) {
            Err(e) => Err(e),
            Ok((b, side)) => match ply_of(cleaned(tokens.last())) {
                None => Err(NotationError::MalformedPly(i as usize)),
                Some(p) => match played(b, side, p, i) {
                    Err(e) => Err(e),
                    Ok(b2) => Ok((b2, opposite(side))),
                },
            },
        }
    }
}

/// The position string at the end of the movetext `s`.
pub open spec fn decoded(s: Seq<char>) -> Result<Seq<char>, NotationError> {
    match replayed(words(s)) {
        Ok((b, side)) => Ok(position_text(b, side)),
        Err(e) => Err(e),
    }
}

} // verus!

verus! {

/// Returns the kind a piece letter names.
pub fn piecename_from_char(c: char) -> (k: Option<PieceKind>)
    ensures
        k == kind_of_letter(c),
{
    match c {
        'K' => Some(PieceKind::King),
        'Q' => Some(PieceKind::Queen),
        'R' => Some(PieceKind::Rook),
        'B' => Some(PieceKind::Bishop),
        'N' => Some(PieceKind::Knight),
        _ => None,
    }
}

/// Returns the file a letter names.
pub fn file_idx_from_char(c: char) -> (f: Option<usize>)
    ensures
        f == file_of_char(c),
{
    if 'a' <= c && c <= 'h' {
        Some(((c as u32) - 97) as usize)
    } else {
        None
    }
}

/// Returns the rank a digit names.
pub fn rank_idx_from_char(c: char) -> (r: Option<usize>)
    ensures
        r == rank_of_char(c),
{
    if '1' <= c && c <= '8' {
        Some(((c as u32) - 49) as usize)
    } else {
        None
    }
}

/// Returns the token without one trailing '+' or '#'.
fn strip_check(t: &Vec<char>) -> (r: Vec<char>)
    ensures
        r@ == cleaned(t@),
{
    let mut r: Vec<char> = Vec::new();
    let mut n = t.len();
    if n > 0 && (t[n - 1] == '+' || t[n - 1] == '#') {
        n = n - 1;
    }
    let mut i: usize = 0;
    while i < n
        invariant
            n <= t@.len(),
            i <= n,
            r@ == t@.take(i as int),
        decreases n - i,
    {
        r.push(t[i]);
        assert(t@.take(i as int).push(t@[i as int]) =~= t@.take(i + 1));
        i = i + 1;
    }
    assert(r@ =~= cleaned(t@));
    r
}

/// Returns the token with every 'x' taken out.
fn remove_x(t: &Vec<char>) -> (r: Vec<char>)
    ensures
        r@ == without_x(t@),
{
    let mut r: Vec<char> = Vec::new();
    let mut i: usize = 0;
    while i < t.len()
        invariant
            i <= t@.len(),
            r@ == without_x(t@.take(i as int)),
        decreases t@.len() - i,
    {
        assert(t@.take(i + 1).drop_last() =~= t@.take(i as int));
        if t[i] != 'x' {
            r.push(t[i]);
        }
        i = i + 1;
    }
    assert(t@.take(t@.len() as int) =~= t@);
    r
}

/// Whether `t` is exactly "O-O" (`long` false) or "O-O-O" (`long` true).
fn is_castle_token(t: &Vec<char>, long: bool) -> (r: bool)
    ensures
        r == (t@ == (if long {
            seq!['O', '-', 'O', '-', 'O']
        } else {
            seq!['O', '-', 'O']
        })),
{
    let ghost want = if long {
        seq!['O', '-', 'O', '-', 'O']
    } else {
        seq!['O', '-', 'O']
    };
    let n: usize = if long { 5 } else { 3 };
    if t.len() != n {
        assert(t@ != want) by {
            if t@ == want {
                assert(t@.len() == want.len());
            }
        }
        return false;
    }
    let mut i: usize = 0;
    while i < n
        invariant
            n == t@.len(),
            n == want.len(),
            i <= n,
            want == (if long {
                seq!['O', '-', 'O', '-', 'O']
            } else {
                seq!['O', '-', 'O']
            }),
            forall|j: int| 0 <= j < i ==> t@[j] == want[j],
        decreases n - i,
    {
        let expected = if i % 2 == 0 { 'O' } else { '-' };
        assert(want[i as int] == expected);
        if t[i] != expected {
            assert(t@ != want) by {
                if t@ == want {
                    assert(t@[i as int] == want[i as int]);
                }
            }
            return false;
        }
        i = i + 1;
    }
    assert(t@ =~= want);
    true
}

/// Reads a pawn ply: "e4", "exd5", optionally followed by "=<kind>".
fn parse_pawn_ply(t: &Vec<char>) -> (p: Option<Ply>)
    ensures
        p == pawn_ply(t@),
{
    let n = t.len();
    let promoted = n >= 2 && t[n - 2] == '=';
    let mut promotion: Option<PieceKind> = None;
    let mut len = n;
    if promoted {
        promotion = promotion_from(t[n - 1]);
        if promotion.is_none() {
            return None;
        }
        len = n - 2;
    }
    let ghost body = if promoted {
        t@.take(n - 2)
    } else {
        t@
    };
    assert(body.len() == len);
    assert(forall|j: int| 0 <= j < len ==> body[j] == t@[j]);
    if len == 4 && t[1] == 'x' {
        assert(body.subrange(2, 4) =~= seq![t@[2], t@[3]]);
        match (file_idx_from_char(t[0]), square_from(t[2], t[3])) {
            (Some(f), Some(to)) => {
                return Some(Ply::PawnMove { to, file: Some(f), promotion });
            },
            _ => {
                return None;
            },
        }
    }
    if len == 2 {
        assert(body =~= seq![t@[0], t@[1]]);
        match square_from(t[0], t[1]) {
            Some(to) => {
                return Some(Ply::PawnMove { to, file: None, promotion });
            },
            None => {
                return None;
            },
        }
    }
    None
}

/// Reads a piece ply whose capture marks are taken out.
fn parse_piece_ply(s: &Vec<char>) -> (p: Option<Ply>)
    ensures
        p == piece_ply(s@),
{
    let n = s.len();
    if n < 3 || n > 5 {
        return None;
    }
    assert(s@.subrange(n - 2, n as int) =~= seq![s@[n - 2], s@[n - 1]]);
    let kind = match piecename_from_char(s[0]) {
        Some(k) => k,
        None => {
            return None;
        },
    };
    let to = match square_from(s[n - 2], s[n - 1]) {
        Some(sq) => sq,
        None => {
            return None;
        },
    };
    if n == 3 {
        Some(Ply::PieceMove { kind, to, rank: None, file: None })
    } else if n == 4 {
        let rank = rank_idx_from_char(s[1]);
        if rank.is_some() {
            return Some(Ply::PieceMove { kind, to, rank, file: None });
        }
        let file = file_idx_from_char(s[1]);
        if file.is_some() {
            Some(Ply::PieceMove { kind, to, rank: None, file })
        } else {
            None
        }
    } else {
        let file = file_idx_from_char(s[1]);
        let rank = rank_idx_from_char(s[2]);
        if file.is_some() && rank.is_some() {
            Some(Ply::PieceMove { kind, to, rank, file })
        } else {
            None
        }
    }
}

/// Reads a cleaned token of movetext.
pub fn parse_ply(t: &Vec<char>) -> (p: Option<Ply>)
    ensures
        p == ply_of(t@),
{
    if is_castle_token(t, false) {
        return Some(Ply::Castle { kingside: true });
    }
    if is_castle_token(t, true) {
        return Some(Ply::Castle { kingside: false });
    }
    if t.len() > 0 && 'a' <= t[0] && t[0] <= 'z' {
        parse_pawn_ply(t)
    } else if t.len() > 0 {
        let s = remove_x(t);
        parse_piece_ply(&s)
    } else {
        None
    }
}

/// Plays `ply` for `side`, the `index`th ply, on `board`.
pub fn play_ply(board: &mut Position, side: PieceColor, ply: Ply, index: usize) -> (r: Result<(), NotationError>)
    requires
        old(board).wf(),
        match ply {
            Ply::Castle { .. } => true,
            Ply::PawnMove { to, .. } => to.0 < 8 && to.1 < 8,
            Ply::PieceMove { to, .. } => to.0 < 8 && to.1 < 8,
        },
    ensures
        final(board).wf(),
        match played(old(board)@, side, ply, index as int) {
            Ok(b) => r is Ok && final(board)@ == b,
            Err(e) => r == Err::<(), NotationError>(e),
        },
{
    match ply {
        Ply::Castle { kingside } => {
            let rank: usize = match side {
                PieceColor::White => 0,
                PieceColor::Black => 7,
            };
            board.castle(rank, kingside);
            Ok(())
        },
        Ply::PawnMove { to, file, promotion } => {
            match board.find_origin_of_move(to, PieceKind::Pawn, side, (None, file)) {
                Some(from) => {
                    proof {
                        lemma_origin_holds_piece(board@, to, PieceKind::Pawn, side, (None, file));
                    }
                    board.apply_move(from, to, promotion);
                    Ok(())
                },
                None => Err(NotationError::UnresolvableOrigin(index)),
            }
        },
        Ply::PieceMove { kind, to, rank, file } => {
            match board.find_origin_of_move(to, kind, side, (rank, file)) {
                Some(from) => {
                    proof {
                        lemma_origin_holds_piece(board@, to, kind, side, (rank, file));
                    }
                    board.apply_move(from, to, None);
                    Ok(())
                },
                None => Err(NotationError::UnresolvableOrigin(index)),
            }
        },
    }
}

} // verus!

verus! {

/// The first error of a prefix is the error of the whole movetext.
proof fn lemma_replay_error_persists(tokens: Seq<Seq<char>>, j: int)
    requires
        0 <= j <= tokens.len(),
        replayed(tokens.take(j)) is Err,
    ensures
        replayed(tokens) == replayed(tokens.take(j)),
    decreases tokens.len(),
{
    if j == tokens.len() {
        assert(tokens.take(j) =~= tokens);
    } else {
        assert(tokens.drop_last().take(j) =~= tokens.take(j));
        lemma_replay_error_persists(tokens.drop_last(), j);
    }
}

/// Replays the movetext `pgn_string` from the starting setup and writes the
/// final position string, with the side to move after the last ply. Fails
/// with `MalformedPly(i)` when token `i` has no recognised shape and
/// `UnresolvableOrigin(i)` when no piece can have made ply `i`.
pub fn pgn_to_fen(pgn_string: &str) -> (r: Result<String, NotationError>)
    ensures
        match decoded(pgn_string@) {
            Ok(t) => r matches Ok(s) && s@ == t,
            Err(e) => r == Err::<String, NotationError>(e),
        },
{
    let chars = chars_of(pgn_string);
    let plys = split_words(&chars);
    let ghost toks = words(pgn_string@);
    let mut board = Position::initial();
    let mut turn = PieceColor::White;
    let mut i: usize = 0;
    assert(toks.take(0) =~= Seq::<Seq<char>>::empty());
    while i < plys.len()
        invariant
            board.wf(),
            i <= plys@.len(),
            toks == words(pgn_string@),
            views(plys@) == toks,
            replayed(toks.take(i as int)) == Ok::<(BoardState, PieceColor), NotationError>((board@, turn)),
        decreases plys@.len() - i,
    {
        assert(toks.take(i + 1).drop_last() =~= toks.take(i as int));
        assert(toks.take(i + 1).last() == plys@[i as int]@);
        let token = strip_check(&plys[i]);
        let ply = match parse_ply(&token) {
            Some(p) => p,
            None => {
                proof {
                    lemma_replay_error_persists(toks, i + 1);
                }
                return Err(NotationError::MalformedPly(i));
            },
        };
        match play_ply(&mut board, turn, ply, i) {
            Ok(()) => {},
            Err(e) => {
                proof {
                    lemma_replay_error_persists(toks, i + 1);
                }
                return Err(e);
            },
        }
        turn = other_side(turn);
        i = i + 1;
    }
    assert(toks.take(i as int) =~= toks);
    Ok(board.to_fen(turn))
}

} // verus!

verus! {

/// A pawn ply that names a promotion ("f1=Q") leaves a piece of the named
/// kind, of the side that played it, on its destination.
pub proof fn lemma_promotion_places_kind(b: BoardState, side: PieceColor, t: Seq<char>, index: int)
    requires
        b.wf(),
        ply_of(t) matches Some(Ply::PawnMove { promotion: Some(k), .. }),
        played(b, side, ply_of(t)->Some_0, index) is Ok,
    ensures
        ply_of(t) matches Some(Ply::PawnMove { to, promotion: Some(k), .. }) && played(b, side, ply_of(t)->Some_0, index)->Ok_0.at(
            to.0 as int,
            to.1 as int,
        ) == Some(crate::position::Piece { kind: k, color: side }),
{
    if let Some(Ply::PawnMove { to, file, promotion }) = ply_of(t) {
        lemma_origin_holds_piece(b, to, PieceKind::Pawn, side, (None, file));
    }
}

} // verus!
