//! The position string: eight '/'-separated rank segments (digits count empty
//! squares, letters are pieces, upper case White), then side to move,
//! castling rights, en-passant square and two counters.

use vstd::prelude::*;
use crate::error::NotationError;
use crate::position::{
    file_char, file_letter, rank_char, rank_digit, BoardState, Piece, PieceColor, PieceKind,
    Position, Square,
};
use crate::text::{
    chars_of, is_word, lemma_single_word, lemma_words_concat, lemma_words_shape, slash_parts, split_at_char,
    split_words, string_of, views, words,
};

verus! {

/// The piece a letter stands for: upper case White, lower case Black.
pub open spec fn piece_of_letter(c: char) -> Option<Piece> {
    let w = PieceColor::White;
    let b = PieceColor::Black;
    if c == 'P' {
        Some(Piece { kind: PieceKind::Pawn, color: w })
    } else if c == 'N' {
        Some(Piece { kind: PieceKind::Knight, color: w })
    } else if c == 'B' {
        Some(Piece { kind: PieceKind::Bishop, color: w })
    } else if c == 'R' {
        Some(Piece { kind: PieceKind::Rook, color: w })
    } else if c == 'Q' {
        Some(Piece { kind: PieceKind::Queen, color: w })
    } else if c == 'K' {
        Some(Piece { kind: PieceKind::King, color: w })
    } else if c == 'p' {
        Some(Piece { kind: PieceKind::Pawn, color: b })
    } else if c == 'n' {
        Some(Piece { kind: PieceKind::Knight, color: b })
    } else if c == 'b' {
        Some(Piece { kind: PieceKind::Bishop, color: b })
    } else if c == 'r' {
        Some(Piece { kind: PieceKind::Rook, color: b })
    } else if c == 'q' {
        Some(Piece { kind: PieceKind::Queen, color: b })
    } else if c == 'k' {
        Some(Piece { kind: PieceKind::King, color: b })
    } else {
        None
    }
}

/// The upper-case letter of a kind.
pub open spec fn kind_char(k: PieceKind) -> char {
    match k {
        PieceKind::Pawn => 'P',
        PieceKind::Knight => 'N',
        PieceKind::Bishop => 'B',
        PieceKind::Rook => 'R',
        PieceKind::Queen => 'Q',
        PieceKind::King => 'K',
    }
}

/// The letter of a piece: its kind's letter, in lower case for Black.
pub open spec fn letter_of(p: Piece) -> char {
    match p.color {
        PieceColor::White => kind_char(p.kind),
        PieceColor::Black => (kind_char(p.kind) as int + 32) as char,
    }
}

/// A digit that counts empty squares.
pub open spec fn is_count(c: char) -> bool {
    '1' <= c <= '8'
}

/// The squares one character of a rank segment stands for.
pub open spec fn cells_of_char(c: char) -> Seq<Option<Piece>> {
    if is_count(c) {
        Seq::new((c as int - 48) as nat, |i: int| None)
    } else {
        seq![piece_of_letter(c)]
    }
}

/// The squares a rank segment stands for, from file 0.
pub open spec fn expand(seg: Seq<char>) -> Seq<Option<Piece>>
    decreases seg.len(),
{
    if seg.len() == 0 {
        seq![]
    } else {
        cells_of_char(seg[0]) + expand(seg.drop_first())
    }
}

/// Every character of `seg` is a count or a piece letter.
pub open spec fn known_chars(seg: Seq<char>) -> bool {
    forall|i: int| 0 <= i < seg.len() ==> is_count(#[trigger] seg[i]) || piece_of_letter(seg[i]) is Some
}

/// A rank segment: known characters that stand for exactly eight squares.
pub open spec fn valid_row(seg: Seq<char>) -> bool {
    known_chars(seg) && expand(seg).len() == 8
}

/// The 64 cells that eight rank segments stand for; the first segment is rank 7.
pub open spec fn cells_of_rows(parts: Seq<Seq<char>>) -> Seq<Option<Piece>> {
    Seq::new(64, |i: int| expand(parts[7 - i / 8])[i % 8])
}

/// The side named by a side-to-move field.
pub open spec fn side_of(t: Seq<char>) -> Option<PieceColor> {
    if t == seq!['w'] {
        Some(PieceColor::White)
    } else if t == seq!['b'] {
        Some(PieceColor::Black)
    } else {
        None
    }
}

/// The square named by a file letter and a rank digit, as in "e3".
pub open spec fn square_of(t: Seq<char>) -> Option<Square> {
    if t.len() == 2 && 'a' <= t[0] <= 'h' && '1' <= t[1] <= '8' {
        Some(((t[1] as int - 49) as usize, (t[0] as int - 97) as usize))
    } else {
        None
    }
}

/// A castling-rights field: "-", or letters among K, Q, k and q.
pub open spec fn castling_ok(t: Seq<char>) -> bool {
    t == seq!['-'] || forall|i: int|
        0 <= i < t.len() ==> (#[trigger] t[i] == 'K' || t[i] == 'Q' || t[i] == 'k' || t[i] == 'q')
}

/// A counter field: decimal digits only.
pub open spec fn counter_ok(t: Seq<char>) -> bool {
    forall|i: int| 0 <= i < t.len() ==> '0' <= #[trigger] t[i] <= '9'
}

/// What a position string stands for: the board with its en-passant target,
/// and the side to move; or `MalformedPosition` when it does not have six
/// fields, eight valid rank segments, a side of "w" or "b", castling rights
/// of "-" or letters among KQkq, an en-passant field of "-" or a square, and
/// two counters of digits.
pub open spec fn parsed(s: Seq<char>) -> Result<(BoardState, PieceColor), NotationError> {
    let w = words(s);
    if w.len() != 6 {
        Err(NotationError::MalformedPosition)
    } else {
        let parts = slash_parts(w[0]);
        if parts.len() != 8 || !(forall|i: int| 0 <= i < 8 ==> valid_row(#[trigger] parts[i])) {
            Err(NotationError::MalformedPosition)
        } else if side_of(w[1]) is None {
            Err(NotationError::MalformedPosition)
        } else if w[3] != seq!['-'] && square_of(w[3]) is None {
            Err(NotationError::MalformedPosition)
        } else if !castling_ok(w[2]) || !counter_ok(w[4]) || !counter_ok(w[5]) {
            Err(NotationError::MalformedPosition)
        } else {
            Ok((BoardState { cells: cells_of_rows(parts), ep: square_of(w[3]) }, side_of(w[1])->Some_0))
        }
    }
}

/// The digit for a run of `n` empty squares; nothing for no run.
pub open spec fn run_text(n: nat) -> Seq<char> {
    if n == 0 {
        seq![]
    } else {
        seq![(n + 48) as char]
    }
}

/// The segment for `row`, after a run of `run` empty squares already passed.
pub open spec fn row_text(row: Seq<Option<Piece>>, run: nat) -> Seq<char>
    decreases row.len(),
{
    if row.len() == 0 {
        run_text(run)
    } else {
        match row[0] {
            None => row_text(row.drop_first(), run + 1),
            Some(p) => run_text(run) + seq![letter_of(p)] + row_text(row.drop_first(), 0),
        }
    }
}

/// The cells of rank `r`, from file 0.
pub open spec fn rank_cells(b: BoardState, r: int) -> Seq<Option<Piece>> {
    b.cells.subrange(8 * r, 8 * r + 8)
}

/// The segments of the board, rank 7 first.
pub open spec fn rank_texts(b: BoardState) -> Seq<Seq<char>> {
    Seq::new(8, |i: int| row_text(rank_cells(b, 7 - i), 0))
}

/// The parts joined with '/' between them.
pub open spec fn join_slash(parts: Seq<Seq<char>>) -> Seq<char>
    decreases parts.len(),
{
    if parts.len() == 0 {
        seq![]
    } else if parts.len() == 1 {
        parts[0]
    } else {
        join_slash(parts.drop_last()) + seq!['/'] + parts.last()
    }
}

/// The board field of a position string.
pub open spec fn board_text(b: BoardState) -> Seq<char> {
    join_slash(rank_texts(b))
}

/// The side-to-move field.
pub open spec fn side_text(c: PieceColor) -> Seq<char> {
    match c {
        PieceColor::White => seq!['w'],
        PieceColor::Black => seq!['b'],
    }
}

/// The en-passant field: "-", or the target square.
pub open spec fn ep_text(ep: Option<Square>) -> Seq<char> {
    match ep {
        None => seq!['-'],
        Some(t) => seq![file_char(t.1 as int), rank_char(t.0 as int)],
    }
}

/// The position string of `b` with `side` to move. Castling rights are not
/// kept, so that field is always "KQkq"; the counters are always "0 1".
pub open spec fn position_text(b: BoardState, side: PieceColor) -> Seq<char> {
    board_text(b) + seq![' '] + side_text(side) + seq![' ', 'K', 'Q', 'k', 'q', ' '] + ep_text(b.ep) + seq![
        ' ',
        '0',
        ' ',
        '1',
    ]
}

/// Returns the piece that letter `c` stands for.
pub fn piece_from_letter(c: char) -> (p: Option<Piece>)
    ensures
        p == piece_of_letter(c),
{
    let w = PieceColor::White;
    let b = PieceColor::Black;
    match c {
        'P' => Some(Piece { kind: PieceKind::Pawn, color: w }),
        'N' => Some(Piece { kind: PieceKind::Knight, color: w }),
        'B' => Some(Piece { kind: PieceKind::Bishop, color: w }),
        'R' => Some(Piece { kind: PieceKind::Rook, color: w }),
        'Q' => Some(Piece { kind: PieceKind::Queen, color: w }),
        'K' => Some(Piece { kind: PieceKind::King, color: w }),
        'p' => Some(Piece { kind: PieceKind::Pawn, color: b }),
        'n' => Some(Piece { kind: PieceKind::Knight, color: b }),
        'b' => Some(Piece { kind: PieceKind::Bishop, color: b }),
        'r' => Some(Piece { kind: PieceKind::Rook, color: b }),
        'q' => Some(Piece { kind: PieceKind::Queen, color: b }),
        'k' => Some(Piece { kind: PieceKind::King, color: b }),
        _ => None,
    }
}

/// Returns the upper-case letter of kind `k`.
pub fn kind_letter(k: PieceKind) -> (c: char)
    ensures
        c == kind_char(k),
{
    match k {
        PieceKind::Pawn => 'P',
        PieceKind::Knight => 'N',
        PieceKind::Bishop => 'B',
        PieceKind::Rook => 'R',
        PieceKind::Queen => 'Q',
        PieceKind::King => 'K',
    }
}

/// Returns the letter of piece `p`, lower case for Black.
pub fn piece_letter(p: Piece) -> (c: char)
    ensures
        c == letter_of(p),
{
    match p.color {
        PieceColor::White => kind_letter(p.kind),
        PieceColor::Black => match p.kind {
            PieceKind::Pawn => 'p',
            PieceKind::Knight => 'n',
            PieceKind::Bishop => 'b',
            PieceKind::Rook => 'r',
            PieceKind::Queen => 'q',
            PieceKind::King => 'k',
        },
    }
}

/// Returns the squares of a rank segment, or `None` if it holds a character
/// that is neither a count nor a piece letter.
fn expand_row(seg: &Vec<char>) -> (r: Option<Vec<Option<Piece>>>)
    ensures
        r is Some <==> known_chars(seg@),
        r matches Some(v) ==> v@ == expand(seg@),
{
    let mut v: Vec<Option<Piece>> = Vec::new();
    let mut i: usize = 0;
    assert(seg@.skip(0) =~= seg@);
    while i < seg.len()
        invariant
            i <= seg@.len(),
            forall|j: int| 0 <= j < i ==> is_count(#[trigger] seg@[j]) || piece_of_letter(seg@[j]) is Some,
            v@ + expand(seg@.skip(i as int)) == expand(seg@),
        decreases seg@.len() - i,
    {
        let c = seg[i];
        let ghost before = v@;
        assert(seg@.skip(i as int).drop_first() =~= seg@.skip(i + 1));
        assert(seg@.skip(i as int)[0] == c);
        if '1' <= c && c <= '8' {
            let n = (c as u32) - 48;
            let mut k: u32 = 0;
            while k < n
                invariant
                    k <= n,
                    n == c as int - 48,
                    v@ == before + Seq::new(k as nat, |j: int| None::<Piece>),
                decreases n - k,
            {
                v.push(None);
                assert(before + Seq::new((k + 1) as nat, |j: int| None::<Piece>) =~= before + Seq::new(
                    k as nat,
                    |j: int| None::<Piece>,
                ).push(None));
                k = k + 1;
            }
        } else {
            match piece_from_letter(c) {
                Some(p) => {
                    v.push(Some(p));
                },
                None => {
                    return None;
                },
            }
        }
        assert(v@ =~= before + cells_of_char(c));
        assert(before + expand(seg@.skip(i as int)) =~= v@ + expand(seg@.skip(i + 1)));
        i = i + 1;
    }
    assert(expand(seg@.skip(i as int)) =~= Seq::<Option<Piece>>::empty());
    assert(v@ + Seq::<Option<Piece>>::empty() =~= v@);
    Some(v)
}

} // verus!

verus! {

/// Returns whether `t` is a castling-rights field.
fn castling_field_ok(t: &Vec<char>) -> (r: bool)
    ensures
        r == castling_ok(t@),
{
    if t.len() == 1 && t[0] == '-' {
        assert(t@ =~= seq!['-']);
        return true;
    }
    assert(t@ != seq!['-']) by {
        if t@ == seq!['-'] {
            assert(t@.len() == 1 && t@[0] == '-');
        }
    }
    let mut i: usize = 0;
    while i < t.len()
        invariant
            i <= t@.len(),
            t@ != seq!['-'],
            forall|j: int| 0 <= j < i ==> (#[trigger] t@[j] == 'K' || t@[j] == 'Q' || t@[j] == 'k' || t@[j] == 'q'),
        decreases t@.len() - i,
    {
        let c = t[i];
        if !(c == 'K' || c == 'Q' || c == 'k' || c == 'q') {
            assert(!(t@[i as int] == 'K' || t@[i as int] == 'Q' || t@[i as int] == 'k' || t@[i as int] == 'q'));
            return false;
        }
        i = i + 1;
    }
    true
}

/// Returns whether `t` holds decimal digits only.
fn counter_field_ok(t: &Vec<char>) -> (r: bool)
    ensures
        r == counter_ok(t@),
{
    let mut i: usize = 0;
    while i < t.len()
        invariant
            i <= t@.len(),
            forall|j: int| 0 <= j < i ==> '0' <= #[trigger] t@[j] <= '9',
        decreases t@.len() - i,
    {
        if !('0' <= t[i] && t[i] <= '9') {
            return false;
        }
        i = i + 1;
    }
    true
}

/// Reads a position string: the board, its en-passant target and the side to
/// move, or `MalformedPosition` when the string is not of that shape.
pub fn parse_fen(fen: &str) -> (r: Result<(Position, PieceColor), NotationError>)
    ensures
        match parsed(fen@) {
            Ok((b, side)) => r matches Ok((p, c)) && p@ == b && c == side && p.wf(),
            Err(e) => r == Err::<(Position, PieceColor), NotationError>(e),
        },
{
    let chars = chars_of(fen);
    let fields = split_words(&chars);
    let ghost w = words(fen@);
    if fields.len() != 6 {
        return Err(NotationError::MalformedPosition);
    }
    assert(fields@[0]@ == w[0]);
    let parts = split_at_char(&fields[0], '/');
    let ghost ps = slash_parts(w[0]);
    if parts.len() != 8 {
        return Err(NotationError::MalformedPosition);
    }
    let mut rows: Vec<Vec<Option<Piece>>> = Vec::new();
    let mut i: usize = 0;
    while i < 8
        invariant
            i <= 8,
            w == words(fen@),
            w.len() == 6,
            ps == slash_parts(w[0]),
            ps.len() == 8,
            views(parts@) == ps,
            rows@.len() == i,
            forall|k: int| 0 <= k < i ==> valid_row(#[trigger] ps[k]),
            forall|k: int| 0 <= k < i ==> (#[trigger] rows@[k])@ == expand(ps[k]),
        decreases 8 - i,
    {
        assert(parts@[i as int]@ == ps[i as int]);
        match expand_row(&parts[i]) {
            Some(row) => {
                if row.len() != 8 {
                    assert(!valid_row(ps[i as int]));
                    return Err(NotationError::MalformedPosition);
                }
                rows.push(row);
            },
            None => {
                assert(!valid_row(ps[i as int]));
                return Err(NotationError::MalformedPosition);
            },
        }
        i = i + 1;
    }
    let mut squares: Vec<Option<Piece>> = Vec::new();
    let mut r: usize = 0;
    while r < 8
        invariant
            r <= 8,
            rows@.len() == 8,
            forall|k: int| 0 <= k < 8 ==> (#[trigger] rows@[k])@ == expand(ps[k]),
            forall|k: int| 0 <= k < 8 ==> (#[trigger] expand(ps[k])).len() == 8,
            squares@.len() == 8 * r,
            forall|j: int| 0 <= j < squares@.len() ==> squares@[j] == expand(ps[7 - j / 8])[j % 8],
        decreases 8 - r,
    {
        let mut f: usize = 0;
        while f < 8
            invariant
                r < 8,
                f <= 8,
                rows@.len() == 8,
                forall|k: int| 0 <= k < 8 ==> (#[trigger] rows@[k])@ == expand(ps[k]),
                forall|k: int| 0 <= k < 8 ==> (#[trigger] expand(ps[k])).len() == 8,
                squares@.len() == 8 * r + f,
                forall|j: int| 0 <= j < squares@.len() ==> squares@[j] == expand(ps[7 - j / 8])[j % 8],
            decreases 8 - f,
        {
            assert((8 * r + f) / 8 == r && (8 * r + f) % 8 == f);
            assert(rows@[7 - r as int]@ == expand(ps[7 - r as int]));
            squares.push(rows[7 - r][f]);
            f = f + 1;
        }
        r = r + 1;
    }
    assert(squares@ =~= cells_of_rows(ps));
    assert(fields@[1]@ == w[1]);
    assert(fields@[3]@ == w[3]);
    let side_field = &fields[1];
    let side = if side_field.len() == 1 && side_field[0] == 'w' {
        assert(w[1] =~= seq!['w']);
        PieceColor::White
    } else if side_field.len() == 1 && side_field[0] == 'b' {
        assert(w[1] =~= seq!['b']);
        PieceColor::Black
    } else {
        assert(side_of(w[1]) is None) by {
            if w[1] == seq!['w'] || w[1] == seq!['b'] {
                assert(w[1].len() == 1);
            }
        }
        return Err(NotationError::MalformedPosition);
    };
    let ep_field = &fields[3];
    let target: Option<Square> = if ep_field.len() == 1 && ep_field[0] == '-' {
        assert(w[3] =~= seq!['-']);
        None
    } else if ep_field.len() == 2 && 'a' <= ep_field[0] && ep_field[0] <= 'h' && '1' <= ep_field[1]
        && ep_field[1] <= '8' {
        Some((((ep_field[1] as u32) - 49) as usize, (((ep_field[0] as u32) - 97) as usize)))
    } else {
        assert(w[3] != seq!['-']) by {
            if w[3] == seq!['-'] {
                assert(w[3].len() == 1);
            }
        }
        return Err(NotationError::MalformedPosition);
    };
    assert(fields@[2]@ == w[2] && fields@[4]@ == w[4] && fields@[5]@ == w[5]);
    if !castling_field_ok(&fields[2]) || !counter_field_ok(&fields[4]) || !counter_field_ok(&fields[5]) {
        return Err(NotationError::MalformedPosition);
    }
    let p = Position { squares, en_passant_target: target };
    Ok((p, side))
}

impl Position {
    /// Returns the segment of rank `r`.
    fn rank_text(&self, r: usize) -> (t: Vec<char>)
        requires
            self.wf(),
            r < 8,
        ensures
            t@ == row_text(rank_cells(self@, r as int), 0),
    {
        let ghost row = rank_cells(self@, r as int);
        let mut t: Vec<char> = Vec::new();
        let mut run: usize = 0;
        let mut f: usize = 0;
        assert(row.skip(0) =~= row);
        while f < 8
            invariant
                self.wf(),
                r < 8,
                f <= 8,
                run <= f,
                row == rank_cells(self@, r as int),
                t@ + row_text(row.skip(f as int), run as nat) == row_text(row, 0),
            decreases 8 - f,
        {
            let content = self.piece_at(r, f);
            assert(row.skip(f as int).drop_first() =~= row.skip(f + 1));
            assert(row.skip(f as int)[0] == content);
            match content {
                None => {
                    run = run + 1;
                },
                Some(p) => {
                    let ghost before = t@;
                    if run > 0 {
                        t.push(((run as u8) + 48u8) as char);
                    }
                    t.push(piece_letter(p));
                    assert(t@ =~= before + run_text(run as nat) + seq![letter_of(p)]);
                    assert(before + (run_text(run as nat) + seq![letter_of(p)] + row_text(row.skip(f + 1), 0))
                        =~= t@ + row_text(row.skip(f + 1), 0));
                    run = 0;
                },
            }
            f = f + 1;
        }
        let ghost before = t@;
        if run > 0 {
            t.push(((run as u8) + 48u8) as char);
        }
        assert(row.skip(8) =~= Seq::<Option<Piece>>::empty());
        assert(t@ =~= before + run_text(run as nat));
        t
    }

    /// Writes the position string of this position with `color` to move.
    pub fn to_fen(&self, color: PieceColor) -> (s: String)
        requires
            self.wf(),
        ensures
            s@ == position_text(self@, color),
    {
        let ghost texts = rank_texts(self@);
        let mut out: Vec<char> = Vec::new();
        let mut i: usize = 0;
        while i < 8
            invariant
                self.wf(),
                i <= 8,
                texts == rank_texts(self@),
                out@ == join_slash(texts.take(i as int)),
            decreases 8 - i,
        {
            let row = self.rank_text(7 - i);
            assert(texts.take(i + 1).drop_last() =~= texts.take(i as int));
            if i > 0 {
                out.push('/');
            }
            let ghost before = out@;
            crate::text::push_all(&mut out, &row);
            assert(i == 0 ==> texts.take(1) =~= seq![texts[0]]);
            assert(i > 0 ==> out@ =~= before + row@);
            i = i + 1;
        }
        assert(texts.take(8) =~= texts);
        let ghost board = out@;
        out.push(' ');
        match color {
            PieceColor::White => out.push('w'),
            PieceColor::Black => out.push('b'),
        }
        out.push(' ');
        out.push('K');
        out.push('Q');
        out.push('k');
        out.push('q');
        out.push(' ');
        match self.en_passant_target {
            None => out.push('-'),
            Some(t) => {
                out.push(file_letter(t.1));
                out.push(rank_digit(t.0));
            },
        }
        out.push(' ');
        out.push('0');
        out.push(' ');
        out.push('1');
        assert(out@ =~= position_text(self@, color));
        string_of(&out)
    }
}

} // verus!

verus! {

/// No two counts stand side by side in `seg`: each run of empty squares is
/// written as one digit.
pub open spec fn canonical_row(seg: Seq<char>) -> bool {
    forall|i: int| 0 <= i < seg.len() - 1 ==> !(is_count(#[trigger] seg[i]) && is_count(seg[i + 1]))
}

proof fn lemma_letter_round_trip(c: char)
    requires
        piece_of_letter(c) is Some,
    ensures
        letter_of(piece_of_letter(c)->Some_0) == c,
{
}

proof fn lemma_row_text_skips_empty(k: nat, x: Seq<Option<Piece>>, run: nat)
    ensures
        row_text(Seq::new(k, |i: int| None::<Piece>) + x, run) == row_text(x, run + k),
    decreases k,
{
    let e = Seq::new(k, |i: int| None::<Piece>);
    if k > 0 {
        let e1 = Seq::new((k - 1) as nat, |i: int| None::<Piece>);
        assert((e + x).drop_first() =~= e1 + x);
        assert((e + x)[0] is None);
        lemma_row_text_skips_empty((k - 1) as nat, x, run + 1);
    } else {
        assert(e + x =~= x);
    }
}

proof fn lemma_row_text_of_expand(seg: Seq<char>, run: nat)
    requires
        known_chars(seg),
        canonical_row(seg),
        run <= 8,
        run == 0 || seg.len() == 0 || !is_count(seg[0]),
    ensures
        row_text(expand(seg), run) == run_text(run) + seg,
    decreases seg.len(),
{
    if seg.len() == 0 {
        assert(run_text(run) + seg =~= run_text(run));
    } else {
        let c = seg[0];
        let rest = seg.drop_first();
        assert(known_chars(rest)) by {
            assert forall|i: int| 0 <= i < rest.len() implies is_count(#[trigger] rest[i]) || piece_of_letter(
                rest[i],
            ) is Some by {
                assert(rest[i] == seg[i + 1]);
            }
        }
        assert(canonical_row(rest)) by {
            assert forall|i: int| 0 <= i < rest.len() - 1 implies !(is_count(#[trigger] rest[i]) && is_count(
                rest[i + 1],
            )) by {
                assert(rest[i] == seg[i + 1] && rest[i + 1] == seg[i + 2]);
            }
        }
        if is_count(c) {
            let n = (c as int - 48) as nat;
            lemma_row_text_skips_empty(n, expand(rest), 0);
            if rest.len() > 0 {
                assert(rest[0] == seg[1]);
            }
            lemma_row_text_of_expand(rest, n);
            assert(run_text(n) =~= seq![c]);
            assert(run_text(0) + seg =~= seq![c] + rest);
        } else {
            let p = piece_of_letter(c)->Some_0;
            lemma_letter_round_trip(c);
            assert(expand(seg) == seq![Some(p)] + expand(rest));
            assert((seq![Some(p)] + expand(rest)).drop_first() =~= expand(rest));
            lemma_row_text_of_expand(rest, 0);
            assert(run_text(0) + rest =~= rest);
            assert(run_text(run) + seq![letter_of(p)] + rest =~= run_text(run) + seg);
        }
    }
}

proof fn lemma_join_of_parts(s: Seq<char>)
    ensures
        slash_parts(s).len() >= 1,
        join_slash(slash_parts(s)) == s,
    decreases s.len(),
{
    if s.len() == 0 {
        assert(join_slash(slash_parts(s)) =~= s);
    } else {
        let init = s.drop_last();
        let c = s.last();
        lemma_join_of_parts(init);
        let w = slash_parts(init);
        if c == '/' {
            let parts = w.push(seq![]);
            assert(parts.drop_last() =~= w);
            assert(join_slash(parts) =~= s);
        } else {
            let parts = w.update(w.len() - 1, w.last().push(c));
            if w.len() == 1 {
                assert(join_slash(parts) =~= s);
            } else {
                assert(parts.drop_last() =~= w.drop_last());
                assert(join_slash(w) == join_slash(w.drop_last()) + seq!['/'] + w.last());
                assert(parts.last() == w.last().push(c));
                assert(join_slash(parts) == join_slash(w.drop_last()) + seq!['/'] + parts.last());
                assert(s =~= init.push(c));
                assert(join_slash(parts) =~= s);
            }
        }
    }
}

} // verus!

verus! {

/// Reading a position string and writing it back gives the same board,
/// side-to-move and en-passant fields, provided each rank segment writes a
/// run of empty squares as a single digit. Castling rights and counters are
/// not kept, so those fields are left out.
pub proof fn lemma_round_trip(s: Seq<char>)
    requires
        parsed(s) is Ok,
        forall|i: int| 0 <= i < 8 ==> canonical_row(#[trigger] slash_parts(words(s)[0])[i]),
    ensures
        ({
            let (b, side) = parsed(s)->Ok_0;
            let out = words(position_text(b, side));
            &&& out.len() == 6
            &&& out[0] == words(s)[0]
            &&& out[1] == words(s)[1]
            &&& out[3] == words(s)[3]
        }),
{
    let w = words(s);
    let parts = slash_parts(w[0]);
    let (b, side) = parsed(s)->Ok_0;
    assert forall|r: int| 0 <= r < 8 implies rank_cells(b, r) =~= expand(parts[7 - r]) by {
        assert(valid_row(parts[7 - r]));
        assert forall|j: int| 0 <= j < 8 implies #[trigger] rank_cells(b, r)[j] == expand(parts[7 - r])[j] by {
            assert((8 * r + j) / 8 == r && (8 * r + j) % 8 == j);
        }
    }
    assert forall|i: int| 0 <= i < 8 implies #[trigger] rank_texts(b)[i] == parts[i] by {
        assert(valid_row(parts[i]));
        assert(rank_cells(b, 7 - i) == expand(parts[i]));
        lemma_row_text_of_expand(parts[i], 0);
        assert(run_text(0) + parts[i] =~= parts[i]);
    }
    assert(rank_texts(b) =~= parts);
    lemma_join_of_parts(w[0]);
    assert(board_text(b) == w[0]);
    assert(side_text(side) == w[1]);
    if w[3] == seq!['-'] {
        assert(ep_text(b.ep) == w[3]);
    } else {
        assert(ep_text(b.ep) =~= w[3]);
    }
    lemma_words_shape(s);
    let a = w[0];
    let bt = w[1];
    let k = seq!['K', 'Q', 'k', 'q'];
    let e = w[3];
    let z = seq!['0'];
    let o = seq!['1'];
    assert(is_word(a) && is_word(bt) && is_word(e));
    assert(is_word(k) && is_word(z) && is_word(o));
    let t4 = z + seq![' '] + o;
    let t3 = e + seq![' '] + t4;
    let t2 = k + seq![' '] + t3;
    let t1 = bt + seq![' '] + t2;
    let t0 = a + seq![' '] + t1;
    assert(position_text(b, side) =~= t0);
    lemma_single_word(a);
    lemma_single_word(bt);
    lemma_single_word(k);
    lemma_single_word(e);
    lemma_single_word(z);
    lemma_single_word(o);
    lemma_words_concat(z, o);
    lemma_words_concat(e, t4);
    lemma_words_concat(k, t3);
    lemma_words_concat(bt, t2);
    lemma_words_concat(a, t1);
    assert(words(t0) =~= seq![a, bt, k, e, z, o]);
}

} // verus!
