//! Puzzle records and the study chapter text built from them: headers, a
//! side-to-move comment, the numbered solution tokens with their comments,
//! and an information comment on the last move.

use vstd::prelude::*;
use crate::codec::side_of;
use crate::encoder::{encoded_game, fen_to_pgn, string_views};
use crate::error::NotationError;
use crate::format::{decimal, join_with, push_decimal, push_signed, push_str, signed_decimal};
use crate::position::PieceColor;
use crate::text::{chars_of, push_all, split_words, string_of, views, words};

verus! {

/// A training puzzle: its id, rating, solution in coordinate moves, themes,
/// starting position string, and whether it was imported by id.
#[derive(Clone, Debug)]
pub struct Puzzle {
    pub id: String,
    pub rating: i32,
    pub solution: Vec<String>,
    pub themes: Vec<String>,
    pub fen: String,
    pub imported_directly: Option<bool>,
}

/// One entry of a user's puzzle history.
#[derive(Clone, Debug)]
pub struct PuzzleAttempt {
    pub win: bool,
    pub puzzle: Puzzle,
    pub date: i64,
}

/// A puzzle fetched by id, with the game it comes from.
#[derive(Clone, Debug)]
pub struct DirectPuzzleData {
    pub game: DirectPuzzleGameData,
    pub puzzle: DirectPuzzle,
}

/// The puzzle part of a puzzle fetched by id.
#[derive(Clone, Debug)]
pub struct DirectPuzzle {
    pub rating: i32,
    pub solution: Vec<String>,
    pub themes: Vec<String>,
}

/// The game part of a puzzle fetched by id: its movetext up to the puzzle.
#[derive(Clone, Debug)]
pub struct DirectPuzzleGameData {
    pub pgn: String,
}

/// An ASCII capital letter.
pub open spec fn is_upper(c: char) -> bool {
    'A' <= c <= 'Z'
}

/// An ASCII small letter.
pub open spec fn is_lower(c: char) -> bool {
    'a' <= c <= 'z'
}

/// `c` in upper case, for an ASCII letter.
pub open spec fn upper(c: char) -> char {
    if is_lower(c) {
        (c as int - 32) as char
    } else {
        c
    }
}

/// `c` in lower case, for an ASCII letter.
pub open spec fn lower(c: char) -> char {
    if is_upper(c) {
        (c as int + 32) as char
    } else {
        c
    }
}

/// A theme name made readable: first letter upper case, the rest lower case,
/// and a space before each capital that follows a small letter
/// ("mateIn2" reads "Mate in2").
pub open spec fn theme_text(s: Seq<char>) -> Seq<char>
    decreases s.len(),
{
    if s.len() == 0 {
        seq![]
    } else if s.len() == 1 {
        seq![upper(s[0])]
    } else {
        let c = s.last();
        theme_text(s.drop_last()) + (if is_upper(c) && is_lower(s[s.len() - 2]) {
            seq![' ']
        } else {
            seq![]
        }) + seq![lower(c)]
    }
}

/// The readable themes, separated by ", ".
pub open spec fn themes_text(themes: Seq<Seq<char>>) -> Seq<char> {
    join_with(themes.map_values(|t: Seq<char>| theme_text(t)), ", "@)
}

/// The comment that closes a puzzle: its link and source, rating and themes.
pub open spec fn info_text(p: Puzzle) -> Seq<char> {
    "https://lichess.org/training/"@ + p.id@ + " "@ + (if p.imported_directly == Some(true) {
        "(from ID)"@
    } else {
        "(from puzzle history)"@
    }) + "\nRating - "@ + signed_decimal(p.rating as int) + "\nThemes - "@ + themes_text(
        string_views(p.themes@),
    )
}

/// The headers of chapter `num` for the position string `fen`.
pub open spec fn headers_text(num: nat, fen: Seq<char>) -> Seq<char> {
    "[Event \"Puzzle "@ + decimal(num) + "\"]\n[Result \"*\"]\n[Variant \"From Position\"]\n[ECO \"?\"]\n[Opening \"?\"]\n[FEN \""@
        + fen + "\"]\n[SetUp \"1\"]\n[ChapterMode \"gamebook\"]"@
}

/// The note on the move that set the en-passant field `ep`, as
/// "(Last move: e4)\n"; nothing when the field is "-".
pub open spec fn last_move_text(ep: Seq<char>) -> Seq<char> {
    if ep == seq!['-'] {
        seq![]
    } else {
        "(Last move: "@ + seq![ep[0], if ep[1] == '3' { '4' } else { '5' }] + ")\n"@
    }
}

/// The text of solution token `i`, `mv`, when White (`white`) or Black is to
/// move first; `last` marks the final token, which carries `info`.
pub open spec fn move_text(white: bool, i: nat, mv: Seq<char>, last: bool, info: Seq<char>) -> Seq<char> {
    let number = if white {
        decimal(i / 2 + 1)
    } else {
        decimal((i + 1) / 2 + 1)
    };
    let player = if white {
        i % 2 == 0
    } else {
        i % 2 == 1
    };
    if last {
        if white {
            number + "."@ + " "@ + mv + " { "@ + info + " } "@
        } else {
            number + "..."@ + " "@ + mv + " { "@ + info + " } *"@
        }
    } else if player {
        number + "."@ + " "@ + mv + (if white {
            " { Correct } "@
        } else {
            " { Black to move } "@
        })
    } else {
        number + "..."@ + " "@ + mv + (if white {
            " { White to move } "@
        } else {
            " { Correct } "@
        })
    }
}

/// The texts of the tokens, in order; token `count - 1` is the last.
pub open spec fn moves_text(white: bool, tokens: Seq<Seq<char>>, count: int, info: Seq<char>) -> Seq<char>
    decreases tokens.len(),
{
    if tokens.len() == 0 {
        seq![]
    } else {
        let i = (tokens.len() - 1) as nat;
        moves_text(white, tokens.drop_last(), count, info) + move_text(white, i, tokens.last(), i == count - 1, info)
    }
}

/// The chapter text of puzzle `p` as chapter `num`, given its solution tokens.
pub open spec fn chapter_text(p: Puzzle, num: nat, tokens: Seq<Seq<char>>) -> Seq<char> {
    let w = words(p.fen@);
    let white = side_of(w[1]) == Some(PieceColor::White);
    headers_text(num, p.fen@) + "\n\n"@ + (if white {
        "{ White to move \n"@
    } else {
        "{ Black to move \n"@
    }) + last_move_text(w[3]) + "}\n"@ + moves_text(white, tokens, p.solution@.len() as int, info_text(p))
}

} // verus!

verus! {

/// Returns `c` in upper case, for an ASCII letter.
fn ascii_upper(c: char) -> (r: char)
    ensures
        r == upper(c),
{
    if 'a' <= c && c <= 'z' {
        (((c as u32) - 32) as u8) as char
    } else {
        c
    }
}

/// Returns `c` in lower case, for an ASCII letter.
fn ascii_lower(c: char) -> (r: char)
    ensures
        r == lower(c),
{
    if 'A' <= c && c <= 'Z' {
        (((c as u32) + 32) as u8) as char
    } else {
        c
    }
}

/// Returns a copy of every string of `v`.
fn copy_strings(v: &Vec<String>) -> (r: Vec<String>)
    ensures
        string_views(r@) == string_views(v@),
        r@.len() == v@.len(),
{
    let mut r: Vec<String> = Vec::new();
    let mut i: usize = 0;
    while i < v.len()
        invariant
            i <= v@.len(),
            r@.len() == i,
            forall|j: int| 0 <= j < i ==> (#[trigger] r@[j])@ == v@[j]@,
        decreases v@.len() - i,
    {
        r.push(v[i].clone());
        i = i + 1;
    }
    assert(string_views(r@) =~= string_views(v@));
    r
}

/// Returns the readable form of theme name `s`.
fn format_theme(s: &str) -> (r: Vec<char>)
    ensures
        r@ == theme_text(s@),
{
    let c = chars_of(s);
    let mut out: Vec<char> = Vec::new();
    let mut i: usize = 0;
    while i < c.len()
        invariant
            i <= c@.len(),
            c@ == s@,
            out@ == theme_text(c@.take(i as int)),
        decreases c@.len() - i,
    {
        let ghost t = c@.take(i + 1);
        assert(t.drop_last() =~= c@.take(i as int));
        assert(t.last() == c@[i as int]);
        if i == 0 {
            assert(t =~= seq![c@[0]]);
            out.push(ascii_upper(c[0]));
            assert(out@ =~= seq![upper(c@[0])]);
        } else {
            assert(t[t.len() - 2] == c@[i - 1]);
            let ghost before = out@;
            let ch = c[i];
            if 'A' <= ch && ch <= 'Z' && 'a' <= c[i - 1] && c[i - 1] <= 'z' {
                out.push(' ');
            }
            out.push(ascii_lower(ch));
            assert(out@ =~= before + (if is_upper(ch) && is_lower(c@[i - 1]) {
                seq![' ']
            } else {
                seq![]
            }) + seq![lower(ch)]);
        }
        i = i + 1;
    }
    assert(c@.take(c@.len() as int) =~= c@);
    out
}

impl Puzzle {
    /// Returns the themes in readable form, separated by ", ".
    pub fn formatted_themes(&self) -> (r: String)
        ensures
            r@ == themes_text(string_views(self.themes@)),
    {
        let ghost parts = string_views(self.themes@).map_values(|t: Seq<char>| theme_text(t));
        let mut out: Vec<char> = Vec::new();
        let mut i: usize = 0;
        while i < self.themes.len()
            invariant
                i <= self.themes@.len(),
                parts == string_views(self.themes@).map_values(|t: Seq<char>| theme_text(t)),
                out@ == join_with(parts.take(i as int), ", "@),
            decreases self.themes@.len() - i,
        {
            assert(parts.take(i + 1).drop_last() =~= parts.take(i as int));
            assert(parts.take(i + 1).last() == theme_text(self.themes@[i as int]@));
            let ghost before = out@;
            if i > 0 {
                push_str(&mut out, ", ");
            }
            let t = format_theme(self.themes[i].as_str());
            push_all(&mut out, &t);
            assert(i == 0 ==> parts.take(1) =~= seq![parts[0]]);
            assert(i == 0 ==> out@ =~= t@);
            i = i + 1;
        }
        assert(parts.take(i as int) =~= parts);
        string_of(&out)
    }

    /// Returns the comment for the last move: the puzzle's link and source,
    /// its rating and its themes.
    pub fn info_comment(&self) -> (s: String)
        ensures
            s@ == info_text(*self),
    {
        let mut out: Vec<char> = Vec::new();
        push_str(&mut out, "https://lichess.org/training/");
        push_str(&mut out, self.id.as_str());
        push_str(&mut out, " ");
        if self.imported_directly == Some(true) {
            push_str(&mut out, "(from ID)");
        } else {
            push_str(&mut out, "(from puzzle history)");
        }
        push_str(&mut out, "\nRating - ");
        push_signed(&mut out, self.rating as i64);
        push_str(&mut out, "\nThemes - ");
        let themes = self.formatted_themes();
        push_str(&mut out, themes.as_str());
        assert(out@ =~= info_text(*self));
        string_of(&out)
    }
}

} // verus!

verus! {

/// Appends the text of solution token `i`, `mv`, to `out`.
fn push_move(out: &mut Vec<char>, white: bool, i: usize, mv: &str, last: bool, info: &Vec<char>)
    requires
        i < u64::MAX,
    ensures
        final(out)@ == old(out)@ + move_text(white, i as nat, mv@, last, info@),
{
    let number: u64 = if white {
        (i as u64) / 2 + 1
    } else {
        ((i as u64) + 1) / 2 + 1
    };
    let player = if white {
        i % 2 == 0
    } else {
        i % 2 == 1
    };
    push_decimal(out, number);
    if last {
        if white {
            push_str(out, ".");
            push_str(out, " ");
            push_str(out, mv);
            push_str(out, " { ");
            push_all(out, info);
            push_str(out, " } ");
        } else {
            push_str(out, "...");
            push_str(out, " ");
            push_str(out, mv);
            push_str(out, " { ");
            push_all(out, info);
            push_str(out, " } *");
        }
    } else if player {
        push_str(out, ".");
        push_str(out, " ");
        push_str(out, mv);
        if white {
            push_str(out, " { Correct } ");
        } else {
            push_str(out, " { Black to move } ");
        }
    } else {
        push_str(out, "...");
        push_str(out, " ");
        push_str(out, mv);
        if white {
            push_str(out, " { White to move } ");
        } else {
            push_str(out, " { Correct } ");
        }
    }
    assert(final(out)@ =~= old(out)@ + move_text(white, i as nat, mv@, last, info@));
}

impl Puzzle {
    /// Returns the chapter text of this puzzle as chapter `puzzle_num`: the
    /// headers, the side-to-move comment (with the last move when the
    /// position has an en-passant square), and the solution tokens with
    /// their comments. Fails as `fen_to_pgn` fails on the position string and
    /// the solution.
    pub fn build_pgn(&self, puzzle_num: usize) -> (r: Result<String, NotationError>)
        ensures
            match encoded_game(self.fen@, string_views(self.solution@)) {
                Ok(tokens) => r matches Ok(s) && s@ == chapter_text(*self, puzzle_num as nat, tokens),
                Err(e) => r == Err::<String, NotationError>(e),
            },
    {
        let moves = copy_strings(&self.solution);
        let pgn_moves = match fen_to_pgn(self.fen.as_str(), moves) {
            Ok(v) => v,
            Err(e) => {
                return Err(e);
            },
        };
        let ghost tokens = string_views(pgn_moves@);
        let chars = chars_of(self.fen.as_str());
        let fields = split_words(&chars);
        let ghost w = words(self.fen@);
        assert(fields@.len() == 6 && views(fields@) == w);
        assert(fields@[1]@ == w[1] && fields@[3]@ == w[3]);
        let mut out: Vec<char> = Vec::new();
        push_str(
            &mut out,
            "[Event \"Puzzle ",
        );
        push_decimal(&mut out, puzzle_num as u64);
        push_str(
            &mut out,
            "\"]\n[Result \"*\"]\n[Variant \"From Position\"]\n[ECO \"?\"]\n[Opening \"?\"]\n[FEN \"",
        );
        push_str(&mut out, self.fen.as_str());
        push_str(&mut out, "\"]\n[SetUp \"1\"]\n[ChapterMode \"gamebook\"]");
        push_str(&mut out, "\n\n");
        let side = &fields[1];
        let white = side.len() == 1 && side[0] == 'w';
        assert(white == (side_of(w[1]) == Some(PieceColor::White))) by {
            if side_of(w[1]) == Some(PieceColor::White) {
                assert(w[1] == seq!['w']);
            }
            if white {
                assert(w[1] =~= seq!['w']);
            }
        }
        if white {
            push_str(&mut out, "{ White to move \n");
        } else {
            push_str(&mut out, "{ Black to move \n");
        }
        let ep = &fields[3];
        if ep.len() == 1 && ep[0] == '-' {
            assert(w[3] =~= seq!['-']);
        } else {
            assert(w[3] != seq!['-']) by {
                if w[3] == seq!['-'] {
                    assert(w[3].len() == 1);
                }
            }
            push_str(&mut out, "(Last move: ");
            out.push(ep[0]);
            out.push(if ep[1] == '3' { '4' } else { '5' });
            push_str(&mut out, ")\n");
        }
        push_str(&mut out, "}\n");
        let ghost head = out@;
        assert(head =~= headers_text(puzzle_num as nat, self.fen@) + "\n\n"@ + (if white {
            "{ White to move \n"@
        } else {
            "{ Black to move \n"@
        }) + last_move_text(w[3]) + "}\n"@);
        let info_string = self.info_comment();
        let info = chars_of(info_string.as_str());
        let count = self.solution.len();
        let mut i: usize = 0;
        while i < pgn_moves.len()
            invariant
                i <= pgn_moves@.len(),
                pgn_moves@.len() == count,
                count == self.solution@.len(),
                tokens == string_views(pgn_moves@),
                info@ == info_text(*self),
                out@ == head + moves_text(white, tokens.take(i as int), count as int, info@),
            decreases pgn_moves@.len() - i,
        {
            assert(tokens.take(i + 1).drop_last() =~= tokens.take(i as int));
            assert(tokens.take(i + 1).last() == pgn_moves@[i as int]@);
            let ghost before = out@;
            push_move(&mut out, white, i, pgn_moves[i].as_str(), i + 1 == count, &info);
            assert(out@ =~= head + moves_text(white, tokens.take(i + 1), count as int, info@));
            i = i + 1;
        }
        assert(tokens.take(i as int) =~= tokens);
        assert(out@ =~= chapter_text(*self, puzzle_num as nat, tokens));
        Ok(string_of(&out))
    }
}

/// The chapter texts of `puzzles`, numbered from `first`, separated by blank
/// lines; or the first puzzle's error.
pub open spec fn chapters(puzzles: Seq<Puzzle>, first: nat) -> Result<Seq<Seq<char>>, NotationError>
    decreases puzzles.len(),
{
    if puzzles.len() == 0 {
        Ok(seq![])
    } else {
        let p = puzzles.last();
        match chapters(puzzles.drop_last(), first) {
            Err(e) => Err(e),
            Ok(texts) => match encoded_game(p.fen@, string_views(p.solution@)) {
                Err(e) => Err(e),
                Ok(tokens) => Ok(texts.push(chapter_text(p, (first + puzzles.len() - 1) as nat, tokens))),
            },
        }
    }
}

proof fn lemma_chapters_error_persists(puzzles: Seq<Puzzle>, first: nat, j: int)
    requires
        0 <= j <= puzzles.len(),
        chapters(puzzles.take(j), first) is Err,
    ensures
        chapters(puzzles, first) == chapters(puzzles.take(j), first),
    decreases puzzles.len(),
{
    if j == puzzles.len() {
        assert(puzzles.take(j) =~= puzzles);
    } else {
        assert(puzzles.drop_last().take(j) =~= puzzles.take(j));
        lemma_chapters_error_persists(puzzles.drop_last(), first, j);
    }
}

/// Returns the chapter texts of `puzzles` joined by blank lines, numbered
/// from 2 when `offset_index` holds and from 1 otherwise.
pub fn concatenate_pgn(puzzles: &Vec<Puzzle>, offset_index: bool) -> (r: Result<String, NotationError>)
    requires
        puzzles@.len() < usize::MAX - 2,
    ensures
        match chapters(puzzles@, if offset_index { 2 } else { 1 }) {
            Ok(texts) => r matches Ok(s) && s@ == join_with(texts, "\n\n"@),
            Err(e) => r == Err::<String, NotationError>(e),
        },
{
    let offset: usize = if offset_index { 2 } else { 1 };
    let ghost texts_so_far: Seq<Seq<char>> = seq![];
    let mut out: Vec<char> = Vec::new();
    let mut i: usize = 0;
    assert(puzzles@.take(0) =~= Seq::<Puzzle>::empty());
    while i < puzzles.len()
        invariant
            i <= puzzles@.len(),
            puzzles@.len() < usize::MAX - 2,
            offset == (if offset_index { 2usize } else { 1usize }),
            chapters(puzzles@.take(i as int), offset as nat) == Ok::<Seq<Seq<char>>, NotationError>(texts_so_far),
            out@ == join_with(texts_so_far, "\n\n"@),
            texts_so_far.len() == i,
        decreases puzzles@.len() - i,
    {
        assert(puzzles@.take(i + 1).drop_last() =~= puzzles@.take(i as int));
        assert(puzzles@.take(i + 1).last() == puzzles@[i as int]);
        match puzzles[i].build_pgn(i + offset) {
            Ok(text) => {
                if i > 0 {
                    push_str(&mut out, "\n\n");
                }
                let t = chars_of(text.as_str());
                push_all(&mut out, &t);
                proof {
                    let next = texts_so_far.push(t@);
                    assert(next.drop_last() =~= texts_so_far);
                    assert(i == 0 ==> texts_so_far.push(t@) =~= seq![t@]);
                    texts_so_far = next;
                }
            },
            Err(e) => {
                proof {
                    lemma_chapters_error_persists(puzzles@, offset as nat, i + 1);
                }
                return Err(e);
            },
        }
        i = i + 1;
    }
    assert(puzzles@.take(i as int) =~= puzzles@);
    Ok(string_of(&out))
}

} // verus!

verus! {

impl Puzzle {
    /// The puzzle fetched by id `id`: its position is the end of the game's
    /// movetext, and it is marked as imported by id. Fails as `pgn_to_fen`
    /// fails on that movetext.
    pub fn from_direct(id: String, data: DirectPuzzleData) -> (r: Result<Puzzle, NotationError>)
        ensures
            match crate::decoder::decoded(data.game.pgn@) {
                Ok(t) => r matches Ok(p) && p.id == id && p.rating == data.puzzle.rating && p.solution
                    == data.puzzle.solution && p.themes == data.puzzle.themes && p.fen@ == t
                    && p.imported_directly == Some(true),
                Err(e) => r == Err::<Puzzle, NotationError>(e),
            },
    {
        let fen = match crate::decoder::pgn_to_fen(data.game.pgn.as_str()) {
            Ok(f) => f,
            Err(e) => {
                return Err(e);
            },
        };
        Ok(
            Puzzle {
                id,
                rating: data.puzzle.rating,
                solution: data.puzzle.solution,
                themes: data.puzzle.themes,
                fen,
                imported_directly: Some(true),
            },
        )
    }
}

/// The attempts that were lost and whose puzzle is not in `ignore`, as
/// puzzles marked as coming from the history.
pub open spec fn missed(attempts: Seq<PuzzleAttempt>, ignore: Seq<Seq<char>>) -> Seq<Puzzle>
    decreases attempts.len(),
{
    if attempts.len() == 0 {
        seq![]
    } else {
        let a = attempts.last();
        let rest = missed(attempts.drop_last(), ignore);
        if !a.win && !ignore.contains(a.puzzle.id@) {
            rest.push(Puzzle { imported_directly: None, ..a.puzzle })
        } else {
            rest
        }
    }
}

/// The date of the last attempt that `missed` keeps; 0 when it keeps none.
pub open spec fn last_missed_date(attempts: Seq<PuzzleAttempt>, ignore: Seq<Seq<char>>) -> i64
    decreases attempts.len(),
{
    if attempts.len() == 0 {
        0
    } else {
        let a = attempts.last();
        if !a.win && !ignore.contains(a.puzzle.id@) {
            a.date
        } else {
            last_missed_date(attempts.drop_last(), ignore)
        }
    }
}

/// The number of lost attempts whose puzzle is in `ignore`.
pub open spec fn missed_duplicates(attempts: Seq<PuzzleAttempt>, ignore: Seq<Seq<char>>) -> nat
    decreases attempts.len(),
{
    if attempts.len() == 0 {
        0
    } else {
        let a = attempts.last();
        missed_duplicates(attempts.drop_last(), ignore) + if !a.win && ignore.contains(a.puzzle.id@) {
            1nat
        } else {
            0nat
        }
    }
}

/// Returns whether `id` is one of `ids`.
pub fn contains_id(ids: &Vec<String>, id: &String) -> (r: bool)
    ensures
        r == string_views(ids@).contains(id@),
{
    let mut i: usize = 0;
    while i < ids.len()
        invariant
            i <= ids@.len(),
            forall|j: int| 0 <= j < i ==> ids@[j]@ != id@,
        decreases ids@.len() - i,
    {
        if ids[i] == *id {
            assert(string_views(ids@)[i as int] == id@);
            return true;
        }
        i = i + 1;
    }
    assert(!string_views(ids@).contains(id@)) by {
        if string_views(ids@).contains(id@) {
            let k = choose|k: int| 0 <= k < string_views(ids@).len() && string_views(ids@)[k] == id@;
            assert(ids@[k]@ == id@);
        }
    }
    false
}

/// Picks the lost attempts of one page of puzzle history whose puzzle is not
/// in `ignore`; returns them, the date of the last one kept (0 if none), and
/// how many lost attempts were skipped as already present.
pub fn select_incorrect(attempts: Vec<PuzzleAttempt>, ignore: &Vec<String>) -> (r: (Vec<Puzzle>, i64, usize))
    ensures
        r.0@ == missed(attempts@, string_views(ignore@)),
        r.1 == last_missed_date(attempts@, string_views(ignore@)),
        r.2 == missed_duplicates(attempts@, string_views(ignore@)),
{
    let ghost all = attempts@;
    let ghost ig = string_views(ignore@);
    let n = attempts.len();
    let mut rest = attempts;
    let mut kept: Vec<Puzzle> = Vec::new();
    let mut last_date: i64 = 0;
    let mut duplicates: usize = 0;
    let mut k: usize = 0;
    while rest.len() > 0
        invariant
            k <= all.len(),
            all.len() == n,
            rest@ == all.skip(k as int),
            ig == string_views(ignore@),
            kept@ == missed(all.take(k as int), ig),
            last_date == last_missed_date(all.take(k as int), ig),
            duplicates == missed_duplicates(all.take(k as int), ig),
            duplicates <= k,
        decreases rest@.len(),
    {
        let a = rest.remove(0);
        assert(a == all[k as int]);
        assert(all.take(k + 1).drop_last() =~= all.take(k as int));
        assert(all.take(k + 1).last() == a);
        assert(rest@ =~= all.skip(k + 1));
        if !a.win {
            if contains_id(ignore, &a.puzzle.id) {
                duplicates = duplicates + 1;
            } else {
                last_date = a.date;
                let mut p = a.puzzle;
                p.imported_directly = None;
                kept.push(p);
            }
        }
        k = k + 1;
    }
    assert(all.take(k as int) =~= all);
    (kept, last_date, duplicates)
}

/// The ids of `ids` that are neither in `ignore` nor repeat an earlier id
/// kept, in order.
pub open spec fn fresh_ids(ids: Seq<Seq<char>>, ignore: Seq<Seq<char>>) -> Seq<Seq<char>>
    decreases ids.len(),
{
    if ids.len() == 0 {
        seq![]
    } else {
        let rest = fresh_ids(ids.drop_last(), ignore);
        let id = ids.last();
        if !ignore.contains(id) && !rest.contains(id) {
            rest.push(id)
        } else {
            rest
        }
    }
}

/// Splits `ids` into those to fetch, as `fresh_ids` says, and the number of
/// duplicates skipped.
pub fn ids_to_fetch(ids: &Vec<String>, ignore: &Vec<String>) -> (r: (Vec<String>, usize))
    ensures
        string_views(r.0@) == fresh_ids(string_views(ids@), string_views(ignore@)),
        r.0@.len() + r.1 == ids@.len(),
{
    let ghost all = string_views(ids@);
    let ghost ig = string_views(ignore@);
    let mut kept: Vec<String> = Vec::new();
    let mut duplicates: usize = 0;
    let mut i: usize = 0;
    while i < ids.len()
        invariant
            i <= ids@.len(),
            all == string_views(ids@),
            ig == string_views(ignore@),
            string_views(kept@) == fresh_ids(all.take(i as int), ig),
            kept@.len() + duplicates == i,
        decreases ids@.len() - i,
    {
        assert(all.take(i + 1).drop_last() =~= all.take(i as int));
        assert(all.take(i + 1).last() == ids@[i as int]@);
        let id = &ids[i];
        if !contains_id(ignore, id) && !contains_id(&kept, id) {
            let ghost before = kept@;
            kept.push(id.clone());
            assert(string_views(kept@) =~= string_views(before).push(id@));
        } else {
            duplicates = duplicates + 1;
        }
        i = i + 1;
    }
    assert(all.take(i as int) =~= all);
    (kept, duplicates)
}

} // verus!
