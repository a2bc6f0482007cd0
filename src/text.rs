//! Character-level helpers: reading strings as characters, building strings,
//! and splitting text into words and into '/'-separated parts.

use vstd::prelude::*;
use vstd::string::StrSliceExecFns;

verus! {

/// Relies on `String::push`: the character is appended at the end.
pub assume_specification[ String::push ](s: &mut String, ch: char)
    ensures
        final(s)@ == old(s)@.push(ch),
;

/// Returns the characters of `s`.
pub fn chars_of(s: &str) -> (v: Vec<char>)
    ensures
        v@ == s@,
{
    let n = s.unicode_len();
    let mut v: Vec<char> = Vec::new();
    let mut i: usize = 0;
    while i < n
        invariant
            n == s@.len(),
            i <= n,
            v@ == s@.take(i as int),
        decreases n - i,
    {
        let c = s.get_char(i);
        v.push(c);
        assert(s@.take(i as int).push(c) =~= s@.take(i + 1));
        i = i + 1;
    }
    assert(s@.take(n as int) =~= s@);
    v
}

/// Returns the string made of the characters `v`.
pub fn string_of(v: &Vec<char>) -> (s: String)
    ensures
        s@ == v@,
{
    let mut s = String::new();
    let mut i: usize = 0;
    while i < v.len()
        invariant
            i <= v@.len(),
            s@ == v@.take(i as int),
        decreases v@.len() - i,
    {
        s.push(v[i]);
        assert(v@.take(i as int).push(v@[i as int]) =~= v@.take(i + 1));
        i = i + 1;
    }
    assert(v@.take(v@.len() as int) =~= v@);
    s
}

/// Appends the characters of `t` to `out`.
pub fn push_all(out: &mut Vec<char>, t: &Vec<char>)
    ensures
        final(out)@ == old(out)@ + t@,
{
    let mut i: usize = 0;
    while i < t.len()
        invariant
            i <= t@.len(),
            out@ == old(out)@ + t@.take(i as int),
        decreases t@.len() - i,
    {
        out.push(t[i]);
        assert(old(out)@ + t@.take(i as int) + seq![t@[i as int]] =~= old(out)@ + t@.take(i + 1));
        i = i + 1;
    }
    assert(t@.take(t@.len() as int) =~= t@);
}

/// The characters that separate words.
pub open spec fn is_blank(c: char) -> bool {
    c == ' ' || c == '\t' || c == '\n' || c == '\r'
}

/// The maximal runs of non-blank characters of `s`, in order.
pub open spec fn words(s: Seq<char>) -> Seq<Seq<char>>
    decreases s.len(),
{
    if s.len() == 0 {
        seq![]
    } else {
        let w = words(s.drop_last());
        let c = s.last();
        if is_blank(c) {
            w
        } else if s.len() > 1 && !is_blank(s[s.len() - 2]) && w.len() > 0 {
            w.update(w.len() - 1, w.last().push(c))
        } else {
            w.push(seq![c])
        }
    }
}

/// The parts of `s` between `sep` characters, empty parts included.
pub open spec fn split_on(s: Seq<char>, sep: char) -> Seq<Seq<char>>
    decreases s.len(),
{
    if s.len() == 0 {
        seq![seq![]]
    } else {
        let w = split_on(s.drop_last(), sep);
        let c = s.last();
        if c == sep {
            w.push(seq![])
        } else if w.len() > 0 {
            w.update(w.len() - 1, w.last().push(c))
        } else {
            seq![seq![c]]
        }
    }
}

/// The parts of `s` between '/' characters, empty parts included.
pub open spec fn slash_parts(s: Seq<char>) -> Seq<Seq<char>> {
    split_on(s, '/')
}

/// The views of a sequence of character vectors.
pub open spec fn views(v: Seq<Vec<char>>) -> Seq<Seq<char>> {
    v.map_values(|w: Vec<char>| w@)
}

proof fn lemma_views_push(v: Seq<Vec<char>>, w: Vec<char>)
    ensures
        views(v.push(w)) == views(v).push(w@),
{
    assert(views(v.push(w)) =~= views(v).push(w@));
}

/// Returns the words of `s`: its maximal runs of non-blank characters.
pub fn split_words(s: &Vec<char>) -> (r: Vec<Vec<char>>)
    ensures
        views(r@) == words(s@),
{
    let mut out: Vec<Vec<char>> = Vec::new();
    let mut cur: Vec<char> = Vec::new();
    let mut i: usize = 0;
    while i < s.len()
        invariant
            i <= s@.len(),
            words(s@.take(i as int)) == (if cur@.len() > 0 {
                views(out@).push(cur@)
            } else {
                views(out@)
            }),
            cur@.len() > 0 <==> (i > 0 && !is_blank(s@[i - 1])),
        decreases s@.len() - i,
    {
        let c = s[i];
        let ghost before = s@.take(i as int);
        let ghost vo = views(out@);
        assert(s@.take(i + 1).drop_last() =~= before);
        assert(s@.take(i + 1).last() == c);
        assert(i > 0 ==> s@.take(i + 1)[i - 1] == s@[i - 1]);
        if c == ' ' || c == '\t' || c == '\n' || c == '\r' {
            assert(words(s@.take(i + 1)) == words(before));
            if cur.len() > 0 {
                proof {
                    lemma_views_push(out@, cur);
                }
                out.push(cur);
                cur = Vec::new();
            }
        } else {
            assert(cur@.len() > 0 ==> words(s@.take(i + 1)) == words(before).update(
                words(before).len() - 1,
                words(before).last().push(c),
            ));
            assert(cur@.len() == 0 ==> words(s@.take(i + 1)) == words(before).push(seq![c]));
            let ghost prev = cur@;
            cur.push(c);
            assert(vo.push(prev).update(vo.len() as int, prev.push(c)) =~= vo.push(cur@));
            assert(prev.len() == 0 ==> seq![c] =~= cur@);
        }
        i = i + 1;
    }
    if cur.len() > 0 {
        proof {
            lemma_views_push(out@, cur);
        }
        out.push(cur);
    }
    assert(s@.take(s@.len() as int) =~= s@);
    out
}

/// Returns the parts of `s` between `sep` characters.
pub fn split_at_char(s: &Vec<char>, sep: char) -> (r: Vec<Vec<char>>)
    ensures
        views(r@) == split_on(s@, sep),
{
    let mut out: Vec<Vec<char>> = Vec::new();
    let mut cur: Vec<char> = Vec::new();
    let mut i: usize = 0;
    while i < s.len()
        invariant
            i <= s@.len(),
            split_on(s@.take(i as int), sep) == views(out@).push(cur@),
        decreases s@.len() - i,
    {
        let c = s[i];
        assert(s@.take(i + 1).drop_last() =~= s@.take(i as int));
        if c == sep {
            proof {
                lemma_views_push(out@, cur);
            }
            out.push(cur);
            cur = Vec::new();
        } else {
            cur.push(c);
        }
        i = i + 1;
    }
    proof {
        lemma_views_push(out@, cur);
    }
    out.push(cur);
    assert(s@.take(s@.len() as int) =~= s@);
    out
}

} // verus!

verus! {

/// A non-empty text that ends in a non-blank character has a word.
proof fn lemma_words_nonempty(s: Seq<char>)
    requires
        s.len() > 0,
        !is_blank(s.last()),
    ensures
        words(s).len() > 0,
{
}

/// A non-empty run of characters none of which is blank.
pub open spec fn is_word(t: Seq<char>) -> bool {
    t.len() > 0 && forall|j: int| 0 <= j < t.len() ==> !is_blank(#[trigger] t[j])
}

/// Every word is non-empty and holds no blank.
pub proof fn lemma_words_shape(s: Seq<char>)
    ensures
        forall|k: int| 0 <= k < words(s).len() ==> is_word(#[trigger] words(s)[k]),
    decreases s.len(),
{
    if s.len() > 0 {
        let w = words(s.drop_last());
        let c = s.last();
        lemma_words_shape(s.drop_last());
        if !is_blank(c) {
            if s.len() > 1 && !is_blank(s[s.len() - 2]) && w.len() > 0 {
                let u = w.last().push(c);
                assert(is_word(w[w.len() - 1]));
                assert(is_word(u)) by {
                    assert forall|j: int| 0 <= j < u.len() implies !is_blank(#[trigger] u[j]) by {
                        if j < u.len() - 1 {
                            assert(u[j] == w.last()[j]);
                        }
                    }
                }
                assert forall|k: int| 0 <= k < words(s).len() implies is_word(#[trigger] words(s)[k]) by {
                    if k < w.len() - 1 {
                        assert(words(s)[k] == w[k]);
                    }
                }
            } else {
                assert(is_word(seq![c]));
                assert forall|k: int| 0 <= k < words(s).len() implies is_word(#[trigger] words(s)[k]) by {
                    if k < w.len() {
                        assert(words(s)[k] == w[k]);
                    }
                }
            }
        }
    }
}

/// A non-empty run of non-blank characters is one word.
pub proof fn lemma_single_word(a: Seq<char>)
    requires
        is_word(a),
    ensures
        words(a) == seq![a],
    decreases a.len(),
{
    let init = a.drop_last();
    if a.len() == 1 {
        assert(init =~= Seq::<char>::empty());
        assert(words(init) =~= Seq::<Seq<char>>::empty());
        assert(seq![a.last()] =~= a);
        assert(words(a) =~= seq![a]);
    } else {
        assert(is_word(init)) by {
            assert forall|j: int| 0 <= j < init.len() implies !is_blank(#[trigger] init[j]) by {
                assert(init[j] == a[j]);
            }
        }
        lemma_single_word(init);
        assert(!is_blank(a[a.len() - 2]));
        assert(!is_blank(a.last()));
        assert(init.push(a.last()) =~= a);
        assert(words(a) =~= seq![a]);
    }
}

/// Text joined by a blank splits into the words of each side.
pub proof fn lemma_words_concat(x: Seq<char>, y: Seq<char>)
    ensures
        words(x + seq![' '] + y) == words(x) + words(y),
    decreases y.len(),
{
    let s = x + seq![' '] + y;
    if y.len() == 0 {
        assert(s.drop_last() =~= x);
        assert(words(x) + words(y) =~= words(x));
    } else {
        let y1 = y.drop_last();
        let c = y.last();
        assert(s.drop_last() =~= x + seq![' '] + y1);
        lemma_words_concat(x, y1);
        let w = words(x + seq![' '] + y1);
        assert(s.last() == c);
        if is_blank(c) {
        } else if y.len() == 1 {
            assert(s[s.len() - 2] == ' ');
            assert(y1 =~= Seq::<char>::empty());
            assert(words(y) =~= seq![seq![c]]) by {
                assert(y.drop_last() =~= y1);
            }
            assert(words(s) =~= words(x) + words(y));
        } else {
            assert(s[s.len() - 2] == y[y.len() - 2]);
            assert(y1.last() == y[y.len() - 2]);
            if !is_blank(y[y.len() - 2]) {
                lemma_words_nonempty(y1);
                assert(words(y) == words(y1).update(words(y1).len() - 1, words(y1).last().push(c)));
                assert(words(s) =~= words(x) + words(y));
            } else {
                assert(words(y) == words(y1).push(seq![c]));
                assert(words(s) =~= words(x) + words(y));
            }
        }
    }
}

} // verus!

verus! {

/// Splitting always gives at least one part.
pub proof fn lemma_split_nonempty(s: Seq<char>, sep: char)
    ensures
        split_on(s, sep).len() >= 1,
    decreases s.len(),
{
    if s.len() > 0 {
        lemma_split_nonempty(s.drop_last(), sep);
    }
}

} // verus!
