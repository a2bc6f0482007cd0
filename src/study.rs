//! Reading the chapter ids out of a study's PGN export: each chapter has a
//! `[Site "https://lichess.org/study/<study>/<chapter>"]` header.

use vstd::prelude::*;
use crate::encoder::string_views;
use crate::text::{chars_of, split_at_char, split_on, string_of, views};

verus! {

/// The line without a trailing carriage return.
pub open spec fn trimmed_line(l: Seq<char>) -> Seq<char> {
    if l.len() > 0 && l.last() == '\r' {
        l.drop_last()
    } else {
        l
    }
}

/// The start of a site header line.
pub open spec fn site_prefix() -> Seq<char> {
    seq!['[', 'S', 'i', 't', 'e', ' ']
}

/// The end of a header line: a quote and a closing bracket.
pub open spec fn header_end() -> Seq<char> {
    seq!['"', ']']
}

/// The chapter id of a site header line: the part after its last '/', less
/// the closing quote and bracket; `None` for any other line.
pub open spec fn site_id(line: Seq<char>) -> Option<Seq<char>> {
    let l = trimmed_line(line);
    let last = split_on(l, '/').last();
    if l.len() >= 6 && l.take(6) == site_prefix() && last.len() >= 2 && last.skip(last.len() - 2) == header_end() {
        Some(last.take(last.len() - 2))
    } else {
        None
    }
}

/// The chapter ids of the lines, in order.
pub open spec fn site_ids(lines: Seq<Seq<char>>) -> Seq<Seq<char>>
    decreases lines.len(),
{
    if lines.len() == 0 {
        seq![]
    } else {
        let rest = site_ids(lines.drop_last());
        match site_id(lines.last()) {
            Some(id) => rest.push(id),
            None => rest,
        }
    }
}

/// Whether `v` starts with `p`.
fn starts_with(v: &Vec<char>, p: &Vec<char>) -> (r: bool)
    ensures
        r == (v@.len() >= p@.len() && v@.take(p@.len() as int) == p@),
{
    if v.len() < p.len() {
        return false;
    }
    let mut i: usize = 0;
    while i < p.len()
        invariant
            i <= p@.len(),
            p@.len() <= v@.len(),
            forall|j: int| 0 <= j < i ==> v@[j] == p@[j],
        decreases p@.len() - i,
    {
        if v[i] != p[i] {
            assert(v@.take(p@.len() as int)[i as int] != p@[i as int]);
            return false;
        }
        i = i + 1;
    }
    assert(v@.take(p@.len() as int) =~= p@);
    true
}

/// Returns the chapter id of one line of the export, if it is a site header.
fn line_site_id(line: &Vec<char>) -> (r: Option<Vec<char>>)
    ensures
        match site_id(line@) {
            Some(id) => r matches Some(v) && v@ == id,
            None => r is None,
        },
{
    let mut l: Vec<char> = Vec::new();
    let mut n = line.len();
    if n > 0 && line[n - 1] == '\r' {
        n = n - 1;
    }
    let mut i: usize = 0;
    while i < n
        invariant
            n <= line@.len(),
            i <= n,
            l@ == line@.take(i as int),
        decreases n - i,
    {
        l.push(line[i]);
        assert(line@.take(i as int).push(line@[i as int]) =~= line@.take(i + 1));
        i = i + 1;
    }
    assert(l@ =~= trimmed_line(line@));
    let prefix: Vec<char> = vec!['[', 'S', 'i', 't', 'e', ' '];
    assert(prefix@ =~= site_prefix());
    let parts = split_at_char(&l, '/');
    proof {
        crate::text::lemma_split_nonempty(l@, '/');
    }
    let last = &parts[parts.len() - 1];
    assert(last@ == split_on(l@, '/').last());
    let m = last.len();
    if !starts_with(&l, &prefix) || m < 2 || last[m - 2] != '"' || last[m - 1] != ']' {
        assert(site_id(line@) is None) by {
            if m >= 2 && last@.skip(m - 2) == header_end() {
                assert(last@.skip(m - 2)[0] == last@[m - 2]);
                assert(last@.skip(m - 2)[1] == last@[m - 1]);
            }
        }
        return None;
    }
    assert(last@.skip(m - 2) =~= header_end());
    let mut id: Vec<char> = Vec::new();
    let mut k: usize = 0;
    while k < m - 2
        invariant
            m == last@.len(),
            m >= 2,
            k <= m - 2,
            id@ == last@.take(k as int),
        decreases m - 2 - k,
    {
        id.push(last[k]);
        assert(last@.take(k as int).push(last@[k as int]) =~= last@.take(k + 1));
        k = k + 1;
    }
    Some(id)
}

/// Returns the chapter ids named by the site headers of a study export, in
/// order.
pub fn chapter_ids(body: &str) -> (ids: Vec<String>)
    ensures
        string_views(ids@) == site_ids(split_on(body@, '\n')),
{
    let chars = chars_of(body);
    let lines = split_at_char(&chars, '\n');
    let ghost ls = split_on(body@, '\n');
    let mut ids: Vec<String> = Vec::new();
    let mut i: usize = 0;
    while i < lines.len()
        invariant
            i <= lines@.len(),
            views(lines@) == ls,
            string_views(ids@) == site_ids(ls.take(i as int)),
        decreases lines@.len() - i,
    {
        assert(ls.take(i + 1).drop_last() =~= ls.take(i as int));
        assert(ls.take(i + 1).last() == lines@[i as int]@);
        match line_site_id(&lines[i]) {
            Some(v) => {
                let s = string_of(&v);
                let ghost before = ids@;
                ids.push(s);
                assert(string_views(ids@) =~= string_views(before).push(s@));
            },
            None => {},
        }
        i = i + 1;
    }
    assert(ls.take(i as int) =~= ls);
    ids
}

} // verus!
