//! Reading playlist text: its lines, the entries among them, and how many
//! there are.
use vstd::prelude::*;
use crate::text::{chars_of, string_of, trim, trim_chars, views, lemma_views_push};

verus! {

pub open spec fn strip_cr(l: Seq<char>) -> Seq<char> {
    if l.len() > 0 && l.last() == '\r' {
        l.drop_last()
    } else {
        l
    }
}

/// Splits `s` at '\n', `cur` being the line read so far and `acc` the lines
/// before it; a line ended by '\n' loses one trailing '\r'.
pub open spec fn split_lines(s: Seq<char>, cur: Seq<char>, acc: Seq<Seq<char>>) -> Seq<
    Seq<char>,
>
    decreases s.len(),
{
    if s.len() == 0 {
        if cur.len() > 0 {
            acc.push(cur)
        } else {
            acc
        }
    } else if s[0] == '\n' {
        split_lines(s.drop_first(), Seq::empty(), acc.push(strip_cr(cur)))
    } else {
        split_lines(s.drop_first(), cur.push(s[0]), acc)
    }
}

/// The lines of `s`, as `str::lines` yields them.
pub open spec fn lines_of(s: Seq<char>) -> Seq<Seq<char>> {
    split_lines(s, Seq::empty(), Seq::empty())
}

pub fn split_lines_of(s: &Vec<char>) -> (r: Vec<Vec<char>>)
    ensures
        views(r@) == lines_of(s@),
{
    let mut acc: Vec<Vec<char>> = Vec::new();
    let mut cur: Vec<char> = Vec::new();
    let mut i: usize = 0;
    let n = s.len();
    assert(s@.subrange(0, n as int) =~= s@);
    assert(views(acc@) =~= Seq::<Seq<char>>::empty());
    assert(cur@ =~= Seq::<char>::empty());
    while i < n
        invariant
            i <= n == s.len(),
            split_lines(s@.subrange(i as int, n as int), cur@, views(acc@)) == lines_of(s@),
        decreases n - i,
    {
        let c = s[i];
        assert(s@.subrange(i as int, n as int).drop_first() =~= s@.subrange(i + 1, n as int));
        if c == '\n' {
            let line = if cur.len() > 0 && cur[cur.len() - 1] == '\r' {
                crate::text::slice_chars(&cur, 0, cur.len() - 1)
            } else {
                crate::text::slice_chars(&cur, 0, cur.len())
            };
            assert(line@ =~= strip_cr(cur@));
            proof {
                lemma_views_push(acc@, line);
            }
            acc.push(line);
            cur = Vec::new();
            assert(cur@ =~= Seq::<char>::empty());
        } else {
            cur.push(c);
        }
        i = i + 1;
    }
    if cur.len() > 0 {
        proof {
            lemma_views_push(acc@, cur);
        }
        acc.push(cur);
    }
    acc
}

/// An entry of a playlist: a line that is not blank and is no comment.
pub open spec fn is_entry(trimmed: Seq<char>) -> bool {
    trimmed.len() > 0 && trimmed[0] != '#'
}

/// The trimmed entries among the lines, in order.
pub open spec fn entries_of(lines: Seq<Seq<char>>) -> Seq<Seq<char>>
    decreases lines.len(),
{
    if lines.len() == 0 {
        Seq::empty()
    } else {
        let rest = entries_of(lines.drop_last());
        if is_entry(trim(lines.last())) {
            rest.push(trim(lines.last()))
        } else {
            rest
        }
    }
}

/// The paths that a playlist's text lists, trimmed, without blank lines and
/// comments.
pub fn playlist_entries(text: &str) -> (r: Vec<String>)
    ensures
        r@.map_values(|s: String| s@) == entries_of(lines_of(text@)),
{
    let lines = split_lines_of(&chars_of(text));
    let mut out: Vec<String> = Vec::new();
    let mut i: usize = 0;
    while i < lines.len()
        invariant
            i <= lines.len(),
            views(lines@) == lines_of(text@),
            out@.map_values(|s: String| s@) == entries_of(views(lines@).subrange(0, i as int)),
        decreases lines.len() - i,
    {
        let t = trim_chars(&lines[i]);
        assert(views(lines@)[i as int] == lines@[i as int]@);
        assert(views(lines@).subrange(0, i + 1).drop_last() =~= views(lines@).subrange(0, i as int));
        if t.len() > 0 && t[0] != '#' {
            let ghost before = out@;
            out.push(string_of(&t));
            assert(out@.map_values(|s: String| s@) =~= before.map_values(|s: String| s@).push(t@));
        }
        i = i + 1;
    }
    assert(views(lines@).subrange(0, lines.len() as int) =~= views(lines@));
    out
}

/// How many lines count as tracks when listing playlists: not blank, and
/// not starting with '#'.
pub open spec fn counted_lines(lines: Seq<Seq<char>>) -> nat
    decreases lines.len(),
{
    if lines.len() == 0 {
        0
    } else {
        counted_lines(lines.drop_last()) + if trim(lines.last()).len() > 0 && !(
        lines.last().len() > 0 && lines.last()[0] == '#') {
            1nat
        } else {
            0nat
        }
    }
}

pub fn count_playlist_entries(text: &str) -> (r: usize)
    ensures
        r as nat == counted_lines(lines_of(text@)),
{
    let lines = split_lines_of(&chars_of(text));
    let mut count: usize = 0;
    let mut i: usize = 0;
    while i < lines.len()
        invariant
            i <= lines.len(),
            count <= i,
            views(lines@) == lines_of(text@),
            count == counted_lines(views(lines@).subrange(0, i as int)),
        decreases lines.len() - i,
    {
        let l = &lines[i];
        assert(views(lines@)[i as int] == l@);
        assert(views(lines@).subrange(0, i + 1).drop_last() =~= views(lines@).subrange(0, i as int));
        if trim_chars(l).len() > 0 && !(l.len() > 0 && l[0] == '#') {
            count = count + 1;
        }
        i = i + 1;
    }
    assert(views(lines@).subrange(0, lines.len() as int) =~= views(lines@));
    count
}

} // verus!
