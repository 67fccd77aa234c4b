//! Splitting text into fields and lines, and substring search.

use vstd::prelude::*;
use vstd::string::StrSliceExecFns;

verus! {

/// The pieces of `s` between occurrences of `sep`, left to right. There is
/// always at least one piece; two adjacent separators give an empty piece.
pub open spec fn split_at_sep(s: Seq<char>, sep: char) -> Seq<Seq<char>>
    decreases s.len(),
{
    if s.len() == 0 {
        seq![Seq::<char>::empty()]
    } else {
        let rest = split_at_sep(s.drop_last(), sep);
        if s.last() == sep {
            rest.push(Seq::<char>::empty())
        } else {
            rest.update(rest.len() - 1, rest.last().push(s.last()))
        }
    }
}

/// The character sequences that a sequence of strings holds.
pub open spec fn texts(v: Seq<String>) -> Seq<Seq<char>> {
    v.map_values(|x: String| x@)
}

pub proof fn lemma_split_nonempty(s: Seq<char>, sep: char)
    ensures
        split_at_sep(s, sep).len() >= 1,
    decreases s.len(),
{
    if s.len() > 0 {
        lemma_split_nonempty(s.drop_last(), sep);
    }
}

/// Splits `s` at every occurrence of `sep`.
pub fn split_on(s: &str, sep: char) -> (r: Vec<String>)
    ensures
        texts(r@) == split_at_sep(s@, sep),
{
    let n = s.unicode_len();
    let mut pieces: Vec<String> = Vec::new();
    let mut start: usize = 0;
    let mut i: usize = 0;
    assert(s@.subrange(0, 0) =~= Seq::<char>::empty());
    assert(texts(pieces@) =~= Seq::<Seq<char>>::empty());
    assert(texts(pieces@).push(s@.subrange(0, 0)) =~= seq![Seq::<char>::empty()]);
    while i < n
        invariant
            n == s@.len(),
            start <= i <= n,
            split_at_sep(s@.subrange(0, i as int), sep) == texts(pieces@).push(
                s@.subrange(start as int, i as int),
            ),
        decreases n - i,
    {
        let c = s.get_char(i);
        let ghost prefix = s@.subrange(0, i as int + 1);
        assert(prefix.drop_last() =~= s@.subrange(0, i as int));
        assert(prefix.last() == c);
        let ghost before = texts(pieces@);
        let ghost cur = s@.subrange(start as int, i as int);
        if c == sep {
            let piece = s.substring_char(start, i).to_owned();
            let ghost piece_view = piece@;
            pieces.push(piece);
            assert(texts(pieces@) =~= texts(pieces@.drop_last()).push(piece_view));
            start = i + 1;
            assert(split_at_sep(prefix, sep) == before.push(cur).push(Seq::<char>::empty()));
            assert(s@.subrange(start as int, i as int + 1) =~= Seq::<char>::empty());
        } else {
            assert(cur.push(c) =~= s@.subrange(start as int, i as int + 1));
            assert(split_at_sep(prefix, sep) == before.push(cur).update(before.len() as int, cur.push(c)));
            assert(before.push(cur).update(before.len() as int, cur.push(c)) =~= before.push(cur.push(c)));
        }
        i = i + 1;
    }
    let last = s.substring_char(start, n).to_owned();
    pieces.push(last);
    assert(s@.subrange(0, n as int) =~= s@);
    proof {
        let v = pieces@;
        assert(texts(v) =~= texts(v.drop_last()).push(last@));
    }
    pieces
}

/// A line without the carriage return that ends it, if any.
pub open spec fn strip_cr(p: Seq<char>) -> Seq<char> {
    if p.len() > 0 && p.last() == '\r' {
        p.drop_last()
    } else {
        p
    }
}

/// The lines of `s`: split at each line feed, with a carriage return just
/// before a line feed removed; a final line feed ends the last line rather
/// than starting an empty one.
pub open spec fn text_lines(s: Seq<char>) -> Seq<Seq<char>> {
    let parts = split_at_sep(s, '\n');
    let ended = parts.take(parts.len() - 1).map_values(|p: Seq<char>| strip_cr(p));
    if parts.last().len() == 0 {
        ended
    } else {
        ended.push(parts.last())
    }
}

/// Whether `needle` occurs as a contiguous part of `hay`.
pub open spec fn occurs_in(needle: Seq<char>, hay: Seq<char>) -> bool {
    exists|i: int|
        0 <= i && i + needle.len() <= hay.len() && #[trigger] hay.subrange(i, i + needle.len())
            == needle
}

fn without_cr(p: &String) -> (r: String)
    ensures
        r@ == strip_cr(p@),
{
    let s = p.as_str();
    let n = s.unicode_len();
    if n > 0 && s.get_char(n - 1) == '\r' {
        s.substring_char(0, n - 1).to_owned()
    } else {
        p.clone()
    }
}

/// Splits `s` into lines, as a line-oriented text file reads.
pub fn split_lines(s: &str) -> (r: Vec<String>)
    ensures
        texts(r@) == text_lines(s@),
{
    let parts = split_on(s, '\n');
    proof {
        lemma_split_nonempty(s@, '\n');
    }
    let ghost parts_v = texts(parts@);
    let m = parts.len() - 1;
    let mut lines: Vec<String> = Vec::new();
    let mut k: usize = 0;
    while k < m
        invariant
            m + 1 == parts@.len(),
            parts_v == texts(parts@),
            k <= m,
            texts(lines@) =~= parts_v.take(k as int).map_values(|p: Seq<char>| strip_cr(p)),
        decreases m - k,
    {
        let line = without_cr(&parts[k]);
        let ghost line_v = line@;
        let ghost prev = texts(lines@);
        assert(parts_v[k as int] == parts@[k as int]@);
        lines.push(line);
        assert(texts(lines@) =~= prev.push(line_v));
        k = k + 1;
        assert(parts_v.take(k as int) =~= parts_v.take(k - 1).push(parts_v[k - 1]));
    }
    let last = &parts[m];
    if last.as_str().unicode_len() > 0 {
        lines.push(last.clone());
        assert(texts(lines@) =~= texts(lines@.drop_last()).push(last@));
    }
    lines
}

/// The characters of `s`, one per element.
pub fn chars_of(s: &str) -> (r: Vec<char>)
    ensures
        r@ == s@,
{
    let n = s.unicode_len();
    let mut out: Vec<char> = Vec::new();
    let mut i: usize = 0;
    while i < n
        invariant
            n == s@.len(),
            i <= n,
            out@ == s@.subrange(0, i as int),
        decreases n - i,
    {
        out.push(s.get_char(i));
        i = i + 1;
        assert(out@ =~= s@.subrange(0, i as int));
    }
    assert(out@ =~= s@);
    out
}

/// Whether `needle` occurs anywhere in `hay`; the empty needle occurs in
/// every text.
pub fn contains_text(hay: &str, needle: &str) -> (r: bool)
    ensures
        r == occurs_in(needle@, hay@),
{
    let h = chars_of(hay);
    let nd = chars_of(needle);
    let hn = h.len();
    let m = nd.len();
    if m > hn {
        assert forall|i: int| 0 <= i && i + m <= hn implies #[trigger] hay@.subrange(i, i + m as int) != needle@ by {}
        return false;
    }
    let mut i: usize = 0;
    while i <= hn - m
        invariant
            h@ == hay@,
            nd@ == needle@,
            hn == h@.len(),
            m == nd@.len(),
            m <= hn,
            i <= hn - m + 1,
            forall|p: int| 0 <= p < i ==> #[trigger] hay@.subrange(p, p + m) != needle@,
        decreases hn - m + 1 - i,
    {
        let mut j: usize = 0;
        while j < m && h[i + j] == nd[j]
            invariant
                h@ == hay@,
                nd@ == needle@,
                hn == h@.len(),
                m == nd@.len(),
                i + m <= hn,
                j <= m,
                forall|q: int| 0 <= q < j ==> h@[i + q] == nd@[q],
            decreases m - j,
        {
            j = j + 1;
        }
        if j == m {
            assert(hay@.subrange(i as int, i + m) =~= needle@);
            return true;
        }
        assert(hay@.subrange(i as int, i + m)[j as int] != needle@[j as int]);
        i = i + 1;
    }
    false
}

} // verus!
