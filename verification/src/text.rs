//! Character and line-level text utilities shared by the request, OCR,
//! probe and capture modules.

use vstd::prelude::*;

verus! {

/// The characters with the Unicode `White_Space` property, as `char::is_whitespace`
/// recognizes them.
pub open spec fn is_space(c: char) -> bool {
    c == ' ' || c == '\t' || c == '\n' || c == '\u{b}' || c == '\u{c}' || c == '\r'
        || c == '\u{85}' || c == '\u{a0}' || c == '\u{1680}' || c == '\u{2000}'
        || c == '\u{2001}' || c == '\u{2002}' || c == '\u{2003}' || c == '\u{2004}'
        || c == '\u{2005}' || c == '\u{2006}' || c == '\u{2007}' || c == '\u{2008}'
        || c == '\u{2009}' || c == '\u{200a}' || c == '\u{2028}' || c == '\u{2029}'
        || c == '\u{202f}' || c == '\u{205f}' || c == '\u{3000}'
}

/// Whitespace test on a single character.
pub fn char_is_space(c: char) -> (r: bool)
    ensures
        r == is_space(c),
{
    c == ' ' || c == '\t' || c == '\n' || c == '\u{b}' || c == '\u{c}' || c == '\r'
        || c == '\u{85}' || c == '\u{a0}' || c == '\u{1680}' || c == '\u{2000}'
        || c == '\u{2001}' || c == '\u{2002}' || c == '\u{2003}' || c == '\u{2004}'
        || c == '\u{2005}' || c == '\u{2006}' || c == '\u{2007}' || c == '\u{2008}'
        || c == '\u{2009}' || c == '\u{200a}' || c == '\u{2028}' || c == '\u{2029}'
        || c == '\u{202f}' || c == '\u{205f}' || c == '\u{3000}'
}

/// Index of the first occurrence of `c` in `v`, or `v.len()` when `c` does
/// not occur.
pub open spec fn first_index_of(v: Seq<char>, c: char) -> nat
    decreases v.len(),
{
    if v.len() == 0 {
        0
    } else if v[0] == c {
        0
    } else {
        (1 + first_index_of(v.subrange(1, v.len() as int), c)) as nat
    }
}

pub proof fn lemma_first_index_of_le(v: Seq<char>, c: char)
    ensures
        first_index_of(v, c) <= v.len(),
        first_index_of(v, c) < v.len() ==> v[first_index_of(v, c) as int] == c,
        forall|k: int| 0 <= k < first_index_of(v, c) ==> v[k] != c,
    decreases v.len(),
{
    if v.len() == 0 {
    } else if v[0] == c {
    } else {
        let tail = v.subrange(1, v.len() as int);
        lemma_first_index_of_le(tail, c);
        assert forall|k: int| 0 <= k < first_index_of(v, c) implies v[k] != c by {
            if k > 0 {
                assert(tail[k - 1] == v[k]);
            }
        }
    }
}

/// `first_index_of` is pinned down by the position of the first hit.
pub proof fn lemma_first_index_of_is(v: Seq<char>, c: char, i: int)
    requires
        0 <= i <= v.len(),
        forall|k: int| 0 <= k < i ==> v[k] != c,
        i < v.len() ==> v[i] == c,
    ensures
        first_index_of(v, c) == i,
    decreases v.len(),
{
    if v.len() == 0 {
    } else if v[0] == c {
        assert(i == 0);
    } else {
        let tail = v.subrange(1, v.len() as int);
        assert(i >= 1);
        assert forall|k: int| 0 <= k < i - 1 implies tail[k] != c by {
            assert(tail[k] == v[k + 1]);
        }
        assert(i - 1 < tail.len() ==> tail[i - 1] == c);
        lemma_first_index_of_is(tail, c, i - 1);
    }
}

/// A line terminated by `"\r\n"` loses the `'\r'`; every other line is kept
/// whole.
pub open spec fn chop_cr(l: Seq<char>) -> Seq<char> {
    if l.len() > 0 && l[l.len() - 1] == '\r' {
        l.drop_last()
    } else {
        l
    }
}

/// The lines of `v`, split at `'\n'`, with a `'\r'` dropped before each
/// split point and the final line terminator optional, as `str::lines`
/// reads them.
pub open spec fn lines_of(v: Seq<char>) -> Seq<Seq<char>>
    decreases v.len(),
    via lines_of_decreases
{
    if v.len() == 0 {
        Seq::empty()
    } else {
        let i = first_index_of(v, '\n') as int;
        if i == v.len() {
            seq![v]
        } else {
            seq![chop_cr(v.subrange(0, i))] + lines_of(v.subrange(i + 1, v.len() as int))
        }
    }
}

#[via_fn]
proof fn lines_of_decreases(v: Seq<char>) {
    lemma_first_index_of_le(v, '\n');
}

/// The lines of a string slice, each copied out in order.
pub fn lines_vec(s: &str) -> (r: Vec<String>)
    ensures
        r@.len() == lines_of(s@).len(),
        forall|i: int| 0 <= i < r@.len() ==> r@[i]@ == lines_of(s@)[i],
{
    let n = s.unicode_len();
    let mut r: Vec<String> = Vec::new();
    let ghost mut done: Seq<Seq<char>> = Seq::empty();
    let mut start: usize = 0;
    let mut finished = false;
    proof {
        assert(s@.subrange(0, n as int) =~= s@);
        assert(Seq::empty() + lines_of(s@) =~= lines_of(s@));
    }
    while !finished && start < n
        invariant
            0 <= start <= n,
            n == s@.len(),
            finished ==> lines_of(s@) == done,
            !finished ==> lines_of(s@) == done + lines_of(s@.subrange(start as int, n as int)),
            r@.len() == done.len(),
            forall|i: int| 0 <= i < done.len() ==> r@[i]@ == done[i],
        decreases n - start + (if finished { 0int } else { 1int }),
    {
        let mut end = start;
        while end < n && s.get_char(end) != '\n'
            invariant
                start <= end <= n,
                n == s@.len(),
                forall|k: int| start <= k < end ==> s@[k] != '\n',
            decreases n - end,
        {
            end += 1;
        }
        let ghost rest = s@.subrange(start as int, n as int);
        proof {
            assert forall|k: int| 0 <= k < end - start implies rest[k] != '\n' by {
                assert(rest[k] == s@[start + k]);
            }
            assert(end - start < rest.len() ==> rest[end - start] == '\n');
            lemma_first_index_of_is(rest, '\n', end - start);
        }
        if end < n {
            let line_end = if end > start && s.get_char(end - 1) == '\r' {
                end - 1
            } else {
                end
            };
            let line = s.substring_char(start, line_end);
            let ghost full = rest.subrange(0, end - start);
            proof {
                assert(full =~= s@.subrange(start as int, end as int));
                if end > start && s@[end - 1] == '\r' {
                    assert(full.drop_last() =~= s@.subrange(start as int, end - 1));
                }
                assert(line@ == chop_cr(full));
                assert(rest.subrange(end - start + 1, rest.len() as int) =~= s@.subrange(
                    end + 1,
                    n as int,
                ));
                assert(lines_of(rest) == seq![chop_cr(full)] + lines_of(
                    s@.subrange(end + 1, n as int),
                ));
                assert(done + lines_of(rest) =~= done.push(line@) + lines_of(
                    s@.subrange(end + 1, n as int),
                ));
            }
            r.push(line.to_owned());
            proof {
                done = done.push(line@);
            }
            start = end + 1;
        } else {
            let line = s.substring_char(start, n);
            proof {
                assert(line@ == rest);
                assert(lines_of(rest) =~= seq![rest]);
                assert(done + lines_of(rest) =~= done.push(rest));
                done = done.push(rest);
            }
            r.push(line.to_owned());
            finished = true;
        }
    }
    proof {
        if !finished {
            assert(s@.subrange(start as int, n as int).len() == 0);
            assert(lines_of(s@) =~= done);
        }
    }
    r
}

/// A line is blank when every character is whitespace; the empty line is
/// blank.
pub open spec fn is_blank(l: Seq<char>) -> bool {
    forall|k: int| 0 <= k < l.len() ==> is_space(l[k])
}

/// Blankness test on a string slice.
pub fn is_blank_str(l: &str) -> (r: bool)
    ensures
        r == is_blank(l@),
{
    let n = l.unicode_len();
    let mut i: usize = 0;
    while i < n
        invariant
            0 <= i <= n,
            n == l@.len(),
            forall|k: int| 0 <= k < i ==> is_space(l@[k]),
        decreases n - i,
    {
        if !char_is_space(l.get_char(i)) {
            return false;
        }
        i += 1;
    }
    true
}

/// The pieces of `ls` concatenated with a single `' '` between neighbours.
pub open spec fn join_spaced(ls: Seq<Seq<char>>) -> Seq<char>
    decreases ls.len(),
{
    if ls.len() == 0 {
        Seq::empty()
    } else if ls.len() == 1 {
        ls[0]
    } else {
        join_spaced(ls.drop_last()) + seq![' '] + ls.last()
    }
}

pub proof fn lemma_join_spaced_push(ls: Seq<Seq<char>>, l: Seq<char>)
    ensures
        ls.len() == 0 ==> join_spaced(ls.push(l)) == l,
        ls.len() > 0 ==> join_spaced(ls.push(l)) == join_spaced(ls) + seq![' '] + l,
{
    let p = ls.push(l);
    assert(p.drop_last() =~= ls);
    assert(p.last() == l);
    if ls.len() == 0 {
        assert(p[0] == l);
    }
}

pub proof fn lemma_filter_push<A>(ls: Seq<A>, l: A, pred: spec_fn(A) -> bool)
    ensures
        pred(l) ==> ls.push(l).filter(pred) == ls.filter(pred).push(l),
        !pred(l) ==> ls.push(l).filter(pred) == ls.filter(pred),
{
    reveal(Seq::filter);
    let p = ls.push(l);
    assert(p.drop_last() =~= ls);
    assert(p.last() == l);
}

/// The non-blank lines of `v`, in order.
pub open spec fn nonblank_lines(v: Seq<char>) -> Seq<Seq<char>> {
    lines_of(v).filter(|l: Seq<char>| !is_blank(l))
}

/// OCR text normalization: the non-blank lines of `v` joined with single
/// spaces, so that multi-line recognized text collapses into one line.
pub open spec fn cleaned(v: Seq<char>) -> Seq<char> {
    join_spaced(nonblank_lines(v))
}

/// Drops every blank line of `s` and joins what remains with single spaces.
pub fn clean_text(s: &str) -> (r: String)
    ensures
        r@ == cleaned(s@),
{
    let ls = lines_vec(s);
    let ghost all = lines_of(s@);
    let ghost pred = |l: Seq<char>| !is_blank(l);
    let mut out = String::new();
    let mut any = false;
    let mut i: usize = 0;
    proof {
        assert(all.take(0) =~= Seq::empty());
        reveal(Seq::filter);
    }
    while i < ls.len()
        invariant
            0 <= i <= ls@.len(),
            ls@.len() == all.len(),
            all == lines_of(s@),
            pred == (|l: Seq<char>| !is_blank(l)),
            forall|k: int| 0 <= k < ls@.len() ==> ls@[k]@ == all[k],
            out@ == join_spaced(all.take(i as int).filter(pred)),
            any == (all.take(i as int).filter(pred).len() > 0),
        decreases ls@.len() - i,
    {
        let ghost taken = all.take(i as int);
        let line = &ls[i];
        let blank = is_blank_str(line.as_str());
        proof {
            assert(all.take(i + 1) =~= taken.push(all[i as int]));
            lemma_filter_push(taken, all[i as int], pred);
            if !blank {
                lemma_join_spaced_push(taken.filter(pred), all[i as int]);
                taken.filter(pred).lemma_filter_len(pred);
            }
        }
        if !blank {
            if any {
                out.append(" ");
            }
            out.append(line.as_str());
            proof {
                if taken.filter(pred).len() == 0 {
                    assert(out@ =~= all.take(i + 1).filter(pred)[0]);
                    assert(out@ == join_spaced(all.take(i + 1).filter(pred)));
                } else {
                    reveal_strlit(" ");
                    assert(" "@ =~= seq![' ']);
                    assert(out@ == join_spaced(all.take(i + 1).filter(pred)));
                }
            }
            any = true;
        }
        i += 1;
    }
    proof {
        assert(all.take(all.len() as int) =~= all);
    }
    out
}

/// Equality of two string slices, decided character by character.
pub fn str_eq(a: &str, b: &str) -> (r: bool)
    ensures
        r == (a@ == b@),
{
    let an = a.unicode_len();
    let bn = b.unicode_len();
    if an != bn {
        assert(a@ != b@);
        return false;
    }
    let mut i: usize = 0;
    while i < an
        invariant
            0 <= i <= an,
            an == a@.len(),
            an == b@.len(),
            forall|k: int| 0 <= k < i ==> a@[k] == b@[k],
        decreases an - i,
    {
        if a.get_char(i) != b.get_char(i) {
            assert(a@ != b@);
            return false;
        }
        i += 1;
    }
    proof {
        assert(a@ =~= b@);
    }
    true
}

} // verus!
