//! Pure logic of the capture orchestrator: the cursor-location parser and
//! the plan a hotkey trigger follows.

use vstd::prelude::*;
use crate::text::{is_space, char_is_space};
use crate::gateway::CommandOutcome;

verus! {

/// Index of the first whitespace character of `v`, or `v.len()` when there
/// is none.
pub open spec fn first_space(v: Seq<char>) -> nat
    decreases v.len(),
{
    if v.len() == 0 {
        0
    } else if is_space(v[0]) {
        0
    } else {
        (1 + first_space(v.subrange(1, v.len() as int))) as nat
    }
}

pub proof fn lemma_first_space_le(v: Seq<char>)
    ensures
        first_space(v) <= v.len(),
    decreases v.len(),
{
    if v.len() == 0 || is_space(v[0]) {
    } else {
        lemma_first_space_le(v.subrange(1, v.len() as int));
    }
}

/// `first_space` is pinned down by the position of the first whitespace hit.
pub proof fn lemma_first_space_is(v: Seq<char>, i: int)
    requires
        0 <= i <= v.len(),
        forall|k: int| 0 <= k < i ==> !is_space(v[k]),
        i < v.len() ==> is_space(v[i]),
    ensures
        first_space(v) == i,
    decreases v.len(),
{
    if v.len() == 0 {
    } else if is_space(v[0]) {
        assert(i == 0);
    } else {
        let tail = v.subrange(1, v.len() as int);
        assert(i >= 1);
        assert forall|k: int| 0 <= k < i - 1 implies !is_space(tail[k]) by {
            assert(tail[k] == v[k + 1]);
        }
        assert(i - 1 < tail.len() ==> is_space(tail[i - 1]));
        lemma_first_space_is(tail, i - 1);
    }
}

/// The maximal whitespace-free runs of `v`, in order, as
/// `str::split_whitespace` yields them.
pub open spec fn tokens_of(v: Seq<char>) -> Seq<Seq<char>>
    decreases v.len(),
    via tokens_of_decreases
{
    if v.len() == 0 {
        Seq::empty()
    } else if is_space(v[0]) {
        tokens_of(v.subrange(1, v.len() as int))
    } else {
        let j = first_space(v) as int;
        seq![v.subrange(0, j)] + tokens_of(v.subrange(j, v.len() as int))
    }
}

#[via_fn]
proof fn tokens_of_decreases(v: Seq<char>) {
    lemma_first_space_le(v);
}

/// The whitespace-separated tokens of a string slice, each copied out in
/// order.
pub fn tokens_vec(s: &str) -> (r: Vec<String>)
    ensures
        r@.len() == tokens_of(s@).len(),
        forall|i: int| 0 <= i < r@.len() ==> r@[i]@ == tokens_of(s@)[i],
{
    let n = s.unicode_len();
    let mut r: Vec<String> = Vec::new();
    let ghost mut done: Seq<Seq<char>> = Seq::empty();
    let mut start: usize = 0;
    proof {
        assert(s@.subrange(0, n as int) =~= s@);
        assert(Seq::empty() + tokens_of(s@) =~= tokens_of(s@));
    }
    while start < n
        invariant
            0 <= start <= n,
            n == s@.len(),
            tokens_of(s@) == done + tokens_of(s@.subrange(start as int, n as int)),
            r@.len() == done.len(),
            forall|i: int| 0 <= i < done.len() ==> r@[i]@ == done[i],
        decreases n - start,
    {
        let ghost rest = s@.subrange(start as int, n as int);
        let c = s.get_char(start);
        if char_is_space(c) {
            proof {
                assert(rest[0] == s@[start as int]);
                assert(rest.subrange(1, rest.len() as int) =~= s@.subrange(
                    start + 1,
                    n as int,
                ));
            }
            start += 1;
        } else {
            let mut end = start + 1;
            while end < n && !char_is_space(s.get_char(end))
                invariant
                    start < end <= n,
                    n == s@.len(),
                    forall|k: int| start <= k < end ==> !is_space(s@[k]),
                decreases n - end,
            {
                end += 1;
            }
            let tok = s.substring_char(start, end);
            proof {
                assert forall|k: int| 0 <= k < end - start implies !is_space(rest[k]) by {
                    assert(rest[k] == s@[start + k]);
                }
                assert(end - start < rest.len() ==> is_space(rest[end - start]));
                lemma_first_space_is(rest, end - start);
                assert(rest.subrange(0, end - start) =~= s@.subrange(start as int, end as int));
                assert(rest.subrange(end - start, rest.len() as int) =~= s@.subrange(
                    end as int,
                    n as int,
                ));
                assert(done + tokens_of(rest) =~= done.push(tok@) + tokens_of(
                    s@.subrange(end as int, n as int),
                ));
                done = done.push(tok@);
            }
            r.push(tok.to_owned());
            start = end;
        }
    }
    proof {
        assert(s@.subrange(start as int, n as int).len() == 0);
        assert(tokens_of(s@) =~= done);
    }
    r
}

/// Decimal digit test, by code point.
pub open spec fn is_digit(c: char) -> bool {
    48 <= c as u32 <= 57
}

pub open spec fn digit_val(c: char) -> int {
    c as u32 - 48
}

/// The value of a digit string, most significant digit first.
pub open spec fn digits_val(v: Seq<char>) -> int
    decreases v.len(),
{
    if v.len() == 0 {
        0
    } else {
        digits_val(v.drop_last()) * 10 + digit_val(v.last())
    }
}

/// A non-empty string of decimal digits.
pub open spec fn all_digits(v: Seq<char>) -> bool {
    v.len() > 0 && forall|k: int| 0 <= k < v.len() ==> is_digit(v[k])
}

proof fn lemma_digits_val_nonneg(v: Seq<char>)
    requires
        forall|k: int| 0 <= k < v.len() ==> is_digit(v[k]),
    ensures
        digits_val(v) >= 0,
    decreases v.len(),
{
    if v.len() > 0 {
        lemma_digits_val_nonneg(v.drop_last());
    }
}

/// A digit string is worth at least any of its prefixes.
proof fn lemma_digits_val_prefix(v: Seq<char>, j: int)
    requires
        forall|k: int| 0 <= k < v.len() ==> is_digit(v[k]),
        0 <= j <= v.len(),
    ensures
        digits_val(v.take(j)) <= digits_val(v),
    decreases v.len(),
{
    if j == v.len() {
        assert(v.take(j) =~= v);
    } else {
        let w = v.drop_last();
        lemma_digits_val_nonneg(w);
        assert(v.take(j) =~= w.take(j));
        lemma_digits_val_prefix(w, j);
    }
}

/// The sign-and-digits part of an integer literal.
pub open spec fn int_magnitude(v: Seq<char>) -> Seq<char> {
    if v.len() > 0 && (v[0] == '+' || v[0] == '-') {
        v.subrange(1, v.len() as int)
    } else {
        v
    }
}

pub open spec fn int_negative(v: Seq<char>) -> bool {
    v.len() > 0 && v[0] == '-'
}

/// What `str::parse::<i32>` accepts: an optional sign, then one or more
/// decimal digits, with the value in `i32`'s range.
pub open spec fn parsed_i32(v: Seq<char>) -> Option<i32> {
    let mag = int_magnitude(v);
    if all_digits(mag) {
        let m = digits_val(mag);
        if int_negative(v) {
            if -m >= i32::MIN {
                Some((-m) as i32)
            } else {
                None
            }
        } else {
            if m <= i32::MAX {
                Some(m as i32)
            } else {
                None
            }
        }
    } else {
        None
    }
}

/// Decimal `i32` parse with optional sign, rejecting anything else.
pub fn parse_i32(s: &str) -> (r: Option<i32>)
    ensures
        r == parsed_i32(s@),
{
    let n = s.unicode_len();
    if n == 0 {
        return None;
    }
    let c0 = s.get_char(0);
    let neg = c0 == '-';
    let start: usize = if c0 == '-' || c0 == '+' {
        1
    } else {
        0
    };
    if start == n {
        return None;
    }
    let ghost mag = int_magnitude(s@);
    proof {
        if start == 1 {
            assert(mag =~= s@.subrange(1, n as int));
        } else {
            assert(mag =~= s@);
        }
        assert(mag.take(0) =~= Seq::<char>::empty());
    }
    let mut acc: u64 = 0;
    let mut i: usize = start;
    while i < n
        invariant
            start <= i <= n,
            n == s@.len(),
            start <= 1,
            neg == int_negative(s@),
            mag == int_magnitude(s@),
            mag.len() == n - start,
            forall|k: int| 0 <= k < mag.len() ==> mag[k] == s@[start + k],
            forall|k: int| 0 <= k < i - start ==> is_digit(mag[k]),
            acc == digits_val(mag.take(i - start)),
            acc <= 0x8000_0000,
        decreases n - i,
    {
        let c = s.get_char(i);
        let code = c as u32;
        if code < 48 || code > 57 {
            proof {
                assert(mag[i - start] == s@[i as int]);
                assert(!all_digits(mag));
            }
            return None;
        }
        let d = (code - 48) as u64;
        let ghost taken = mag.take(i - start);
        acc = acc * 10 + d;
        proof {
            let t1 = mag.take(i + 1 - start);
            assert(t1.drop_last() =~= taken);
            assert(t1.last() == mag[i - start]);
            assert(acc == digits_val(t1));
        }
        if acc > 0x8000_0000 {
            proof {
                if all_digits(mag) {
                    lemma_digits_val_prefix(mag, i + 1 - start);
                    assert(digits_val(mag) > 0x8000_0000);
                }
            }
            return None;
        }
        i += 1;
    }
    proof {
        assert(mag.take(n - start) =~= mag);
        assert(all_digits(mag));
        assert(acc == digits_val(mag));
    }
    if neg {
        if acc == 0x8000_0000 {
            Some(i32::MIN)
        } else {
            Some(-(acc as i32))
        }
    } else {
        if acc == 0x8000_0000 {
            None
        } else {
            Some(acc as i32)
        }
    }
}

/// A token of the form `<tag>:<rest>`.
pub open spec fn token_tagged(t: Seq<char>, tag: char) -> bool {
    t.len() >= 2 && t[0] == tag && t[1] == ':'
}

/// The coordinate the token list yields for `tag`: the last tagged token
/// wins, a tagged token that does not parse falls back to 100, and so does
/// an absent tag.
pub open spec fn coord_from(tokens: Seq<Seq<char>>, tag: char) -> int
    decreases tokens.len(),
{
    if tokens.len() == 0 {
        100
    } else if token_tagged(tokens.last(), tag) {
        match parsed_i32(tokens.last().subrange(2, tokens.last().len() as int)) {
            Some(x) => x as int,
            None => 100,
        }
    } else {
        coord_from(tokens.drop_last(), tag)
    }
}

/// The on-screen position a cursor-location line resolves to.
pub open spec fn cursor_of(v: Seq<char>) -> (int, int) {
    (coord_from(tokens_of(v), 'x'), coord_from(tokens_of(v), 'y'))
}

/// Reads a `x:<int> y:<int> screen:<int> window:<int>` line, whitespace
/// delimited and order-free; either coordinate that cannot be read falls
/// back to 100.
pub fn parse_cursor_location(s: &str) -> (r: (i32, i32))
    ensures
        r.0 as int == cursor_of(s@).0,
        r.1 as int == cursor_of(s@).1,
{
    let toks = tokens_vec(s);
    let ghost all = tokens_of(s@);
    let mut x: i32 = 100;
    let mut y: i32 = 100;
    let mut i: usize = 0;
    proof {
        assert(all.take(0) =~= Seq::<Seq<char>>::empty());
    }
    while i < toks.len()
        invariant
            0 <= i <= toks@.len(),
            toks@.len() == all.len(),
            all == tokens_of(s@),
            forall|k: int| 0 <= k < all.len() ==> toks@[k]@ == all[k],
            x as int == coord_from(all.take(i as int), 'x'),
            y as int == coord_from(all.take(i as int), 'y'),
        decreases toks@.len() - i,
    {
        let t = &toks[i];
        let tn = t.as_str().unicode_len();
        proof {
            let t1 = all.take(i + 1);
            assert(t1.drop_last() =~= all.take(i as int));
            assert(t1.last() == all[i as int]);
        }
        if tn >= 2 {
            let c0 = t.as_str().get_char(0);
            let c1 = t.as_str().get_char(1);
            if c1 == ':' && (c0 == 'x' || c0 == 'y') {
                let rest = t.as_str().substring_char(2, tn);
                let parsed = parse_i32(rest);
                let val = match parsed {
                    Some(v) => v,
                    None => 100,
                };
                if c0 == 'x' {
                    x = val;
                } else {
                    y = val;
                }
            }
        }
        i += 1;
    }
    proof {
        assert(all.take(all.len() as int) =~= all);
    }
    (x, y)
}

/// What one hotkey trigger resolves to before any window effect: where the
/// transient surface goes, and what text is delivered to it.
#[derive(Debug)]
pub struct CapturePlan {
    /// `Some` when the cursor query launched; its stdout decides the spot.
    pub position: Option<(i32, i32)>,
    /// `Some` when the clipboard held text after the copy keystroke.
    pub deliver: Option<String>,
}

/// The text a surface receives: the clipboard content when it is non-empty,
/// nothing otherwise.
pub fn delivery_text(clipboard_text: String) -> (r: Option<String>)
    ensures
        clipboard_text@.len() > 0 ==> (r matches Some(t) && t == clipboard_text),
        clipboard_text@.len() == 0 ==> r is None,
{
    if clipboard_text.as_str().unicode_len() > 0 {
        Some(clipboard_text)
    } else {
        None
    }
}

/// Resolves one hotkey trigger: the cursor query's stdout fixes the surface
/// position when the query launched, and non-empty clipboard text is
/// scheduled for delivery.
pub fn capture_plan(clipboard_text: String, cursor_query: &CommandOutcome) -> (r: CapturePlan)
    ensures
        (cursor_query matches CommandOutcome::Launched { stdout, .. } ==> r.position matches Some(
            p,
        ) && p.0 as int == cursor_of(stdout@).0 && p.1 as int == cursor_of(stdout@).1),
        (cursor_query matches CommandOutcome::LaunchFailed { .. } ==> r.position is None),
        clipboard_text@.len() > 0 ==> (r.deliver matches Some(t) && t == clipboard_text),
        clipboard_text@.len() == 0 ==> r.deliver is None,
{
    let position = match cursor_query {
        CommandOutcome::Launched { stdout, .. } => Some(parse_cursor_location(stdout.as_str())),
        CommandOutcome::LaunchFailed { .. } => None,
    };
    CapturePlan { position, deliver: delivery_text(clipboard_text) }
}

} // verus!
