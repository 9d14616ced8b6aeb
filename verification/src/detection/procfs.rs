//! Reading the `/proc` answers the ptrace and reverse-shell rules ask for:
//! a task's parent from its `status` file, and whether an fd link names a
//! socket.
use vstd::prelude::*;

use crate::text::{chars_of, has_prefix, starts_with};

verus! {

/// Index of the first `\n` in `s`, or its length when there is none.
pub open spec fn newline_index(s: Seq<char>) -> nat
    decreases s.len(),
{
    if s.len() == 0 {
        0
    } else if s[0] == '\n' {
        0
    } else {
        1 + newline_index(s.drop_first())
    }
}

/// What follows `PPid:` on the first line of `s` that starts with it.
pub open spec fn ppid_field(s: Seq<char>) -> Option<Seq<char>>
    decreases s.len(),
{
    if s.len() == 0 {
        None
    } else {
        let n = newline_index(s);
        let line = s.take(n as int);
        if has_prefix(line, "PPid:"@) {
            Some(line.skip(5))
        } else if n < s.len() {
            ppid_field(s.skip(n as int + 1))
        } else {
            None
        }
    }
}

/// Unicode white space, as `char::is_whitespace` has it.
pub open spec fn is_space(c: char) -> bool {
    ||| ('\u{9}' <= c && c <= '\u{d}')
    ||| c == ' '
    ||| c == '\u{85}'
    ||| c == '\u{a0}'
    ||| c == '\u{1680}'
    ||| ('\u{2000}' <= c && c <= '\u{200a}')
    ||| c == '\u{2028}'
    ||| c == '\u{2029}'
    ||| c == '\u{202f}'
    ||| c == '\u{205f}'
    ||| c == '\u{3000}'
}

/// `s` without leading white space.
pub open spec fn trim_start(s: Seq<char>) -> Seq<char>
    decreases s.len(),
{
    if s.len() > 0 && is_space(s[0]) {
        trim_start(s.drop_first())
    } else {
        s
    }
}

/// `s` without trailing white space.
pub open spec fn trim_end(s: Seq<char>) -> Seq<char>
    decreases s.len(),
{
    if s.len() > 0 && is_space(s.last()) {
        trim_end(s.drop_last())
    } else {
        s
    }
}

pub open spec fn is_digit(c: char) -> bool {
    '0' <= c && c <= '9'
}

/// Value of a string of decimal digits.
pub open spec fn digits_value(d: Seq<char>) -> nat
    decreases d.len(),
{
    if d.len() == 0 {
        0
    } else {
        digits_value(d.drop_last()) * 10 + (d.last() as nat - 48) as nat
    }
}

/// A `u32` read the way `str::parse::<u32>` reads it: an optional `+`,
/// then one or more decimal digits, of value at most `u32::MAX`.
pub open spec fn parse_u32(t: Seq<char>) -> Option<u32> {
    let d = unsigned_digits(t);
    if d.len() > 0 && all_digits(d) && digits_value(d) <= u32::MAX {
        Some(digits_value(d) as u32)
    } else {
        None
    }
}

/// `t` without one leading `+`.
pub open spec fn unsigned_digits(t: Seq<char>) -> Seq<char> {
    if t.len() > 0 && t[0] == '+' {
        t.skip(1)
    } else {
        t
    }
}

/// Every character of `d` is a decimal digit.
pub open spec fn all_digits(d: Seq<char>) -> bool {
    forall|i: int| 0 <= i < d.len() ==> is_digit(#[trigger] d[i])
}

/// The parent pid a `/proc/<pid>/status` text gives: the first `PPid:`
/// line's remainder, trimmed and read as a `u32`.
pub open spec fn status_parent(s: Seq<char>) -> Option<u32> {
    match ppid_field(s) {
        Some(f) => parse_u32(trim_end(trim_start(f))),
        None => None,
    }
}

/// Is this character white space?
pub fn is_space_char(c: char) -> (r: bool)
    ensures
        r == is_space(c),
{
    ('\u{9}' <= c && c <= '\u{d}') || c == ' ' || c == '\u{85}' || c == '\u{a0}' || c == '\u{1680}'
        || ('\u{2000}' <= c && c <= '\u{200a}') || c == '\u{2028}' || c == '\u{2029}' || c == '\u{202f}'
        || c == '\u{205f}' || c == '\u{3000}'
}

proof fn lemma_trim_start_skip(s: Seq<char>, k: int)
    requires
        0 <= k <= s.len(),
        forall|i: int| 0 <= i < k ==> is_space(s[i]),
    ensures
        trim_start(s) == trim_start(s.skip(k)),
    decreases k,
{
    if k > 0 {
        assert(s.drop_first().skip(k - 1) =~= s.skip(k));
        lemma_trim_start_skip(s.drop_first(), k - 1);
    } else {
        assert(s.skip(0) =~= s);
    }
}

proof fn lemma_trim_end_take(s: Seq<char>, k: int)
    requires
        0 <= k <= s.len(),
        forall|i: int| k <= i < s.len() ==> is_space(s[i]),
    ensures
        trim_end(s) == trim_end(s.take(k)),
    decreases s.len() - k,
{
    if k < s.len() {
        assert(s.drop_last().take(k) =~= s.take(k));
        lemma_trim_end_take(s.drop_last(), k);
    } else {
        assert(s.take(k) =~= s);
    }
}

/// `s` without white space at either end.
fn trimmed(s: &[char]) -> (r: Vec<char>)
    ensures
        r@ == trim_end(trim_start(s@)),
{
    let mut a: usize = 0;
    while a < s.len() && is_space_char(s[a])
        invariant
            a <= s@.len(),
            forall|i: int| 0 <= i < a ==> is_space(s@[i]),
        decreases s@.len() - a,
    {
        a = a + 1;
    }
    proof {
        lemma_trim_start_skip(s@, a as int);
    }
    let ghost rest = s@.skip(a as int);
    assert(rest.len() == 0 || !is_space(rest[0]));
    assert(trim_start(rest) == rest);
    let mut b: usize = s.len();
    while b > a && is_space_char(s[b - 1])
        invariant
            a <= b <= s@.len(),
            forall|i: int| b <= i < s@.len() ==> is_space(s@[i]),
        decreases b,
    {
        b = b - 1;
    }
    proof {
        let k = (b - a) as int;
        assert forall|i: int| k <= i < rest.len() implies is_space(rest[i]) by {
            assert(rest[i] == s@[a + i]);
        }
        lemma_trim_end_take(rest, k);
        let t = rest.take(k);
        assert(t.len() == 0 || !is_space(t.last())) by {
            if t.len() > 0 {
                assert(t.last() == s@[b - 1]);
            }
        }
        assert(trim_end(t) == t);
    }
    let mut out: Vec<char> = Vec::new();
    let mut i: usize = a;
    while i < b
        invariant
            a <= i <= b <= s@.len(),
            out@ == s@.subrange(a as int, i as int),
        decreases b - i,
    {
        out.push(s[i]);
        assert(s@.subrange(a as int, i + 1) =~= s@.subrange(a as int, i as int).push(s@[i as int]));
        i = i + 1;
    }
    assert(out@ =~= rest.take((b - a) as int));
    out
}

proof fn lemma_digits_value_push(d: Seq<char>, c: char)
    ensures
        digits_value(d.push(c)) == digits_value(d) * 10 + (c as nat - 48) as nat,
{
    assert(d.push(c).drop_last() =~= d);
}

/// Reads a `u32` the way `str::parse::<u32>` does (see [`parse_u32`]).
pub fn parse_u32_exec(t: &[char]) -> (r: Option<u32>)
    ensures
        r == parse_u32(t@),
{
    let start: usize = if t.len() > 0 && t[0] == '+' { 1 } else { 0 };
    let ghost d = unsigned_digits(t@);
    assert(d =~= t@.skip(start as int));
    if start >= t.len() {
        return None;
    }
    let mut value: u64 = 0;
    let mut i: usize = start;
    while i < t.len()
        invariant
            start <= i <= t@.len(),
            start < t@.len(),
            d =~= t@.skip(start as int),
            d == unsigned_digits(t@),
            forall|k: int| start <= k < i ==> is_digit(#[trigger] t@[k]),
            value == digits_value(t@.subrange(start as int, i as int)),
            value <= u32::MAX,
        decreases t@.len() - i,
    {
        let c = t[i];
        if !('0' <= c && c <= '9') {
            assert(d[i - start] == t@[i as int]);
            assert(!is_digit(d[i - start]));
            assert(!all_digits(d));
            return None;
        }
        let digit: u64 = (c as u32 - 48) as u64;
        proof {
            lemma_digits_value_push(t@.subrange(start as int, i as int), c);
            assert(t@.subrange(start as int, i + 1) =~= t@.subrange(start as int, i as int).push(c));
        }
        let next: u64 = value * 10 + digit;
        if next > 4294967295 {
            proof {
                let k = (i + 1 - start) as int;
                assert(d.take(k) =~= t@.subrange(start as int, i + 1));
                if all_digits(d) {
                    lemma_digits_value_prefix_bound(d, k);
                }
            }
            return None;
        }
        value = next;
        i = i + 1;
    }
    assert(t@.subrange(start as int, t@.len() as int) =~= d);
    Some(value as u32)
}

/// A digit string is worth at least as much as any of its prefixes.
proof fn lemma_digits_value_prefix_bound(d: Seq<char>, k: int)
    requires
        0 <= k <= d.len(),
        forall|i: int| 0 <= i < d.len() ==> is_digit(#[trigger] d[i]),
    ensures
        digits_value(d.take(k)) <= digits_value(d),
    decreases d.len() - k,
{
    if k < d.len() {
        assert(d.drop_last().take(k) =~= d.take(k));
        assert forall|i: int| 0 <= i < d.drop_last().len() implies is_digit(#[trigger] d.drop_last()[i]) by {
            assert(d.drop_last()[i] == d[i]);
        }
        lemma_digits_value_prefix_bound(d.drop_last(), k);
    } else {
        assert(d.take(k) =~= d);
    }
}

/// The parent pid a `/proc/<pid>/status` text gives (see
/// [`status_parent`]); nothing when it has no `PPid:` line or that line
/// does not hold a number.
pub fn parse_status_parent(status: &str) -> (r: Option<u32>)
    ensures
        r == status_parent(status@),
{
    let cs = chars_of(status);
    let s = cs.as_slice();
    let mut start: usize = 0;
    let ghost mut rest = s@;
    loop
        invariant
            s@ == status@,
            start <= s@.len(),
            rest == s@.skip(start as int),
            ppid_field(s@) == ppid_field(rest),
        decreases s@.len() - start,
    {
        if start >= s.len() {
            assert(rest.len() == 0);
            return None;
        }
        let mut end: usize = start;
        while end < s.len() && s[end] != '\n'
            invariant
                start <= end <= s@.len(),
                forall|k: int| start <= k < end ==> s@[k] != '\n',
            decreases s@.len() - end,
        {
            end = end + 1;
        }
        proof {
            lemma_newline_index(rest, (end - start) as int);
        }
        let mut line: Vec<char> = Vec::new();
        let mut i: usize = start;
        while i < end
            invariant
                start <= i <= end <= s@.len(),
                line@ == s@.subrange(start as int, i as int),
            decreases end - i,
        {
            line.push(s[i]);
            assert(s@.subrange(start as int, i + 1) =~= s@.subrange(start as int, i as int).push(s@[i as int]));
            i = i + 1;
        }
        assert(line@ =~= rest.take((end - start) as int));
        if starts_with(line.as_slice(), "PPid:") {
            proof {
                reveal_strlit("PPid:");
            }
            let mut field: Vec<char> = Vec::new();
            let mut j: usize = 5;
            while j < line.len()
                invariant
                    5 <= j <= line@.len(),
                    field@ == line@.subrange(5, j as int),
                decreases line@.len() - j,
            {
                field.push(line[j]);
                assert(line@.subrange(5, j + 1) =~= line@.subrange(5, j as int).push(line@[j as int]));
                j = j + 1;
            }
            assert(field@ =~= line@.skip(5));
            let t = trimmed(field.as_slice());
            return parse_u32_exec(t.as_slice());
        }
        if end >= s.len() {
            return None;
        }
        proof {
            assert(rest.skip((end - start) + 1) =~= s@.skip(end + 1));
        }
        start = end + 1;
        proof {
            rest = s@.skip(start as int);
        }
    }
}

proof fn lemma_newline_index(s: Seq<char>, n: int)
    requires
        0 <= n <= s.len(),
        forall|k: int| 0 <= k < n ==> s[k] != '\n',
        n == s.len() || s[n] == '\n',
    ensures
        newline_index(s) == n,
    decreases n,
{
    if n > 0 {
        lemma_newline_index(s.drop_first(), n - 1);
    }
}

/// Does an fd's link target name a socket? The kernel names a socket fd's
/// target `socket:[<inode>]`.
pub fn is_socket_link(target: &str) -> (r: bool)
    ensures
        r == has_prefix(target@, "socket:"@),
{
    let cs = chars_of(target);
    starts_with(cs.as_slice(), "socket:")
}

} // verus!
