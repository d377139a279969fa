//! Character-level helpers: white space, searching, and unsigned decimals.
//!
//! Every function works on a window `[from, to)` of a character sequence, so
//! that callers can chain them without copying.

use vstd::prelude::*;

verus! {

/// Whether `c` has the Unicode property White_Space.
pub open spec fn is_space(c: char) -> bool {
    let n = c as u32;
    ||| 0x09 <= n <= 0x0d
    ||| n == 0x20
    ||| n == 0x85
    ||| n == 0xa0
    ||| n == 0x1680
    ||| 0x2000 <= n <= 0x200a
    ||| n == 0x2028
    ||| n == 0x2029
    ||| n == 0x202f
    ||| n == 0x205f
    ||| n == 0x3000
}

/// The first index in `[from, to)` at which `s` holds `c`, or `to` if there is none.
pub open spec fn first_at(s: Seq<char>, c: char, from: int, to: int) -> int
    decreases to - from,
{
    if from >= to {
        to
    } else if s[from] == c {
        from
    } else {
        first_at(s, c, from + 1, to)
    }
}

/// The first index in `[from, to)` at which `s` holds something other than `c`,
/// or `to` if the whole window is made of `c`.
pub open spec fn skip_run(s: Seq<char>, c: char, from: int, to: int) -> int
    decreases to - from,
{
    if from >= to {
        to
    } else if s[from] != c {
        from
    } else {
        skip_run(s, c, from + 1, to)
    }
}

/// The first index in `[from, to)` at which `s` holds no white space, or `to`.
pub open spec fn skip_spaces(s: Seq<char>, from: int, to: int) -> int
    decreases to - from,
{
    if from >= to {
        to
    } else if !is_space(s[from]) {
        from
    } else {
        skip_spaces(s, from + 1, to)
    }
}

/// The end of the window `[from, to)` once trailing white space is dropped:
/// the least `e >= from` such that `[e, to)` is all white space.
pub open spec fn drop_spaces(s: Seq<char>, from: int, to: int) -> int
    decreases to - from,
{
    if from >= to {
        from
    } else if !is_space(s[to - 1]) {
        to
    } else {
        drop_spaces(s, from, to - 1)
    }
}

/// `s` without its leading and trailing white space.
pub open spec fn trimmed(s: Seq<char>) -> Seq<char> {
    let a = skip_spaces(s, 0, s.len() as int);
    s.subrange(a, drop_spaces(s, a, s.len() as int))
}

/// Whether `c` is one of the ten ASCII digits.
pub open spec fn is_digit(c: char) -> bool {
    '0' <= c <= '9'
}

/// The number a digit stands for.
pub open spec fn digit_value(c: char) -> nat {
    (c as u32 - '0' as u32) as nat
}

/// Whether every character of `s` is an ASCII digit.
pub open spec fn all_digits(s: Seq<char>) -> bool {
    forall|i: int| 0 <= i < s.len() ==> is_digit(#[trigger] s[i])
}

/// The number that a string of digits denotes in base ten (0 for the empty string).
pub open spec fn decimal_value(s: Seq<char>) -> nat
    decreases s.len(),
{
    if s.len() == 0 {
        0
    } else {
        decimal_value(s.drop_last()) * 10 + digit_value(s.last())
    }
}

/// The unsigned 32-bit number that `s` denotes: an optional `+`, then at least
/// one ASCII digit and nothing else, with a value that fits. `None` otherwise.
pub open spec fn decimal_u32(s: Seq<char>) -> Option<u32> {
    digits_u32(
        if s.len() > 0 && s[0] == '+' {
            s.skip(1)
        } else {
            s
        },
    )
}

/// The unsigned 32-bit number that a string of digits denotes: `None` if it
/// is empty, holds anything but ASCII digits, or denotes too large a number.
pub open spec fn digits_u32(digits: Seq<char>) -> Option<u32> {
    if digits.len() > 0 && all_digits(digits) && decimal_value(digits) <= u32::MAX {
        Some(decimal_value(digits) as u32)
    } else {
        None
    }
}

/// `first_at` stays inside the window, skips only other characters, and stops on `c`.
pub proof fn lemma_first_at(s: Seq<char>, c: char, from: int, to: int)
    requires
        0 <= from <= to <= s.len(),
    ensures
        from <= first_at(s, c, from, to) <= to,
        forall|j: int| from <= j < first_at(s, c, from, to) ==> s[j] != c,
        first_at(s, c, from, to) < to ==> s[first_at(s, c, from, to)] == c,
    decreases to - from,
{
    if from < to && s[from] != c {
        lemma_first_at(s, c, from + 1, to);
    }
}

/// `skip_spaces` stays inside the window, skips only white space, and stops on
/// something else.
pub proof fn lemma_skip_spaces(s: Seq<char>, from: int, to: int)
    requires
        0 <= from <= to <= s.len(),
    ensures
        from <= skip_spaces(s, from, to) <= to,
        forall|j: int| from <= j < skip_spaces(s, from, to) ==> is_space(s[j]),
        skip_spaces(s, from, to) < to ==> !is_space(s[skip_spaces(s, from, to)]),
    decreases to - from,
{
    if from < to && is_space(s[from]) {
        lemma_skip_spaces(s, from + 1, to);
    }
}

/// `drop_spaces` stays inside the window, drops only white space, and stops
/// behind something else.
pub proof fn lemma_drop_spaces(s: Seq<char>, from: int, to: int)
    requires
        0 <= from <= to <= s.len(),
    ensures
        from <= drop_spaces(s, from, to) <= to,
        forall|j: int| drop_spaces(s, from, to) <= j < to ==> is_space(s[j]),
        from < drop_spaces(s, from, to) ==> !is_space(s[drop_spaces(s, from, to) - 1]),
    decreases to - from,
{
    if from < to && is_space(s[to - 1]) {
        lemma_drop_spaces(s, from, to - 1);
    }
}

/// A string of digits denotes at least what any of its prefixes denotes.
pub proof fn lemma_decimal_prefix(s: Seq<char>, k: int)
    requires
        0 <= k <= s.len(),
    ensures
        decimal_value(s.take(k)) <= decimal_value(s),
    decreases s.len() - k,
{
    if k == s.len() {
        assert(s.take(k) =~= s);
    } else {
        lemma_decimal_prefix(s, k + 1);
        assert(s.take(k + 1).drop_last() =~= s.take(k));
    }
}

/// The characters of `s`, one by one.
pub fn chars_of(s: &str) -> (v: Vec<char>)
    ensures
        v@ == s@,
{
    let mut v: Vec<char> = Vec::new();
    for c in it: s.chars()
        invariant
            it.seq() == s@,
            v@ == s@.take(it.index() as int),
    {
        v.push(c);
        assert(s@.take(it.index() + 1) =~= s@.take(it.index() as int).push(c));
    }
    assert(s@.take(s@.len() as int) =~= s@);
    v
}

/// Whether `c` is white space.
pub fn is_space_char(c: char) -> (b: bool)
    ensures
        b == is_space(c),
{
    let n: u32 = c as u32;
    (0x09 <= n && n <= 0x0d) || n == 0x20 || n == 0x85 || n == 0xa0 || n == 0x1680 || (0x2000 <= n
        && n <= 0x200a) || n == 0x2028 || n == 0x2029 || n == 0x202f || n == 0x205f || n == 0x3000
}

/// Finds the first `c` in the window `[from, to)` of `s`.
pub fn find_char(s: &Vec<char>, c: char, from: usize, to: usize) -> (i: usize)
    requires
        from <= to <= s.len(),
    ensures
        i == first_at(s@, c, from as int, to as int),
        from <= i <= to,
        forall|j: int| from <= j < i ==> s[j] != c,
        i < to ==> s[i as int] == c,
{
    proof {
        lemma_first_at(s@, c, from as int, to as int);
    }
    let mut i: usize = from;
    while i < to && s[i] != c
        invariant
            from <= i <= to <= s.len(),
            first_at(s@, c, i as int, to as int) == first_at(s@, c, from as int, to as int),
        decreases to - i,
    {
        i += 1;
    }
    i
}

/// Steps over the run of `c` that starts the window `[from, to)` of `s`.
pub fn skip_char_run(s: &Vec<char>, c: char, from: usize, to: usize) -> (i: usize)
    requires
        from <= to <= s.len(),
    ensures
        i == skip_run(s@, c, from as int, to as int),
        from <= i <= to,
{
    let mut i: usize = from;
    while i < to && s[i] == c
        invariant
            from <= i <= to <= s.len(),
            skip_run(s@, c, i as int, to as int) == skip_run(s@, c, from as int, to as int),
        decreases to - i,
    {
        i += 1;
    }
    i
}

/// Steps over the white space that starts the window `[from, to)` of `s`.
pub fn trim_front(s: &Vec<char>, from: usize, to: usize) -> (i: usize)
    requires
        from <= to <= s.len(),
    ensures
        i == skip_spaces(s@, from as int, to as int),
        from <= i <= to,
{
    let mut i: usize = from;
    while i < to && is_space_char(s[i])
        invariant
            from <= i <= to <= s.len(),
            skip_spaces(s@, i as int, to as int) == skip_spaces(s@, from as int, to as int),
        decreases to - i,
    {
        i += 1;
    }
    i
}

/// Steps back over the white space that ends the window `[from, to)` of `s`.
pub fn trim_back(s: &Vec<char>, from: usize, to: usize) -> (e: usize)
    requires
        from <= to <= s.len(),
    ensures
        e == drop_spaces(s@, from as int, to as int),
        from <= e <= to,
{
    let mut e: usize = to;
    while from < e && is_space_char(s[e - 1])
        invariant
            from <= e <= to <= s.len(),
            drop_spaces(s@, from as int, e as int) == drop_spaces(s@, from as int, to as int),
        decreases e - from,
    {
        e -= 1;
    }
    e
}

/// Reads the window `[from, to)` of `s` as an unsigned decimal number.
pub fn parse_decimal(s: &Vec<char>, from: usize, to: usize) -> (r: Option<u32>)
    requires
        from <= to <= s.len(),
    ensures
        r == decimal_u32(s@.subrange(from as int, to as int)),
{
    let ghost whole = s@.subrange(from as int, to as int);
    let start: usize = if from < to && s[from] == '+' {
        from + 1
    } else {
        from
    };
    let ghost digits = s@.subrange(start as int, to as int);
    assert(digits =~= if whole.len() > 0 && whole[0] == '+' {
        whole.skip(1)
    } else {
        whole
    });
    assert(decimal_u32(whole) == digits_u32(digits));
    if start == to {
        return None;
    }
    let mut acc: u64 = 0;
    let mut i: usize = start;
    while i < to
        invariant
            start <= i <= to <= s.len(),
            digits == s@.subrange(start as int, to as int),
            decimal_u32(s@.subrange(from as int, to as int)) == digits_u32(digits),
            all_digits(digits.take(i - start)),
            acc == decimal_value(digits.take(i - start)),
            acc <= u32::MAX,
        decreases to - i,
    {
        let c: char = s[i];
        if !('0' <= c && c <= '9') {
            assert(!is_digit(digits[i - start]));
            return None;
        }
        let d: u64 = (c as u32 - '0' as u32) as u64;
        let next: u64 = acc * 10 + d;
        proof {
            let k = i - start;
            assert(digits.take(k + 1).drop_last() =~= digits.take(k));
            assert(digits.take(k + 1).last() == c);
            assert(all_digits(digits.take(k + 1))) by {
                assert forall|j: int| 0 <= j < k + 1 implies is_digit(
                    #[trigger] digits.take(k + 1)[j],
                ) by {
                    if j < k {
                        assert(digits.take(k)[j] == digits.take(k + 1)[j]);
                    }
                }
            }
            assert(next == decimal_value(digits.take(k + 1)));
        }
        if next > 0xffff_ffff {
            proof {
                lemma_decimal_prefix(digits, i - start + 1);
            }
            return None;
        }
        acc = next;
        i += 1;
    }
    assert(digits.take(to - start) =~= digits);
    Some(acc as u32)
}

} // verus!
