//! Text forms of field values: ASCII case-insensitive comparison, and
//! signed integers written in decimal or hexadecimal the way Rust's
//! integer `from_str` / `from_str_radix` read them (an optional `+` or
//! `-`, then one or more digits, no spaces, no separators).
use vstd::prelude::*;

use crate::text::chars_of;

verus! {

/// Code point of `c` with the ASCII capitals `A`..=`Z` mapped to lower
/// case; every other character is left alone.
pub open spec fn ascii_lower(c: char) -> u32 {
    if 65 <= (c as u32) <= 90 {
        (c as u32 + 32) as u32
    } else {
        c as u32
    }
}

/// `a` and `b` are equal up to ASCII case.
pub open spec fn eq_ignore_case(a: Seq<char>, b: Seq<char>) -> bool {
    &&& a.len() == b.len()
    &&& forall|i: int| 0 <= i < a.len() ==> ascii_lower(#[trigger] a[i]) == ascii_lower(b[i])
}

fn lower_code(c: char) -> (r: u32)
    ensures
        r == ascii_lower(c),
{
    let x = c as u32;
    if 65 <= x && x <= 90 {
        x + 32
    } else {
        x
    }
}

/// Compare two character sequences up to ASCII case.
pub fn chars_eq_ignore_case(a: &Vec<char>, b: &Vec<char>) -> (r: bool)
    ensures
        r == eq_ignore_case(a@, b@),
{
    if a.len() != b.len() {
        return false;
    }
    let mut i: usize = 0;
    while i < a.len()
        invariant
            i <= a@.len(),
            a@.len() == b@.len(),
            forall|k: int| 0 <= k < i ==> ascii_lower(#[trigger] a@[k]) == ascii_lower(b@[k]),
        decreases a@.len() - i,
    {
        if lower_code(a[i]) != lower_code(b[i]) {
            return false;
        }
        i = i + 1;
    }
    true
}

/// Compare two strings up to ASCII case (`str::eq_ignore_ascii_case`).
pub fn eq_ignore_ascii_case(a: &str, b: &str) -> (r: bool)
    ensures
        r == eq_ignore_case(a@, b@),
{
    let ca = chars_of(a);
    let cb = chars_of(b);
    chars_eq_ignore_case(&ca, &cb)
}

/// The word `none`.
pub open spec fn none_word() -> Seq<char> {
    seq!['n', 'o', 'n', 'e']
}

/// Whether `s` is `none` in any ASCII case.
pub fn is_none_word(s: &str) -> (r: bool)
    ensures
        r == eq_ignore_case(s@, none_word()),
{
    let cs = chars_of(s);
    let word: Vec<char> = vec!['n', 'o', 'n', 'e'];
    assert(word@ =~= none_word());
    chars_eq_ignore_case(&cs, &word)
}

//================================================================================
// White space
//================================================================================

/// `c` is white space in Unicode's sense (the `White_Space` property
/// that `char::is_whitespace` and `str::trim` go by).
pub open spec fn is_white(c: char) -> bool {
    let x = c as u32;
    ||| 9 <= x <= 13
    ||| x == 32
    ||| x == 0x85
    ||| x == 0xA0
    ||| x == 0x1680
    ||| 0x2000 <= x <= 0x200A
    ||| x == 0x2028
    ||| x == 0x2029
    ||| x == 0x202F
    ||| x == 0x205F
    ||| x == 0x3000
}

fn white(c: char) -> (r: bool)
    ensures
        r == is_white(c),
{
    let x = c as u32;
    (9 <= x && x <= 13) || x == 32 || x == 0x85 || x == 0xA0 || x == 0x1680 || (0x2000 <= x && x <= 0x200A) || x
        == 0x2028 || x == 0x2029 || x == 0x202F || x == 0x205F || x == 0x3000
}

/// `s` without its leading white space.
pub open spec fn trim_start(s: Seq<char>) -> Seq<char>
    decreases s.len(),
{
    if s.len() > 0 && is_white(s[0]) {
        trim_start(s.drop_first())
    } else {
        s
    }
}

/// `s` without its trailing white space.
pub open spec fn trim_end(s: Seq<char>) -> Seq<char>
    decreases s.len(),
{
    if s.len() > 0 && is_white(s.last()) {
        trim_end(s.drop_last())
    } else {
        s
    }
}

/// `s` without leading and trailing white space (`str::trim`).
pub open spec fn trimmed(s: Seq<char>) -> Seq<char> {
    trim_end(trim_start(s))
}

/// The bounds of `cs[from..to]` trimmed: `cs[a..b]` is
/// [`trimmed`]`(cs[from..to])`.
pub fn trim_range(cs: &Vec<char>, from: usize, to: usize) -> (r: (usize, usize))
    requires
        from <= to <= cs@.len(),
    ensures
        from <= r.0 <= r.1 <= to,
        cs@.subrange(r.0 as int, r.1 as int) == trimmed(cs@.subrange(from as int, to as int)),
{
    let mut a = from;
    while a < to && white(cs[a])
        invariant
            from <= a <= to <= cs@.len(),
            trim_start(cs@.subrange(from as int, to as int)) == trim_start(cs@.subrange(a as int, to as int)),
        decreases to - a,
    {
        assert(cs@.subrange(a as int, to as int).drop_first() =~= cs@.subrange(a + 1, to as int));
        a = a + 1;
    }
    let mut b = to;
    while b > a && white(cs[b - 1])
        invariant
            from <= a <= b <= to <= cs@.len(),
            trim_end(cs@.subrange(a as int, to as int)) == trim_end(cs@.subrange(a as int, b as int)),
        decreases b - a,
    {
        assert(cs@.subrange(a as int, b as int).drop_last() =~= cs@.subrange(a as int, b - 1));
        b = b - 1;
    }
    (a, b)
}

//================================================================================
// Integers
//================================================================================

/// Value of the digit `c` in base `radix` (`0`-`9`, then `a`-`z` or
/// `A`-`Z` for ten and up), as `char::to_digit` gives it.
pub open spec fn digit_value(c: char, radix: u32) -> Option<nat> {
    let x = c as u32;
    let d: int = if 48 <= x <= 57 {
        x - 48
    } else if 97 <= x <= 122 {
        x - 87
    } else if 65 <= x <= 90 {
        x - 55
    } else {
        radix as int
    };
    if d < radix {
        Some(d as nat)
    } else {
        None
    }
}

/// Digits have the values `char::to_digit` gives them: `'0' + k` is `k`,
/// and the `k`-th letter of the alphabet is `10 + k` in either case; a
/// character is a digit exactly when its value is below the radix.
pub proof fn lemma_digit_values(k: u32, radix: u32)
    ensures
        k < 10 ==> digit_value((48 + k) as char, radix) == if k < radix {
            Some(k as nat)
        } else {
            None
        },
        k < 26 ==> digit_value((97 + k) as char, radix) == if 10 + k < radix {
            Some((10 + k) as nat)
        } else {
            None
        },
        k < 26 ==> digit_value((65 + k) as char, radix) == digit_value((97 + k) as char, radix),
{
}

/// A character other than an ASCII digit or letter is a digit in no base
/// up to 36.
pub proof fn lemma_non_alphanumeric_is_no_digit(c: char, radix: u32)
    requires
        radix <= 36,
        !('0' <= c <= '9' || 'a' <= c <= 'z' || 'A' <= c <= 'Z'),
    ensures
        digit_value(c, radix) is None,
{
}

/// Every character of `s` is a digit in base `radix`.
pub open spec fn all_digits(s: Seq<char>, radix: u32) -> bool {
    forall|i: int| 0 <= i < s.len() ==> (#[trigger] digit_value(s[i], radix)) is Some
}

/// The number the digits of `s` denote in base `radix`.
pub open spec fn digits_value(s: Seq<char>, radix: u32) -> nat
    decreases s.len(),
{
    if s.len() == 0 {
        0
    } else {
        let d: nat = match digit_value(s.last(), radix) {
            Some(d) => d,
            None => 0,
        };
        digits_value(s.drop_last(), radix) * (radix as nat) + d
    }
}

/// The integer the text `s` denotes in base `radix`, if it lies in
/// `lo..=hi`: an optional sign (`+` or `-`) followed by at least one
/// digit. `None` for any other text or a value out of range.
pub open spec fn int_text_value(s: Seq<char>, radix: u32, lo: int, hi: int) -> Option<int> {
    let signed = s.len() > 0 && (s[0] == '-' || s[0] == '+');
    let body = if signed {
        s.drop_first()
    } else {
        s
    };
    if body.len() == 0 || !all_digits(body, radix) {
        None
    } else {
        let m = digits_value(body, radix) as int;
        let v = if s[0] == '-' {
            -m
        } else {
            m
        };
        if lo <= v <= hi {
            Some(v)
        } else {
            None
        }
    }
}

fn digit_of(c: char, radix: u32) -> (r: Option<u32>)
    requires
        radix <= 36,
    ensures
        r matches Some(d) ==> digit_value(c, radix) == Some(d as nat),
        r is None ==> digit_value(c, radix) is None,
{
    let x = c as u32;
    let d: u32 = if 48 <= x && x <= 57 {
        x - 48
    } else if 97 <= x && x <= 122 {
        x - 87
    } else if 65 <= x && x <= 90 {
        x - 55
    } else {
        radix
    };
    if d < radix {
        Some(d)
    } else {
        None
    }
}

/// One past the largest magnitude any `i64` can have; accumulation
/// saturates there.
pub open spec fn mag_cap() -> int {
    0x1_0000_0000_0000_0000
}

proof fn lemma_saturating_step(v: int, r: int, d: int)
    requires
        v >= 0,
        r >= 1,
        0 <= d,
    ensures
        (if v < mag_cap() { v } else { mag_cap() }) * r + d >= mag_cap() ==> v * r + d >= mag_cap(),
        v >= mag_cap() ==> v * r + d >= mag_cap(),
        v >= mag_cap() ==> mag_cap() * r + d >= mag_cap(),
{
    assert(v >= mag_cap() ==> v * r >= mag_cap() * r) by (nonlinear_arith)
        requires
            r >= 1,
    ;
    assert(mag_cap() * r >= mag_cap()) by (nonlinear_arith)
        requires
            r >= 1,
    ;
}

/// Parse `cs[from..]` as an integer in base `radix` within `lo..=hi`
/// ([`int_text_value`]).
pub fn parse_int_chars(cs: &Vec<char>, from: usize, radix: u32, lo: i64, hi: i64) -> (r: Option<i64>)
    requires
        from <= cs@.len(),
        2 <= radix <= 36,
    ensures
        match int_text_value(cs@.skip(from as int), radix, lo as int, hi as int) {
            Some(v) => r == Some(v as i64),
            None => r is None,
        },
{
    let ghost s = cs@.skip(from as int);
    let n = cs.len();
    let mut start = from;
    let neg = from < n && cs[from] == '-';
    if from < n && (cs[from] == '-' || cs[from] == '+') {
        start = from + 1;
    }
    let ghost body = cs@.subrange(start as int, n as int);
    assert(body =~= if s.len() > 0 && (s[0] == '-' || s[0] == '+') {
        s.drop_first()
    } else {
        s
    });
    if start == n {
        return None;
    }
    let cap: u128 = 0x1_0000_0000_0000_0000;
    let mut acc: u128 = 0;
    let mut i = start;
    assert(cs@.subrange(start as int, start as int) =~= Seq::<char>::empty());
    while i < n
        invariant
            from <= start < n,
            start <= i <= n,
            n == cs@.len(),
            2 <= radix <= 36,
            cap == mag_cap(),
            body == cs@.subrange(start as int, n as int),
            s == cs@.skip(from as int),
            body == if s.len() > 0 && (s[0] == '-' || s[0] == '+') {
                s.drop_first()
            } else {
                s
            },
            all_digits(cs@.subrange(start as int, i as int), radix),
            acc == if digits_value(cs@.subrange(start as int, i as int), radix) < mag_cap() {
                digits_value(cs@.subrange(start as int, i as int), radix) as int
            } else {
                mag_cap()
            },
        decreases n - i,
    {
        match digit_of(cs[i], radix) {
            None => {
                assert(body[i - start] == cs@[i as int]);
                assert(!all_digits(body, radix));
                return None;
            },
            Some(d) => {
                let ghost prev = cs@.subrange(start as int, i as int);
                let ghost next = cs@.subrange(start as int, i + 1);
                assert(next.drop_last() =~= prev);
                assert(next.last() == cs@[i as int]);
                assert(digits_value(next, radix) == digits_value(prev, radix) * (radix as nat) + d);
                proof {
                    lemma_saturating_step(digits_value(prev, radix) as int, radix as int, d as int);
                }
                assert(acc * (radix as u128) <= mag_cap() * 36) by (nonlinear_arith)
                    requires
                        acc <= mag_cap(),
                        radix <= 36,
                ;
                let step = acc * (radix as u128) + (d as u128);
                acc = if step < cap {
                    step
                } else {
                    cap
                };
                assert(all_digits(next, radix)) by {
                    assert forall|k: int| 0 <= k < next.len() implies (#[trigger] digit_value(next[k], radix)) is Some by {
                        if k < prev.len() {
                            assert(next[k] == prev[k]);
                        }
                    }
                }
                i = i + 1;
            },
        }
    }
    assert(cs@.subrange(start as int, i as int) == body);
    if acc >= cap {
        return None;
    }
    let mag = acc as i128;
    let v: i128 = if neg {
        -mag
    } else {
        mag
    };
    if (lo as i128) <= v && v <= (hi as i128) {
        Some(v as i64)
    } else {
        None
    }
}

/// Parse `s` as a decimal integer within `lo..=hi`.
pub fn parse_decimal(s: &str, lo: i64, hi: i64) -> (r: Option<i64>)
    ensures
        match int_text_value(s@, 10, lo as int, hi as int) {
            Some(v) => r == Some(v as i64),
            None => r is None,
        },
{
    let cs = chars_of(s);
    assert(cs@.skip(0) =~= cs@);
    parse_int_chars(&cs, 0, 10, lo, hi)
}

} // verus!
