//! Decimal and octal text for integers, with the acceptance rules of Rust's
//! unsigned `FromStr` (an optional leading `+`, then one or more ASCII
//! digits, no overflow).
use vstd::prelude::*;

use crate::text::{push_all, string_of};

verus! {

/// ASCII decimal digit.
pub open spec fn is_digit(c: char) -> bool {
    '0' <= c && c <= '9'
}

/// Numeric value of a decimal digit.
pub open spec fn digit_value(c: char) -> int {
    (c as int) - ('0' as int)
}

/// Every character of `s` is a decimal digit.
pub open spec fn all_digits(s: Seq<char>) -> bool {
    forall|i: int| 0 <= i < s.len() ==> is_digit(#[trigger] s[i])
}

/// The value of a run of decimal digits.
pub open spec fn digits_value(s: Seq<char>) -> int
    decreases s.len(),
{
    if s.len() == 0 {
        0
    } else {
        digits_value(s.drop_last()) * 10 + digit_value(s.last())
    }
}

/// The digits after an optional leading `+`.
pub open spec fn unsigned_body(s: Seq<char>) -> Seq<char> {
    if s.len() > 0 && s[0] == '+' {
        s.drop_first()
    } else {
        s
    }
}

/// What an unsigned `FromStr` with maximum `max` yields for `s`.
pub open spec fn parse_unsigned(s: Seq<char>, max: int) -> Option<int> {
    let body = unsigned_body(s);
    if body.len() > 0 && all_digits(body) && digits_value(body) <= max {
        Some(digits_value(body))
    } else {
        None
    }
}

/// The decimal digit for `n < 10`.
pub open spec fn digit_char_of(n: int) -> char {
    (('0' as int) + n) as char
}

/// Decimal text of `n`, no sign, no leading zeros.
pub open spec fn decimal(n: nat) -> Seq<char>
    decreases n,
{
    if n < 10 {
        seq![digit_char_of(n as int)]
    } else {
        decimal(n / 10) + seq![digit_char_of((n % 10) as int)]
    }
}

/// The digit character for `k < 10` is a digit worth `k`.
pub proof fn lemma_digit_char_value(k: int)
    requires
        0 <= k < 10,
    ensures
        is_digit(digit_char_of(k)),
        digit_value(digit_char_of(k)) == k,
{
    let c = digit_char_of(k);
    assert((c as int) == ('0' as int) + k);
}

/// The value of a run of digits is never negative.
pub proof fn lemma_digits_value_nonneg(s: Seq<char>)
    requires
        all_digits(s),
    ensures
        digits_value(s) >= 0,
    decreases s.len(),
{
    if s.len() > 0 {
        lemma_digits_value_nonneg(s.drop_last());
    }
}

/// Decimal text is digits only, never empty, and reads back as `n`.
pub proof fn lemma_decimal(n: nat)
    ensures
        decimal(n).len() > 0,
        all_digits(decimal(n)),
        digits_value(decimal(n)) == n,
        decimal(n)[0] != '+',
    decreases n,
{
    lemma_digit_char_value((n % 10) as int);
    if n < 10 {
        assert(decimal(n).drop_last() =~= Seq::<char>::empty());
        assert(decimal(n).last() == digit_char_of(n as int));
        assert(digits_value(decimal(n)) == digits_value(decimal(n).drop_last()) * 10
            + digit_value(decimal(n).last()));
    } else {
        lemma_decimal(n / 10);
        let d = decimal(n / 10) + seq![digit_char_of((n % 10) as int)];
        assert(d.drop_last() == decimal(n / 10));
        assert((n / 10) * 10 + n % 10 == n) by (nonlinear_arith);
        assert(d.last() == digit_char_of((n % 10) as int));
        assert(decimal(n) == d);
        assert(digits_value(d) == digits_value(decimal(n / 10)) * 10 + (n % 10));
        assert forall|i: int| 0 <= i < d.len() implies is_digit(#[trigger] d[i]) by {
            if i < decimal(n / 10).len() {
                assert(d[i] == decimal(n / 10)[i]);
            }
        }
    }
}

/// Reading back the decimal text of any `n <= max` yields `n`.
pub proof fn lemma_parse_decimal(n: nat, max: int)
    requires
        n <= max,
    ensures
        parse_unsigned(decimal(n), max) == Some(n as int),
{
    lemma_decimal(n);
}

/// Parses `v` the way an unsigned `FromStr` with maximum `max` does.
pub fn parse_decimal(v: &[char], max: u64) -> (r: Option<u64>)
    requires
        max >= 9,
    ensures
        r matches Some(x) ==> x <= max && parse_unsigned(v@, max as int) == Some(x as int),
        r is None ==> parse_unsigned(v@, max as int) is None,
{
    let start: usize = if v.len() > 0 && v[0] == '+' {
        1
    } else {
        0
    };
    let ghost body = unsigned_body(v@);
    assert(body == v@.subrange(start as int, v@.len() as int));
    if start >= v.len() {
        return None;
    }
    let mut acc: u64 = 0;
    let mut over = false;
    let mut i = start;
    while i < v.len()
        invariant
            start <= i <= v@.len(),
            max >= 9,
            body == unsigned_body(v@),
            body == v@.subrange(start as int, v@.len() as int),
            all_digits(v@.subrange(start as int, i as int)),
            !over ==> acc as int == digits_value(v@.subrange(start as int, i as int)),
            over ==> digits_value(v@.subrange(start as int, i as int)) > max,
            acc <= max,
        decreases v@.len() - i,
    {
        let c = v[i];
        if !('0' <= c && c <= '9') {
            assert(!is_digit(body[i - start]));
            return None;
        }
        let d = ((c as u32) - ('0' as u32)) as u64;
        assert(d <= 9);
        let ghost prev = v@.subrange(start as int, i as int);
        let ghost next = v@.subrange(start as int, i + 1);
        assert(next.drop_last() == prev);
        assert(digits_value(next) == digits_value(prev) * 10 + d);
        assert forall|k: int| 0 <= k < next.len() implies is_digit(#[trigger] next[k]) by {
            if k < prev.len() {
                assert(next[k] == prev[k]);
            }
        }
        if !over {
            if acc > (max - d) / 10 {
                assert(acc * 10 + d > max) by (nonlinear_arith)
                    requires
                        acc > (max - d) / 10,
                        d <= max,
                ;
                over = true;
            } else {
                assert(acc * 10 + d <= max) by (nonlinear_arith)
                    requires
                        acc <= (max - d) / 10,
                        d <= max,
                ;
                acc = acc * 10 + d;
            }
        } else {
            proof {
                lemma_digits_value_nonneg(prev);
            }
        }
        i = i + 1;
    }
    if over {
        None
    } else {
        Some(acc)
    }
}

/// Parses a `usize` the way `str::parse::<usize>` does.
pub fn parse_usize(v: &[char]) -> (r: Option<usize>)
    ensures
        r matches Some(x) ==> parse_unsigned(v@, usize::MAX as int) == Some(x as int),
        r is None ==> parse_unsigned(v@, usize::MAX as int) is None,
{
    assert(usize::MAX as u64 as int == usize::MAX as int);
    let r = parse_decimal(v, usize::MAX as u64);
    assert(parse_unsigned(v@, (usize::MAX as u64) as int) == parse_unsigned(v@, usize::MAX as int));
    match r {
        Some(n) => {

            Some(n as usize)
        },
        None => None,
    }
}

/// Parses a `u32` the way `str::parse::<u32>` does.
pub fn parse_u32(v: &[char]) -> (r: Option<u32>)
    ensures
        r matches Some(x) ==> parse_unsigned(v@, u32::MAX as int) == Some(x as int),
        r is None ==> parse_unsigned(v@, u32::MAX as int) is None,
{
    let r = parse_decimal(v, u32::MAX as u64);
    assert(parse_unsigned(v@, (u32::MAX as u64) as int) == parse_unsigned(v@, u32::MAX as int));
    match r {
        Some(n) => {

            Some(n as u32)
        },
        None => None,
    }
}

/// Appends the decimal text of `n` to `out`.
pub fn push_decimal(out: &mut Vec<char>, n: u64)
    ensures
        final(out)@ == old(out)@ + decimal(n as nat),
    decreases n,
{
    if n >= 10 {
        push_decimal(out, n / 10);
    }
    let d = (n % 10) as u8;
    let c = (48u8 + d) as char;
    assert(c == digit_char_of((n % 10) as int));
    out.push(c);
}

/// Decimal text of `n`.
pub fn decimal_string(n: u64) -> (r: String)
    ensures
        r@ == decimal(n as nat),
{
    let mut out: Vec<char> = Vec::new();
    push_decimal(&mut out, n);
    string_of(out.as_slice())
}

/// Octal digits of `n`, no padding.
pub open spec fn octal(n: nat) -> Seq<char>
    decreases n,
{
    if n < 8 {
        seq![digit_char_of(n as int)]
    } else {
        octal(n / 8) + seq![digit_char_of((n % 8) as int)]
    }
}

/// `format!("{n:06o}")`: octal, left-padded with `0` to six characters.
pub open spec fn octal6(n: nat) -> Seq<char> {
    let o = octal(n);
    if o.len() >= 6 {
        o
    } else {
        Seq::new((6 - o.len()) as nat, |i: int| '0') + o
    }
}

/// Appends the octal digits of `n` to `out`.
pub fn push_octal(out: &mut Vec<char>, n: u32)
    ensures
        final(out)@ == old(out)@ + octal(n as nat),
    decreases n,
{
    if n >= 8 {
        push_octal(out, n / 8);
    }
    let d = (n % 8) as u8;
    let c = (48u8 + d) as char;
    assert(c == digit_char_of((n % 8) as int));
    out.push(c);
}

/// A file mode as six octal digits (`"100644"`, `"040000"`).
pub fn mode_string(mode: u32) -> (r: String)
    ensures
        r@ == octal6(mode as nat),
{
    let mut digits: Vec<char> = Vec::new();
    push_octal(&mut digits, mode);
    let mut out: Vec<char> = Vec::new();
    if digits.len() < 6 {
        let pad = 6 - digits.len();
        let mut i: usize = 0;
        while i < pad
            invariant
                i <= pad,
                out@ == Seq::new(i as nat, |k: int| '0'),
            decreases pad - i,
        {
            out.push('0');
            assert(out@ == Seq::new((i + 1) as nat, |k: int| '0'));
            i = i + 1;
        }
    }
    push_all(&mut out, digits.as_slice());
    string_of(out.as_slice())
}

} // verus!
