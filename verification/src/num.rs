use vstd::prelude::*;

use crate::text::is_digit;

verus! {

/// The character of a digit value below 16 (lower-case above 9).
pub open spec fn digit_char(d: nat) -> char {
    if d == 0 { '0' } else if d == 1 { '1' } else if d == 2 { '2' } else if d == 3 { '3' }
    else if d == 4 { '4' } else if d == 5 { '5' } else if d == 6 { '6' } else if d == 7 { '7' }
    else if d == 8 { '8' } else if d == 9 { '9' } else if d == 10 { 'a' } else if d == 11 { 'b' }
    else if d == 12 { 'c' } else if d == 13 { 'd' } else if d == 14 { 'e' } else { 'f' }
}

/// The value of a decimal digit character.
pub open spec fn digit_value(c: char) -> nat {
    (c as u32 - '0' as u32) as nat
}

/// `n` written in base `b` with no leading zeros (`"0"` for zero), as `format!` renders it.
pub open spec fn in_base(n: nat, b: nat) -> Seq<char>
    recommends
        2 <= b <= 16,
    decreases n,
{
    if n < b || b < 2 {
        seq![digit_char(n)]
    } else {
        proof {
            assert(n / b < n) by (nonlinear_arith)
                requires
                    n >= b,
                    b >= 2,
            ;
        }
        in_base(n / b, b).push(digit_char(n % b))
    }
}

pub open spec fn decimal(n: nat) -> Seq<char> {
    in_base(n, 10)
}

/// `{:02}`: at least two characters, padded with a leading zero.
pub open spec fn pad2(s: Seq<char>) -> Seq<char> {
    if s.len() < 2 {
        seq!['0'] + s
    } else {
        s
    }
}

pub fn digit_char_exec(d: u64) -> (c: char)
    requires
        d < 16,
    ensures
        c == digit_char(d as nat),
{
    if d == 0 { '0' } else if d == 1 { '1' } else if d == 2 { '2' } else if d == 3 { '3' }
    else if d == 4 { '4' } else if d == 5 { '5' } else if d == 6 { '6' } else if d == 7 { '7' }
    else if d == 8 { '8' } else if d == 9 { '9' } else if d == 10 { 'a' } else if d == 11 { 'b' }
    else if d == 12 { 'c' } else if d == 13 { 'd' } else if d == 14 { 'e' } else { 'f' }
}

pub fn fmt_base(n: u64, b: u64) -> (r: Vec<char>)
    requires
        2 <= b <= 16,
    ensures
        r@ == in_base(n as nat, b as nat),
{
    let mut m = n;
    let mut r: Vec<char> = Vec::new();
    while m >= b
        invariant
            2 <= b <= 16,
            in_base(n as nat, b as nat) == in_base(m as nat, b as nat) + r@,
        decreases m,
    {
        let d = m % b;
        let ghost old_r = r@;
        r.insert(0, digit_char_exec(d));
        proof {
            assert(in_base(m as nat, b as nat) == in_base((m / b) as nat, b as nat).push(
                digit_char((m % b) as nat),
            ));
            assert(in_base((m / b) as nat, b as nat).push(digit_char((m % b) as nat)) + old_r
                =~= in_base((m / b) as nat, b as nat) + r@);
        }
        m = m / b;
    }
    r.insert(0, digit_char_exec(m));
    assert(in_base(n as nat, b as nat) =~= r@);
    r
}

pub fn fmt_decimal(n: u64) -> (r: Vec<char>)
    ensures
        r@ == decimal(n as nat),
{
    fmt_base(n, 10)
}

pub fn fmt_pad2(n: u64) -> (r: Vec<char>)
    ensures
        r@ == pad2(decimal(n as nat)),
{
    let mut r = fmt_decimal(n);
    if r.len() < 2 {
        r.insert(0, '0');
        assert(r@ =~= seq!['0'] + decimal(n as nat));
    }
    r
}

/// Every character is an ASCII digit.
pub open spec fn all_digits(s: Seq<char>) -> bool {
    forall|i: int| 0 <= i < s.len() ==> is_digit(#[trigger] s[i])
}

/// The number a run of decimal digits spells.
pub open spec fn digits_value(s: Seq<char>) -> nat
    decreases s.len(),
{
    if s.len() == 0 {
        0
    } else {
        digits_value(s.drop_last()) * 10 + digit_value(s.last())
    }
}

/// `str::parse` for an unsigned integer type whose largest value is `max`:
/// an optional `+`, then at least one ASCII digit, and a value that fits.
pub open spec fn parse_unsigned(s: Seq<char>, max: nat) -> Option<nat> {
    let d = if s.len() > 0 && s[0] == '+' { s.drop_first() } else { s };
    if d.len() == 0 || !all_digits(d) || digits_value(d) > max {
        None
    } else {
        Some(digits_value(d))
    }
}

pub proof fn lemma_digits_value_grows(s: Seq<char>, i: int)
    requires
        0 <= i <= s.len(),
        all_digits(s),
    ensures
        digits_value(s.take(i)) <= digits_value(s),
    decreases s.len() - i,
{
    if i < s.len() {
        lemma_digits_value_grows(s, i + 1);
        assert(s.take(i + 1).drop_last() =~= s.take(i));
    } else {
        assert(s.take(i) =~= s);
    }
}

pub fn is_digit_exec(c: char) -> (r: bool)
    ensures
        r == is_digit(c),
{
    '0' <= c && c <= '9'
}

/// Parses an unsigned value no larger than `max`, as `str::parse` does.
pub fn parse_unsigned_exec(s: &Vec<char>, max: u64) -> (r: Option<u64>)
    ensures
        match r {
            Some(x) => parse_unsigned(s@, max as nat) == Some(x as nat),
            None => parse_unsigned(s@, max as nat) is None,
        },
{
    let start: usize = if s.len() > 0 && s[0] == '+' { 1 } else { 0 };
    let ghost d = if s@.len() > 0 && s@[0] == '+' { s@.drop_first() } else { s@ };
    assert(d =~= s@.subrange(start as int, s@.len() as int));
    if start >= s.len() {
        return None;
    }
    let mut acc: u64 = 0;
    let mut i = start;
    while i < s.len()
        invariant
            start <= i <= s.len(),
            d == (if s@.len() > 0 && s@[0] == '+' { s@.drop_first() } else { s@ }),
            d =~= s@.subrange(start as int, s@.len() as int),
            acc as nat == digits_value(d.take(i - start)),
            acc <= max,
            all_digits(d.take(i - start)),
        decreases s.len() - i,
    {
        let c = s[i];
        assert(d.take(i - start + 1).drop_last() =~= d.take(i - start));
        assert(d[i - start] == c);
        if !is_digit_exec(c) {
            assert(!all_digits(d)) by {
                assert(!is_digit(d[i - start]));
            }
            assert(parse_unsigned(s@, max as nat) is None);
            return None;
        }
        let v = (c as u32 - '0' as u32) as u64;
        assert(digits_value(d.take(i - start + 1)) == acc * 10 + v);
        if v > max || acc > (max - v) / 10 {
            proof {
                assert(acc * 10 + v > max) by (nonlinear_arith)
                    requires
                        v > max || acc > (max - v) / 10,
                ;
                if all_digits(d) {
                    lemma_digits_value_grows(d, i - start + 1);
                }
            }
            assert(parse_unsigned(s@, max as nat) is None);
            return None;
        }
        assert(acc * 10 + v <= max) by (nonlinear_arith)
            requires
                acc <= (max - v) / 10,
                v <= max,
        ;
        acc = acc * 10 + v;
        i = i + 1;
    }
    assert(d.take(s.len() - start) =~= d);
    Some(acc)
}

} // verus!

verus! {

/// `n` in decimal, for 128-bit values.
pub fn fmt_decimal_u128(n: u128) -> (r: Vec<char>)
    ensures
        r@ == decimal(n as nat),
{
    let mut m = n;
    let mut r: Vec<char> = Vec::new();
    while m >= 10
        invariant
            in_base(n as nat, 10) == in_base(m as nat, 10) + r@,
        decreases m,
    {
        let d = m % 10;
        let ghost old_r = r@;
        r.insert(0, digit_char_exec(d as u64));
        proof {
            assert(in_base(m as nat, 10) == in_base((m / 10) as nat, 10).push(digit_char((m % 10) as nat)));
            assert(in_base((m / 10) as nat, 10).push(digit_char((m % 10) as nat)) + old_r
                =~= in_base((m / 10) as nat, 10) + r@);
        }
        m = m / 10;
    }
    r.insert(0, digit_char_exec(m as u64));
    assert(in_base(n as nat, 10) =~= r@);
    r
}

} // verus!
