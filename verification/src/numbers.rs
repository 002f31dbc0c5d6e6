//! Decimal parsing and printing of unsigned integers.

use vstd::prelude::*;

verus! {

pub open spec fn is_digit(c: char) -> bool {
    '0' <= c && c <= '9'
}

pub open spec fn digit_value(c: char) -> nat {
    ((c as u32) - ('0' as u32)) as nat
}

pub open spec fn all_digits(s: Seq<char>) -> bool {
    forall|i: int| 0 <= i < s.len() ==> is_digit(#[trigger] s[i])
}

/// The number written by the decimal digits `s`.
pub open spec fn decimal_value(s: Seq<char>) -> nat
    decreases s.len(),
{
    if s.len() == 0 {
        0
    } else {
        decimal_value(s.drop_last()) * 10 + digit_value(s.last())
    }
}

/// The digits of an unsigned-integer literal: an optional leading `+` is dropped.
pub open spec fn unsigned_digits(s: Seq<char>) -> Seq<char> {
    if s.len() > 0 && s[0] == '+' {
        s.drop_first()
    } else {
        s
    }
}

/// The value of `s` read as an unsigned decimal literal, as `str::parse` reads it for the
/// unsigned integer types: an optional `+`, then one digit or more, nothing else.
pub open spec fn parse_nat(s: Seq<char>) -> Option<nat> {
    let d = unsigned_digits(s);
    if d.len() > 0 && all_digits(d) {
        Some(decimal_value(d))
    } else {
        None
    }
}

/// What `str::parse` gives for an unsigned type whose largest value is `max`.
pub open spec fn parse_bounded(s: Seq<char>, max: nat) -> Option<nat> {
    match parse_nat(s) {
        Some(n) => if n <= max { Some(n) } else { None },
        None => None,
    }
}

pub proof fn lemma_decimal_prefix_monotone(d: Seq<char>, i: int, j: int)
    requires
        0 <= i <= j <= d.len(),
    ensures
        decimal_value(d.take(i)) <= decimal_value(d.take(j)),
    decreases j - i,
{
    if i < j {
        lemma_decimal_prefix_monotone(d, i, j - 1);
        assert(d.take(j).drop_last() =~= d.take(j - 1));
    }
}

/// Parses `v` as `str::parse::<uN>` does, for an unsigned type with largest value `max`.
pub fn parse_unsigned(v: &Vec<char>, max: u64) -> (r: Option<u64>)
    ensures
        r matches Some(n) ==> parse_bounded(v@, max as nat) == Some(n as nat),
        r is None ==> parse_bounded(v@, max as nat) is None,
{
    let start: usize = if v.len() > 0 && v[0] == '+' { 1 } else { 0 };
    let ghost d = unsigned_digits(v@);
    assert(d =~= v@.subrange(start as int, v@.len() as int));
    if start == v.len() {
        return None;
    }
    let mut acc: u64 = 0;
    let mut i = start;
    assert(d.take(0) =~= Seq::<char>::empty());
    while i < v.len()
        invariant
            start < v@.len(),
            start <= i <= v@.len(),
            d == v@.subrange(start as int, v@.len() as int),
            d == unsigned_digits(v@),
            all_digits(d.take(i - start)),
            acc as nat == decimal_value(d.take(i - start)),
            acc <= max,
        decreases v@.len() - i,
    {
        let c = v[i];
        assert(c == d[i - start]);
        if c < '0' || c > '9' {
            assert(!is_digit(d[i - start]));
            assert(!all_digits(d));
            assert(parse_nat(v@) is None);
            return None;
        }
        let dv = (c as u64) - ('0' as u64);
        assert(d.take(i - start + 1).drop_last() =~= d.take(i - start));
        assert(all_digits(d.take(i - start + 1)));
        if dv > max || acc > (max - dv) / 10 {
            proof {
                assert(acc * 10 + dv > max) by (nonlinear_arith)
                    requires dv > max || acc > (max - dv) / 10, acc >= 0;
                let k = d.len() as int;
                lemma_decimal_prefix_monotone(d, i - start + 1, k);
                assert(d.take(k) =~= d);
            }
            let mut j = i + 1;
            while j < v.len()
                invariant
                    i < j <= v@.len(),
                    start <= i,
                    d == v@.subrange(start as int, v@.len() as int),
                    d == unsigned_digits(v@),
                    decimal_value(d) > max || !all_digits(d),
                    forall|t: int| i - start < t < j - start ==> is_digit(#[trigger] d[t]),
                decreases v@.len() - j,
            {
                if v[j] < '0' || v[j] > '9' {
                    assert(!is_digit(d[j - start]));
                    assert(!all_digits(d));
                    assert(parse_nat(v@) is None);
                    return None;
                }
                j = j + 1;
            }
            assert(all_digits(d));
            assert(decimal_value(d) > max);
            return None;
        }
        proof {
            assert(acc * 10 + dv <= max) by (nonlinear_arith)
                requires acc <= (max - dv) / 10, dv <= 9, max >= 0;
        }
        acc = acc * 10 + dv;
        i = i + 1;
    }
    assert(d.take(i - start) =~= d);
    Some(acc)
}

/// Decimal digit character for `d < 10`.
pub open spec fn digit_char(d: nat) -> char {
    ((d + ('0' as u32)) as u32) as char
}

/// The decimal representation of `n`, as `Display` prints unsigned integers.
pub open spec fn decimal_text(n: nat) -> Seq<char>
    decreases n,
{
    if n < 10 {
        seq![digit_char(n)]
    } else {
        decimal_text(n / 10).push(digit_char(n % 10))
    }
}

/// Appends the decimal representation of `n` to `out`.
pub fn push_decimal(out: &mut Vec<char>, n: u64)
    ensures
        final(out)@ == old(out)@ + decimal_text(n as nat),
    decreases n,
{
    if n >= 10 {
        push_decimal(out, n / 10);
    }
    let d = (n % 10) as u8 + 48u8;
    let c = d as char;
    assert(c == digit_char((n % 10) as nat));
    out.push(c);
}


/// An optional `u64` as an optional natural number.
pub open spec fn opt_nat(o: Option<u64>) -> Option<nat> {
    match o {
        Some(n) => Some(n as nat),
        None => None,
    }
}


pub proof fn lemma_decimal_text_nonempty(n: nat)
    ensures
        decimal_text(n).len() >= 1,
        n >= 10 ==> decimal_text(n).len() >= 2,
    decreases n,
{
    if n >= 10 {
        lemma_decimal_text_nonempty(n / 10);
    }
}

/// Different numbers are written differently.
pub proof fn lemma_decimal_text_injective(a: nat, b: nat)
    requires
        decimal_text(a) == decimal_text(b),
    ensures
        a == b,
    decreases a,
{
    lemma_decimal_text_nonempty(a);
    lemma_decimal_text_nonempty(b);
    if a < 10 && b < 10 {
        assert(decimal_text(a)[0] == digit_char(a));
        assert(decimal_text(b)[0] == digit_char(b));
        assert((digit_char(a) as u32) == a + 48);
        assert((digit_char(b) as u32) == b + 48);
    } else if a >= 10 && b >= 10 {
        let da = decimal_text(a);
        let db = decimal_text(b);
        assert(da.last() == digit_char(a % 10));
        assert(db.last() == digit_char(b % 10));
        assert((digit_char(a % 10) as u32) == a % 10 + 48);
        assert((digit_char(b % 10) as u32) == b % 10 + 48);
        assert(da.drop_last() =~= decimal_text(a / 10));
        assert(db.drop_last() =~= decimal_text(b / 10));
        lemma_decimal_text_injective(a / 10, b / 10);
    }
}

} // verus!
