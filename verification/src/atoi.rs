//! Parsing ASCII digits into integers, bounding each digit of a full-width input by the digits
//! of the largest value.
use vstd::prelude::*;

use crate::num::{
    all_digits, decimal_value, digit_value, is_digit, lemma_decimal_nonneg,
    lemma_decimal_prefix_monotone, lemma_decimal_take_step, lemma_pow_bound, lemma_pow10_mono,
    pow10, sign_of, unsigned_part, has_sign,
};

verus! {

/// The digits of `u64::MAX`.
pub open spec fn u64_max_digits() -> Seq<u8> {
    seq![49u8, 56, 52, 52, 54, 55, 52, 52, 48, 55, 51, 55, 48, 57, 53, 53, 49, 54, 49, 53]
}

/// The digits of `i64::MAX`.
pub open spec fn i64_max_digits() -> Seq<u8> {
    seq![57u8, 50, 50, 51, 51, 55, 50, 48, 51, 54, 56, 53, 52, 55, 55, 53, 56, 48, 55]
}

/// The text of `i64::MIN`.
pub open spec fn i64_min_text() -> Seq<u8> {
    seq![45u8].add(i64_max_digits().drop_last().push(56u8))
}

/// `true` when every byte of `s` is at least `0` and at most the byte at the same index of `max`.
pub open spec fn digits_within(s: Seq<u8>, max: Seq<u8>) -> bool {
    s.len() == max.len() && forall|i: int| 0 <= i < s.len() ==> 48 <= #[trigger] s[i] <= max[i]
}

/// What [`atou`] returns for `s`.
pub open spec fn spec_atou(s: Seq<u8>) -> Option<u64> {
    if s.len() == 0 || s.len() > 20 {
        None
    } else if s.len() == 20 {
        if digits_within(s, u64_max_digits()) {
            Some(decimal_value(s) as u64)
        } else {
            None
        }
    } else if all_digits(s) {
        Some(decimal_value(s) as u64)
    } else {
        None
    }
}

/// What [`atoi`] returns for `s`.
pub open spec fn spec_atoi(s: Seq<u8>) -> Option<i64> {
    let digits = unsigned_part(s);
    if s == i64_min_text() {
        Some(i64::MIN)
    } else if digits.len() == 0 || digits.len() > 19 {
        None
    } else if digits.len() == 19 {
        if digits_within(digits, i64_max_digits()) {
            Some((sign_of(s) * decimal_value(digits)) as i64)
        } else {
            None
        }
    } else if all_digits(digits) {
        Some((sign_of(s) * decimal_value(digits)) as i64)
    } else {
        None
    }
}

/// The digits of `u64::MAX` and `i64::MAX` have the values of those integers.
pub proof fn lemma_max_digits()
    ensures
        decimal_value(u64_max_digits()) == u64::MAX,
        decimal_value(i64_max_digits()) == i64::MAX,
        all_digits(u64_max_digits()),
        all_digits(i64_max_digits()),
{
    reveal_with_fuel(decimal_value, 21);
    assert(decimal_value(u64_max_digits()) == u64::MAX);
    assert(decimal_value(i64_max_digits()) == i64::MAX);
}

/// Digits bounded one by one by the digits of `max` have a value no more than that of `max`.
pub proof fn lemma_digits_within_bound(s: Seq<u8>, max: Seq<u8>, i: int)
    requires
        s.len() == max.len(),
        0 <= i <= s.len(),
        forall|k: int| 0 <= k < i ==> 48 <= #[trigger] s[k] <= max[k],
        all_digits(max),
    ensures
        0 <= decimal_value(s.take(i)) <= decimal_value(max.take(i)),
    decreases i,
{
    if i > 0 {
        lemma_digits_within_bound(s, max, i - 1);
        lemma_decimal_take_step(s, i - 1);
        lemma_decimal_take_step(max, i - 1);
        assert(is_digit(max[i - 1]));
    }
}

/// Digit `i` of `u64::MAX`.
fn u64_max_digit(i: usize) -> (r: u8)
    requires
        i < 20,
    ensures
        r == u64_max_digits()[i as int],
{
    match i {
        0 => 49,
        1 => 56,
        2 => 52,
        3 => 52,
        4 => 54,
        5 => 55,
        6 => 52,
        7 => 52,
        8 => 48,
        9 => 55,
        10 => 51,
        11 => 55,
        12 => 48,
        13 => 57,
        14 => 53,
        15 => 53,
        16 => 49,
        17 => 54,
        18 => 49,
        _ => 53,
    }
}

/// Digit `i` of `i64::MAX`.
fn i64_max_digit(i: usize) -> (r: u8)
    requires
        i < 19,
    ensures
        r == i64_max_digits()[i as int],
{
    match i {
        0 => 57,
        1 => 50,
        2 => 50,
        3 => 51,
        4 => 51,
        5 => 55,
        6 => 50,
        7 => 48,
        8 => 51,
        9 => 54,
        10 => 56,
        11 => 53,
        12 => 52,
        13 => 55,
        14 => 55,
        15 => 53,
        16 => 56,
        17 => 48,
        _ => 55,
    }
}

/// Parse ascii to unsigned integer.
pub fn atou(text: &[u8]) -> (res: Option<u64>)
    ensures
        res == spec_atou(text@),
{
    if text.len() > 20 || text.len() == 0 {
        return None;
    }
    if text.len() == 20 {
        return atou_max(text);
    }
    let ghost s = text@;
    let mut o: u64 = 0;
    let mut i: usize = 0;
    assert(s.take(0) =~= Seq::<u8>::empty());
    while i < text.len()
        invariant
            0 <= i <= text.len() < 20,
            s == text@,
            all_digits(s.take(i as int)),
            o as int == decimal_value(s.take(i as int)),
        decreases text.len() - i,
    {
        let n = text[i];
        if n < 48 || n > 57 {
            assert(!is_digit(s[i as int]));
            return None;
        }
        proof {
            lemma_decimal_take_step(s, i as int);
            assert(all_digits(s.take(i + 1))) by {
                assert forall|k: int| 0 <= k < i + 1 implies is_digit(
                    #[trigger] s.take(i + 1)[k],
                ) by {
                    if k < i {
                        assert(s.take(i + 1)[k] == s.take(i as int)[k]);
                    }
                }
            }
            lemma_pow_bound(s.take(i + 1));
            lemma_pow10_mono((i + 1) as nat, 19);
            assert(pow10(19) == 10_000_000_000_000_000_000int) by {
                reveal_with_fuel(pow10, 20);
            }
        }
        o = o * 10 + (n - 48) as u64;
        i = i + 1;
    }
    assert(s.take(i as int) =~= s);
    Some(o)
}

/// Parse exactly 20 ascii digits, each bounded by the digit of `u64::MAX` at the same index.
fn atou_max(text: &[u8]) -> (res: Option<u64>)
    requires
        text@.len() == 20,
    ensures
        res == spec_atou(text@),
{
    let ghost s = text@;
    let ghost m = u64_max_digits();
    proof {
        lemma_max_digits();
    }
    let mut o: u64 = 0;
    let mut i: usize = 0;
    while i < 20
        invariant
            0 <= i <= 20,
            s == text@,
            s.len() == 20,
            m == u64_max_digits(),
            decimal_value(m) == u64::MAX,
            all_digits(m),
            forall|k: int| 0 <= k < i ==> 48 <= #[trigger] s[k] <= m[k],
            o as int == decimal_value(s.take(i as int)),
        decreases 20 - i,
    {
        let n = text[i];
        let max = u64_max_digit(i);
        if n < 48 || n > max {
            assert(!digits_within(s, m));
            return None;
        }
        proof {
            lemma_decimal_take_step(s, i as int);
            lemma_digits_within_bound(s, m, i + 1);
            lemma_decimal_prefix_monotone(m, i + 1, 20);
            assert(m.take(20) =~= m);
        }
        o = o * 10 + (n - 48) as u64;
        i = i + 1;
    }
    assert(s.take(20) =~= s);
    Some(o)
}

/// Parse ascii to signed integer.
#[verifier::spinoff_prover]
pub fn atoi(text: &[u8]) -> (res: Option<i64>)
    ensures
        res == spec_atoi(text@),
{
    let ghost s = text@;
    if is_min_text(text) {
        return Some(i64::MIN);
    }
    if text.len() == 0 {
        assert(unsigned_part(s).len() == 0);
        return None;
    }
    let first = text[0];
    let signed = first == 43 || first == 45;
    let sign: i64 = if first == 45 { -1 } else { 1 };
    let start: usize = if signed { 1 } else { 0 };
    let ghost digits = unsigned_part(s);
    assert(digits =~= s.subrange(start as int, s.len() as int));
    let len = text.len() - start;
    if len > 19 || len == 0 {
        return None;
    }
    let is_max = len == 19;
    let ghost m = i64_max_digits();
    proof {
        lemma_max_digits();
    }
    let mut o: i64 = 0;
    let mut i: usize = 0;
    assert(digits.take(0) =~= Seq::<u8>::empty());
    while i < len
        invariant
            0 <= i <= len <= 19,
            len == digits.len(),
            s == text@,
            start + len == s.len(),
            digits == s.subrange(start as int, s.len() as int),
            digits == unsigned_part(s),
            s != i64_min_text(),
            is_max == (len == 19),
            m == i64_max_digits(),
            decimal_value(m) == i64::MAX,
            all_digits(m),
            sign == sign_of(s),
            is_max ==> forall|k: int| 0 <= k < i ==> 48 <= #[trigger] digits[k] <= m[k],
            all_digits(digits.take(i as int)),
            o as int == decimal_value(digits.take(i as int)),
        decreases len - i,
    {
        let n = text[start + i];
        assert(n == digits[i as int]);
        let bound: u8 = if is_max { i64_max_digit(i) } else { 57 };
        if n < 48 || n > bound {
            if is_max {
                assert(!digits_within(digits, m));
            } else {
                assert(!is_digit(digits[i as int]));
            }
            return None;
        }
        proof {
            lemma_atoi_step(digits, i as int, is_max);
        }
        o = o * 10 + (n - 48) as i64;
        i = i + 1;
    }
    assert(digits.take(i as int) =~= digits);
    if is_max {
        assert(digits_within(digits, m));
    }
    proof {
        lemma_decimal_nonneg(digits);
        assert(o as int == decimal_value(digits));
        assert(sign == 1 || sign == -1);
        assert(sign_of(s) * decimal_value(digits) == o * sign);
        assert(spec_atoi(s) == Some((sign_of(s) * decimal_value(digits)) as i64));
    }
    Some(o * sign)
}

/// One more accepted digit keeps the value of the digits within `i64`.
proof fn lemma_atoi_step(digits: Seq<u8>, i: int, is_max: bool)
    requires
        0 <= i < digits.len() <= 19,
        is_max == (digits.len() == 19),
        is_max ==> forall|k: int| 0 <= k < i ==> 48 <= #[trigger] digits[k] <= i64_max_digits()[k],
        is_max ==> 48 <= digits[i] <= i64_max_digits()[i],
        !is_max ==> 48 <= digits[i] <= 57,
        all_digits(digits.take(i)),
    ensures
        all_digits(digits.take(i + 1)),
        decimal_value(digits.take(i + 1)) == decimal_value(digits.take(i)) * 10 + digit_value(
            digits[i],
        ),
        0 <= decimal_value(digits.take(i + 1)) <= i64::MAX,
{
    let m = i64_max_digits();
    lemma_max_digits();
    lemma_decimal_take_step(digits, i);
    assert(is_digit(m[i]));
    assert(all_digits(digits.take(i + 1))) by {
        assert forall|k: int| 0 <= k < i + 1 implies is_digit(#[trigger] digits.take(i + 1)[k]) by {
            if k < i {
                assert(digits.take(i + 1)[k] == digits.take(i)[k]);
            }
        }
    }
    if is_max {
        assert forall|k: int| 0 <= k < i + 1 implies 48 <= #[trigger] digits[k] <= m[k] by {}
        lemma_digits_within_bound(digits, m, i + 1);
        lemma_decimal_prefix_monotone(m, i + 1, 19);
        assert(m.take(19) =~= m);
    } else {
        lemma_pow_bound(digits.take(i + 1));
        lemma_pow10_mono((i + 1) as nat, 18);
        assert(pow10(18) == 1_000_000_000_000_000_000int) by {
            reveal_with_fuel(pow10, 19);
        }
    }
}

/// `true` when `text` is the text of `i64::MIN`.
fn is_min_text(text: &[u8]) -> (r: bool)
    ensures
        r == (text@ == i64_min_text()),
{
    let ghost t = i64_min_text();
    assert(t.len() == 20);
    if text.len() != 20 {
        return false;
    }
    let mut i: usize = 0;
    while i < 20
        invariant
            0 <= i <= 20,
            text@.len() == 20,
            t == i64_min_text(),
            forall|k: int| 0 <= k < i ==> text@[k] == t[k],
        decreases 20 - i,
    {
        let expect: u8 = if i == 0 {
            45
        } else if i == 19 {
            56
        } else {
            i64_max_digit(i - 1)
        };
        assert(expect == t[i as int]);
        if text[i] != expect {
            return false;
        }
        i = i + 1;
    }
    assert(text@ =~= t);
    true
}

} // verus!
