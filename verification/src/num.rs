//! Parsing ASCII digits into integers.
use vstd::prelude::*;

verus! {

/// The largest number of bytes that [`atou`] and [`atoi`] accept.
pub const MAX_DIGITS: usize = 20;

/// Value of an ASCII decimal digit.
pub open spec fn digit_value(b: u8) -> int {
    b as int - 48
}

/// `true` when `b` is an ASCII decimal digit.
pub open spec fn is_digit(b: u8) -> bool {
    48 <= b && b <= 57
}

/// `true` when all bytes of `s` are ASCII decimal digits.
pub open spec fn all_digits(s: Seq<u8>) -> bool {
    forall|i: int| 0 <= i < s.len() ==> is_digit(#[trigger] s[i])
}

/// The decimal value of a sequence of ASCII digits, most significant digit first.
pub open spec fn decimal_value(s: Seq<u8>) -> int
    decreases s.len(),
{
    if s.len() == 0 {
        0
    } else {
        decimal_value(s.drop_last()) * 10 + digit_value(s.last())
    }
}

/// What [`atou`] returns for `s`.
pub open spec fn spec_atou(s: Seq<u8>) -> Option<u64> {
    if 1 <= s.len() <= MAX_DIGITS && all_digits(s) && decimal_value(s) <= u64::MAX {
        Some(decimal_value(s) as u64)
    } else {
        None
    }
}

/// What [`wrapping_atou`] returns for `s`.
pub open spec fn spec_wrapping_atou(s: Seq<u8>) -> Option<u64> {
    if all_digits(s) {
        Some((decimal_value(s) % 0x1_0000_0000_0000_0000) as u64)
    } else {
        None
    }
}

/// The sign that a leading byte selects: `-1` for `-`, `1` otherwise.
pub open spec fn sign_of(s: Seq<u8>) -> int {
    if s.len() > 0 && s[0] == 45 { -1 } else { 1 }
}

/// `true` when the first byte of `s` is `+` or `-`.
pub open spec fn has_sign(s: Seq<u8>) -> bool {
    s.len() > 0 && (s[0] == 43 || s[0] == 45)
}

/// The digits of `s` after an optional leading sign.
pub open spec fn unsigned_part(s: Seq<u8>) -> Seq<u8> {
    if has_sign(s) { s.drop_first() } else { s }
}

/// What [`atoi`] returns for `s`.
pub open spec fn spec_atoi(s: Seq<u8>) -> Option<i64> {
    let digits = unsigned_part(s);
    let value = sign_of(s) * decimal_value(digits);
    if s.len() <= MAX_DIGITS && digits.len() > 0 && all_digits(digits) && i64::MIN <= value
        <= i64::MAX {
        Some(value as i64)
    } else {
        None
    }
}

// ===== Lemmas =====

/// The value of the first `i + 1` digits extends the value of the first `i` digits.
pub proof fn lemma_decimal_take_step(s: Seq<u8>, i: int)
    requires
        0 <= i < s.len(),
    ensures
        decimal_value(s.take(i + 1)) == decimal_value(s.take(i)) * 10 + digit_value(s[i]),
{
    assert(s.take(i + 1).drop_last() =~= s.take(i));
}

/// A sequence of digits has a nonnegative value.
pub proof fn lemma_decimal_nonneg(s: Seq<u8>)
    requires
        all_digits(s),
    ensures
        decimal_value(s) >= 0,
    decreases s.len(),
{
    if s.len() > 0 {
        lemma_decimal_nonneg(s.drop_last());
        assert(is_digit(s[s.len() - 1]));
    }
}

/// The value of a prefix of digits is no more than the value of a longer prefix.
pub proof fn lemma_decimal_prefix_monotone(s: Seq<u8>, i: int, j: int)
    requires
        all_digits(s),
        0 <= i <= j <= s.len(),
    ensures
        decimal_value(s.take(i)) <= decimal_value(s.take(j)),
    decreases j - i,
{
    if i < j {
        lemma_decimal_prefix_monotone(s, i, j - 1);
        lemma_decimal_take_step(s, j - 1);
        assert(is_digit(s[j - 1]));
        assert(all_digits(s.take(j - 1)));
        lemma_decimal_nonneg(s.take(j - 1));
    }
}

/// Ten to the power `n`.
pub open spec fn pow10(n: nat) -> int
    decreases n,
{
    if n == 0 { 1 } else { 10 * pow10((n - 1) as nat) }
}

/// The value of `n` digits is below `10^n`.
pub proof fn lemma_pow_bound(s: Seq<u8>)
    requires
        all_digits(s),
    ensures
        0 <= decimal_value(s) < pow10(s.len()),
    decreases s.len(),
{
    if s.len() > 0 {
        let t = s.drop_last();
        assert(all_digits(t));
        lemma_pow_bound(t);
        assert(is_digit(s[s.len() - 1]));
    }
}

/// `pow10` grows with its argument.
pub proof fn lemma_pow10_mono(a: nat, b: nat)
    requires
        a <= b,
    ensures
        pow10(a) <= pow10(b),
        pow10(a) >= 1,
    decreases b,
{
    if a < b {
        lemma_pow10_mono(a, (b - 1) as nat);
    } else if a > 0 {
        lemma_pow10_mono((a - 1) as nat, (a - 1) as nat);
    }
}

// ===== Parsing =====

/// Parse ASCII to unsigned integer.
///
/// Returns `None` if bytes is empty, its length is more than the maximum possible digit count,
/// it contains a byte that is not an ASCII digit, or its value overflows `u64`.
pub fn atou(bytes: &[u8]) -> (res: Option<u64>)
    ensures
        res == spec_atou(bytes@),
{
    if bytes.len() > MAX_DIGITS || bytes.len() == 0 {
        return None;
    }
    let ghost s = bytes@;
    let mut acc: u64 = 0;
    let mut i: usize = 0;
    assert(s.take(0) =~= Seq::<u8>::empty());
    while i < bytes.len()
        invariant
            0 <= i <= bytes.len(),
            s == bytes@,
            all_digits(s.take(i as int)),
            acc as int == decimal_value(s.take(i as int)),
        decreases bytes.len() - i,
    {
        let b = bytes[i];
        proof {
            lemma_decimal_take_step(s, i as int);
        }
        if b < 48 || b > 57 {
            assert(!is_digit(s[i as int]));
            return None;
        }
        assert(all_digits(s.take(i + 1))) by {
            assert forall|k: int| 0 <= k < i + 1 implies is_digit(#[trigger] s.take(i + 1)[k]) by {
                if k < i {
                    assert(s.take(i + 1)[k] == s.take(i as int)[k]);
                }
            }
        }
        let d = (b - 48) as u64;
        match acc.checked_mul(10) {
            Some(m) => match m.checked_add(d) {
                Some(n) => {
                    acc = n;
                },
                None => {
                    proof {
                        lemma_atou_overflow(s, i as int);
                    }
                    return None;
                },
            },
            None => {
                proof {
                    lemma_atou_overflow(s, i as int);
                }
                return None;
            },
        }
        i = i + 1;
    }
    assert(s.take(i as int) =~= s);
    Some(acc)
}

/// Once the first `i + 1` bytes are digits whose value overflows `u64`, `spec_atou` is `None`.
proof fn lemma_atou_overflow(s: Seq<u8>, i: int)
    requires
        0 <= i < s.len(),
        all_digits(s.take(i + 1)),
        decimal_value(s.take(i + 1)) > u64::MAX,
    ensures
        spec_atou(s) == None::<u64>,
{
    if all_digits(s) {
        lemma_decimal_prefix_monotone(s, i + 1, s.len() as int);
        assert(s.take(s.len() as int) =~= s);
    }
}

/// Parse ASCII to unsigned integer, wrapping around at boundary integer.
///
/// Returns `None` if input contains non-ASCII digit.
///
/// Note that this function will returns `0` if the bytes is empty.
///
/// This funtion can be used when the input bytes length is known to be less than possible value
/// where it will overflow, thus parser can skips overflow checks resulting in better performance.
///
/// The maximum bytes length that may result in overflow is 20.
pub fn wrapping_atou(bytes: &[u8]) -> (res: Option<u64>)
    ensures
        res == spec_wrapping_atou(bytes@),
{
    let ghost s = bytes@;
    let mut acc: u64 = 0;
    let mut i: usize = 0;
    assert(s.take(0) =~= Seq::<u8>::empty());
    while i < bytes.len()
        invariant
            0 <= i <= bytes.len(),
            s == bytes@,
            all_digits(s.take(i as int)),
            acc as int == decimal_value(s.take(i as int)) % 0x1_0000_0000_0000_0000,
        decreases bytes.len() - i,
    {
        let b = bytes[i];
        proof {
            lemma_decimal_take_step(s, i as int);
        }
        if b < 48 || b > 57 {
            assert(!is_digit(s[i as int]));
            assert(!all_digits(s));
            return None;
        }
        assert(all_digits(s.take(i + 1))) by {
            assert forall|k: int| 0 <= k < i + 1 implies is_digit(#[trigger] s.take(i + 1)[k]) by {
                if k < i {
                    assert(s.take(i + 1)[k] == s.take(i as int)[k]);
                }
            }
        }
        let d = (b - 48) as u64;
        let next = acc.wrapping_mul(10).wrapping_add(d);
        proof {
            lemma_wrapping_step(decimal_value(s.take(i as int)), acc as int, d as int);
        }
        acc = next;
        i = i + 1;
    }
    assert(s.take(i as int) =~= s);
    Some(acc)
}

/// One wrapping step agrees with the exact step taken modulo `2^64`.
proof fn lemma_wrapping_step(v: int, acc: int, d: int)
    requires
        0 <= acc < 0x1_0000_0000_0000_0000,
        acc == v % 0x1_0000_0000_0000_0000,
        0 <= d <= 9,
    ensures
        ((acc * 10) % 0x1_0000_0000_0000_0000 + d) % 0x1_0000_0000_0000_0000 == (v * 10 + d)
            % 0x1_0000_0000_0000_0000,
{
    let m: int = 0x1_0000_0000_0000_0000;
    vstd::arithmetic::div_mod::lemma_mul_mod_noop_left(v, 10, m);
    vstd::arithmetic::div_mod::lemma_add_mod_noop((acc * 10) % m, d, m);
    vstd::arithmetic::div_mod::lemma_add_mod_noop(v * 10, d, m);
}

/// Parse ASCII to signed integer.
///
/// Returns `None` if bytes is empty, contains non-ASCII, non-sign prefix or resulting integer
/// overflowed.
pub fn atoi(bytes: &[u8]) -> (res: Option<i64>)
    ensures
        res == spec_atoi(bytes@),
{
    let ghost s = bytes@;
    if bytes.len() > MAX_DIGITS {
        return None;
    }
    if bytes.len() == 0 {
        return None;
    }
    let first = bytes[0];
    let signed = first == 43 || first == 45;
    if signed && bytes.len() == 1 {
        assert(unsigned_part(s).len() == 0);
        return None;
    }
    let sign: i64 = if first == 45 { -1 } else { 1 };
    let start: usize = if signed { 1 } else { 0 };
    let ghost digits = unsigned_part(s);
    assert(digits =~= s.subrange(start as int, s.len() as int));
    let mut acc: i64 = 0;
    let mut i: usize = start;
    assert(digits.take(0) =~= Seq::<u8>::empty());
    while i < bytes.len()
        invariant
            start <= i <= bytes.len(),
            s == bytes@,
            digits == s.subrange(start as int, s.len() as int),
            digits == unsigned_part(s),
            sign == sign_of(s),
            sign == 1 || sign == -1,
            all_digits(digits.take(i - start)),
            acc as int == sign * decimal_value(digits.take(i - start)),
        decreases bytes.len() - i,
    {
        let b = bytes[i];
        let ghost j = i - start;
        assert(digits[j] == b);
        proof {
            lemma_decimal_take_step(digits, j);
        }
        if b < 48 || b > 57 {
            assert(!is_digit(digits[j]));
            return None;
        }
        assert(all_digits(digits.take(j + 1))) by {
            assert forall|k: int| 0 <= k < j + 1 implies is_digit(#[trigger] digits.take(j + 1)[k]) by {
                if k < j {
                    assert(digits.take(j + 1)[k] == digits.take(j)[k]);
                }
            }
        }
        let d = (b - 48) as i64;
        assert(sign * decimal_value(digits.take(j + 1)) == acc * 10 + d * sign) by (nonlinear_arith)
            requires
                decimal_value(digits.take(j + 1)) == decimal_value(digits.take(j)) * 10 + d,
                acc == sign * decimal_value(digits.take(j)),
        ;
        match acc.checked_mul(10) {
            Some(m) => match m.checked_add(d * sign) {
                Some(n) => {
                    acc = n;
                },
                None => {
                    proof {
                        lemma_atoi_overflow(s, digits, sign as int, j);
                    }
                    return None;
                },
            },
            None => {
                proof {
                    lemma_decimal_nonneg(digits.take(j));
                }
                assert(acc * 10 + d * sign < i64::MIN || acc * 10 + d * sign > i64::MAX) by (nonlinear_arith)
                    requires
                        acc * 10 < i64::MIN || acc * 10 > i64::MAX,
                        sign == 1 || sign == -1,
                        sign == 1 ==> acc >= 0,
                        sign == -1 ==> acc <= 0,
                        0 <= d <= 9,
                ;
                proof {
                    lemma_atoi_overflow(s, digits, sign as int, j);
                }
                return None;
            },
        }
        i = i + 1;
    }
    assert(digits.take(i - start) =~= digits);
    Some(acc)
}

/// Once the first digits overflow `i64`, `spec_atoi` is `None`.
proof fn lemma_atoi_overflow(s: Seq<u8>, digits: Seq<u8>, sign: int, j: int)
    requires
        digits == unsigned_part(s),
        sign == sign_of(s),
        0 <= j < digits.len(),
        all_digits(digits.take(j + 1)),
        sign * decimal_value(digits.take(j + 1)) < i64::MIN || sign * decimal_value(
            digits.take(j + 1),
        ) > i64::MAX,
    ensures
        spec_atoi(s) == None::<i64>,
{
    if all_digits(digits) {
        lemma_decimal_prefix_monotone(digits, j + 1, digits.len() as int);
        assert(digits.take(digits.len() as int) =~= digits);
        lemma_decimal_nonneg(digits.take(j + 1));
        let a = decimal_value(digits.take(j + 1));
        let b = decimal_value(digits);
        assert(sign * b < i64::MIN || sign * b > i64::MAX) by (nonlinear_arith)
            requires
                sign == 1 || sign == -1,
                0 <= a <= b,
                sign * a < i64::MIN || sign * a > i64::MAX,
        ;
    }
}

/// Wherever [`atou`] parses a value, [`wrapping_atou`] parses the same value: wrapping only
/// changes the result of the inputs that overflow.
pub proof fn lemma_atou_wrapping_agree(s: Seq<u8>)
    requires
        spec_atou(s) is Some,
    ensures
        spec_wrapping_atou(s) == spec_atou(s),
{
    lemma_decimal_nonneg(s);
    assert(decimal_value(s) % 0x1_0000_0000_0000_0000 == decimal_value(s));
}

} // verus!
