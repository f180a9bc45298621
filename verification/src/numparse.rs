//! Decimal parsing and formatting for the wire protocol.
//!
//! Numeric fields arrive as ASCII decimal text.  Integers parse to `i32`;
//! fractional fields (wheel deltas, edge fractions) parse to a fixed-point
//! count of millionths, the sub-pixel unit used throughout the crate.

use vstd::prelude::*;
use vstd::slice::slice_subrange;
use crate::wheel::MAX_WHEEL_DELTA;

verus! {

/// ASCII digit.
pub open spec fn is_digit(b: u8) -> bool {
    0x30 <= b <= 0x39
}

pub open spec fn digit_val(b: u8) -> int {
    b - 0x30
}

pub open spec fn all_digits(s: Seq<u8>) -> bool {
    forall|i: int| 0 <= i < s.len() ==> is_digit(#[trigger] s[i])
}

/// Value of a run of ASCII digits, most significant first.
pub open spec fn digits_val(s: Seq<u8>) -> int
    decreases s.len(),
{
    if s.len() == 0 {
        0
    } else {
        digits_val(s.take(s.len() - 1)) * 10 + digit_val(s.last())
    }
}

pub open spec fn pow10(n: nat) -> int
    decreases n,
{
    if n == 0 {
        1
    } else {
        10 * pow10((n - 1) as nat)
    }
}

/// Index of the first occurrence of `c`, or the length if absent.
pub open spec fn find_first(s: Seq<u8>, c: u8) -> int
    decreases s.len(),
{
    if s.len() == 0 {
        0
    } else if s[0] == c {
        0
    } else {
        1 + find_first(s.skip(1), c)
    }
}

/// The leading sign of a numeric literal, as a factor.
pub open spec fn int_sign(s: Seq<u8>) -> int {
    if s.len() > 0 && s[0] == 0x2d {
        -1
    } else {
        1
    }
}

/// The literal with any leading `+` or `-` removed.
pub open spec fn int_body(s: Seq<u8>) -> Seq<u8> {
    if s.len() > 0 && (s[0] == 0x2d || s[0] == 0x2b) {
        s.skip(1)
    } else {
        s
    }
}

/// An optionally signed, non-empty run of digits.
pub open spec fn is_int_literal(s: Seq<u8>) -> bool {
    int_body(s).len() > 0 && all_digits(int_body(s))
}

pub open spec fn int_value(s: Seq<u8>) -> int {
    int_sign(s) * digits_val(int_body(s))
}

/// An optionally signed decimal literal: digits, optionally followed by a
/// point and at least one more digit.
pub open spec fn is_decimal_literal(s: Seq<u8>) -> bool {
    let b = int_body(s);
    let k = find_first(b, 0x2e);
    if k == b.len() {
        b.len() > 0 && all_digits(b)
    } else {
        &&& k > 0
        &&& all_digits(b.take(k))
        &&& b.len() > k + 1
        &&& all_digits(b.skip(k + 1))
    }
}

/// Fractional digits converted to millionths: the first six digits count,
/// shorter runs are zero-padded, further digits are truncated toward zero.
pub open spec fn frac_micro(f: Seq<u8>) -> int {
    if f.len() >= 6 {
        digits_val(f.take(6))
    } else {
        digits_val(f) * pow10((6 - f.len()) as nat)
    }
}

/// Magnitude of a decimal literal in millionths.
pub open spec fn decimal_micro_mag(s: Seq<u8>) -> int {
    let b = int_body(s);
    let k = find_first(b, 0x2e);
    if k == b.len() {
        digits_val(b) * 1_000_000
    } else {
        digits_val(b.take(k)) * 1_000_000 + frac_micro(b.skip(k + 1))
    }
}

/// Value of a decimal literal in millionths, rounded toward zero.
pub open spec fn decimal_micro(s: Seq<u8>) -> int {
    int_sign(s) * decimal_micro_mag(s)
}

pub proof fn lemma_digits_val_bounds(s: Seq<u8>)
    requires
        all_digits(s),
    ensures
        0 <= digits_val(s) < pow10(s.len() as nat),
    decreases s.len(),
{
    if s.len() > 0 {
        assert(all_digits(s.take(s.len() - 1)));
        lemma_digits_val_bounds(s.take(s.len() - 1));
    }
}

pub proof fn lemma_digits_val_prefix_le(s: Seq<u8>, i: int)
    requires
        all_digits(s),
        0 <= i <= s.len(),
    ensures
        digits_val(s.take(i)) <= digits_val(s),
    decreases s.len() - i,
{
    if i < s.len() {
        assert(all_digits(s.take(i)));
        lemma_digits_val_bounds(s.take(i));
        assert(s.take(i + 1).take(i) =~= s.take(i));
        assert(digits_val(s.take(i + 1)) == digits_val(s.take(i)) * 10 + digit_val(s[i]));
        lemma_digits_val_prefix_le(s, i + 1);
    } else {
        assert(s.take(i) =~= s);
    }
}

pub proof fn lemma_find_first_bounds(s: Seq<u8>, c: u8)
    ensures
        0 <= find_first(s, c) <= s.len(),
        find_first(s, c) < s.len() ==> s[find_first(s, c)] == c,
        forall|i: int| 0 <= i < find_first(s, c) ==> s[i] != c,
    decreases s.len(),
{
    if s.len() > 0 && s[0] != c {
        lemma_find_first_bounds(s.skip(1), c);
        assert forall|i: int| 0 <= i < find_first(s, c) implies s[i] != c by {
            if i > 0 {
                assert(s.skip(1)[i - 1] == s[i]);
            }
        }
    }
}

pub proof fn lemma_find_first_is(s: Seq<u8>, c: u8, k: int)
    requires
        0 <= k <= s.len(),
        forall|i: int| 0 <= i < k ==> s[i] != c,
        k < s.len() ==> s[k] == c,
    ensures
        find_first(s, c) == k,
    decreases s.len(),
{
    if s.len() > 0 && k > 0 {
        assert(s[0] != c);
        assert forall|i: int| 0 <= i < k - 1 implies s.skip(1)[i] != c by {
            assert(s.skip(1)[i] == s[i + 1]);
        }
        if k < s.len() {
            assert(s.skip(1)[k - 1] == s[k]);
        }
        lemma_find_first_is(s.skip(1), c, k - 1);
    }
}

/// Scan for the first occurrence of a byte.
pub fn find_byte(s: &[u8], c: u8) -> (r: usize)
    ensures
        r as int == find_first(s@, c),
{
    let n = s.len();
    let mut i: usize = 0;
    while i < n
        invariant
            0 <= i <= n,
            n == s@.len(),
            forall|j: int| 0 <= j < i ==> s@[j] != c,
        decreases n - i,
    {
        if s[i] == c {
            proof {
                lemma_find_first_is(s@, c, i as int);
            }
            return i;
        }
        i = i + 1;
    }
    proof {
        lemma_find_first_is(s@, c, n as int);
    }
    n
}

/// Parse a non-empty all-digit run whose value is at most `cap`.
fn parse_digits(s: &[u8], cap: u64) -> (r: Option<u64>)
    requires
        cap <= 0x1_0000_0000_0000,
    ensures
        r is Some <==> (s@.len() > 0 && all_digits(s@) && digits_val(s@) <= cap),
        r matches Some(v) ==> v as int == digits_val(s@),
{
    let n = s.len();
    if n == 0 {
        return None;
    }
    let mut acc: u64 = 0;
    let mut i: usize = 0;
    while i < n
        invariant
            0 <= i <= n,
            n == s@.len(),
            cap <= 0x1_0000_0000_0000,
            all_digits(s@.take(i as int)),
            acc as int == digits_val(s@.take(i as int)),
            acc <= cap,
        decreases n - i,
    {
        let b = s[i];
        if b < 0x30 || b > 0x39 {
            assert(!all_digits(s@)) by {
                assert(s@[i as int] == b);
            }
            return None;
        }
        let d: u64 = (b - 0x30) as u64;
        let next: u64 = acc * 10 + d;
        proof {
            assert(s@.take(i as int + 1).take(i as int) =~= s@.take(i as int));
            assert(s@.take(i as int + 1).last() == b);
            assert(digits_val(s@.take(i as int + 1)) == acc as int * 10 + d);
        }
        if next > cap {
            proof {
                if all_digits(s@) && digits_val(s@) <= cap {
                    lemma_digits_val_prefix_le(s@, i as int + 1);
                }
            }
            return None;
        }
        acc = next;
        i = i + 1;
    }
    proof {
        assert(s@.take(n as int) =~= s@);
    }
    Some(acc)
}

/// Check that every byte is an ASCII digit.
fn check_digits(s: &[u8]) -> (r: bool)
    ensures
        r == all_digits(s@),
{
    let n = s.len();
    let mut i: usize = 0;
    while i < n
        invariant
            0 <= i <= n,
            n == s@.len(),
            forall|j: int| 0 <= j < i ==> is_digit(#[trigger] s@[j]),
        decreases n - i,
    {
        let b = s[i];
        if b < 0x30 || b > 0x39 {
            assert(!all_digits(s@)) by {
                assert(s@[i as int] == b);
            }
            return false;
        }
        i = i + 1;
    }
    true
}

/// Parse a signed integer field.  Returns the value exactly when the text is
/// a well-formed integer literal that fits in an `i32`.
pub fn parse_i32(s: &[u8]) -> (r: Option<i32>)
    ensures
        r is Some <==> is_int_literal(s@) && -0x8000_0000 <= int_value(s@) <= 0x7fff_ffff,
        r matches Some(v) ==> v as int == int_value(s@),
{
    let n = s.len();
    let mut start: usize = 0;
    let mut neg: bool = false;
    if n > 0 && (s[0] == 0x2d || s[0] == 0x2b) {
        neg = s[0] == 0x2d;
        start = 1;
    }
    let body = slice_subrange(s, start, n);
    proof {
        assert(body@ =~= int_body(s@));
    }
    match parse_digits(body, 0x8000_0000) {
        None => {
            proof {
                if is_int_literal(s@) {
                    // the digits were valid, so the magnitude must exceed the cap
                    assert(digits_val(int_body(s@)) > 0x8000_0000);
                }
            }
            None
        },
        Some(acc) => {
            if neg {
                Some((-(acc as i64)) as i32)
            } else {
                if acc >= 0x8000_0000 {
                    None
                } else {
                    Some(acc as i32)
                }
            }
        },
    }
}

pub proof fn lemma_frac_micro_bounds(f: Seq<u8>)
    requires
        all_digits(f),
    ensures
        0 <= frac_micro(f) < 1_000_000,
{
    lemma_pow10_values();
    if f.len() >= 6 {
        assert(all_digits(f.take(6)));
        lemma_digits_val_bounds(f.take(6));
    } else {
        lemma_digits_val_bounds(f);
        lemma_pow10_le((6 - f.len()) as nat, 6);
        lemma_pow10_add(f.len() as nat, (6 - f.len()) as nat);
        vstd::arithmetic::mul::lemma_mul_nonnegative(
            digits_val(f),
            pow10((6 - f.len()) as nat),
        );
        vstd::arithmetic::mul::lemma_mul_strict_inequality(
            digits_val(f),
            pow10(f.len() as nat),
            pow10((6 - f.len()) as nat),
        );
    }
}

/// A decimal literal's magnitude is never negative, and its value lies
/// within it on either side.
pub proof fn lemma_decimal_micro_within(s: Seq<u8>)
    requires
        is_decimal_literal(s),
    ensures
        0 <= decimal_micro_mag(s),
        -decimal_micro_mag(s) <= decimal_micro(s) <= decimal_micro_mag(s),
{
    let b = int_body(s);
    let k = find_first(b, 0x2e);
    if k == b.len() {
        lemma_digits_val_bounds(b);
    } else {
        lemma_digits_val_bounds(b.take(k));
        lemma_frac_micro_bounds(b.skip(k + 1));
    }
}

pub proof fn lemma_pow10_le(a: nat, b: nat)
    requires
        a <= b,
    ensures
        0 < pow10(a) <= pow10(b),
    decreases b,
{
    if b > 0 {
        if a == b {
            lemma_pow10_le((b - 1) as nat, (b - 1) as nat);
        } else {
            lemma_pow10_le(a, (b - 1) as nat);
        }
    }
}

pub proof fn lemma_pow10_values()
    ensures
        pow10(0) == 1,
        pow10(1) == 10,
        pow10(2) == 100,
        pow10(3) == 1000,
        pow10(4) == 10000,
        pow10(5) == 100000,
        pow10(6) == 1000000,
{
    assert(pow10(0) == 1);
    assert(pow10(1) == 10);
    assert(pow10(2) == 100);
    assert(pow10(3) == 1000);
    assert(pow10(4) == 10000);
    assert(pow10(5) == 100000);
    assert(pow10(6) == 1000000);
}

pub proof fn lemma_pow10_add(a: nat, b: nat)
    ensures
        pow10(a + b) == pow10(a) * pow10(b),
    decreases a,
{
    if a == 0 {
        assert(pow10(0) == 1);
    } else {
        lemma_pow10_add((a - 1) as nat, b);
        assert(pow10(a + b) == 10 * pow10((a + b - 1) as nat));
        vstd::arithmetic::mul::lemma_mul_is_associative(10, pow10((a - 1) as nat), pow10(b));
    }
}

/// Ten to a small power.
fn pow10_u64(e: usize) -> (r: u64)
    requires
        e <= 6,
    ensures
        r as int == pow10(e as nat),
{
    let mut r: u64 = 1;
    let mut i: usize = 0;
    while i < e
        invariant
            0 <= i <= e <= 6,
            r as int == pow10(i as nat),
        decreases e - i,
    {
        proof {
            lemma_pow10_le(i as nat, 5);
            lemma_pow10_values();
        }
        r = r * 10;
        i = i + 1;
    }
    r
}

/// Parse a decimal field into millionths, rounded toward zero past six
/// fractional digits.  Returns the value exactly when the text is a
/// well-formed decimal literal of magnitude at most a million pixels.
#[verifier::rlimit(50)]
pub fn parse_micro(s: &[u8]) -> (r: Option<i64>)
    ensures
        r is Some <==> is_decimal_literal(s@) && decimal_micro_mag(s@) <= MAX_WHEEL_DELTA,
        r matches Some(v) ==> v as int == decimal_micro(s@),
{
    let n = s.len();
    let mut start: usize = 0;
    let mut neg: bool = false;
    if n > 0 && (s[0] == 0x2d || s[0] == 0x2b) {
        neg = s[0] == 0x2d;
        start = 1;
    }
    let body = slice_subrange(s, start, n);
    proof {
        assert(body@ =~= int_body(s@));
    }
    let blen = body.len();
    let k = find_byte(body, 0x2e);
    if k == blen {
        // no point: an integral pixel amount
        match parse_digits(body, 1_000_000) {
            None => {
                proof {
                    if is_decimal_literal(s@) {
                        assert(digits_val(body@) > 1_000_000);
                    }
                }
                None
            },
            Some(iv) => {
                let mag: u64 = iv * 1_000_000;
                proof {
                    assert(decimal_micro_mag(s@) == mag as int);
                }
                if neg {
                    proof {
                        assert(int_sign(s@) == -1);
                        assert(decimal_micro(s@) == -(mag as int));
                    }
                    Some(-(mag as i64))
                } else {
                    proof {
                        assert(int_sign(s@) == 1);
                        assert(decimal_micro(s@) == mag as int);
                    }
                    Some(mag as i64)
                }
            },
        }
    } else {
        proof {
            lemma_find_first_bounds(body@, 0x2e);
        }
        if k == 0 || k + 1 == blen {
            return None;
        }
        let int_part = slice_subrange(body, 0, k);
        let frac = slice_subrange(body, k + 1, blen);
        proof {
            assert(int_part@ =~= body@.take(k as int));
            assert(frac@ =~= body@.skip(k as int + 1));
        }
        let iv = match parse_digits(int_part, 1_000_000) {
            None => {
                proof {
                    if is_decimal_literal(s@) {
                        assert(digits_val(body@.take(k as int)) > 1_000_000);
                        lemma_frac_micro_bounds(frac@);
                        assert(decimal_micro_mag(s@) > MAX_WHEEL_DELTA);
                    }
                }
                return None;
            },
            Some(iv) => iv,
        };
        let flen = frac.len();
        let f6len: usize = if flen >= 6 {
            6
        } else {
            flen
        };
        let f6 = slice_subrange(frac, 0, f6len);
        proof {
            if flen >= 6 {
                assert(f6@ =~= frac@.take(6));
            } else {
                assert(f6@ =~= frac@);
            }
        }
        let fv6 = match parse_digits(f6, 999_999) {
            None => {
                proof {
                    if is_decimal_literal(s@) {
                        assert(all_digits(frac@));
                        assert forall|i: int| 0 <= i < f6@.len() implies is_digit(
                            #[trigger] f6@[i],
                        ) by {
                            assert(f6@[i] == frac@[i]);
                        }
                        lemma_digits_val_bounds(f6@);
                        lemma_pow10_le(f6@.len() as nat, 6);
                        lemma_pow10_values();
                    }
                }
                return None;
            },
            Some(v) => v,
        };
        if flen > 6 {
            let rest = slice_subrange(frac, 6, flen);
            proof {
                assert(rest@ =~= frac@.skip(6));
            }
            if !check_digits(rest) {
                proof {
                    if all_digits(frac@) {
                        assert forall|i: int| 0 <= i < rest@.len() implies is_digit(
                            #[trigger] rest@[i],
                        ) by {
                            assert(rest@[i] == frac@[i + 6]);
                        }
                    }
                }
                return None;
            }
            proof {
                // digits before and after the sixth place together cover the run
                assert forall|i: int| 0 <= i < frac@.len() implies is_digit(
                    #[trigger] frac@[i],
                ) by {
                    if i < 6 {
                        assert(frac@[i] == f6@[i]);
                    } else {
                        assert(frac@[i] == rest@[i - 6]);
                    }
                }
            }
        }
        proof {
            if flen <= 6 {
                assert(f6@ =~= frac@);
            }
            assert(all_digits(frac@));
            assert(is_decimal_literal(s@));
        }
        let scale = pow10_u64(6 - f6len);
        proof {
            lemma_digits_val_bounds(f6@);
            lemma_pow10_add(f6len as nat, (6 - f6len) as nat);
            lemma_pow10_values();
            assert((fv6 as int) * (scale as int) < 1_000_000) by (nonlinear_arith)
                requires
                    0 <= (fv6 as int) < pow10(f6len as nat),
                    scale as int == pow10((6 - f6len) as nat),
                    scale as int > 0,
                    pow10(f6len as nat) * pow10((6 - f6len) as nat) == 1_000_000,
            ;
            vstd::arithmetic::mul::lemma_mul_nonnegative(fv6 as int, scale as int);
        }
        let fmicro: u64 = fv6 * scale;
        proof {
            if flen >= 6 {
                assert(scale == 1);
                assert(fmicro as int == frac_micro(frac@));
            } else {
                assert(fmicro as int == frac_micro(frac@));
            }
        }
        let mag: u64 = iv * 1_000_000 + fmicro;
        proof {
            assert(decimal_micro_mag(s@) == mag as int);
        }
        if mag > MAX_WHEEL_DELTA as u64 {
            return None;
        }
        if neg {
            proof {
                assert(int_sign(s@) == -1);
                assert(decimal_micro(s@) == -(mag as int));
            }
            Some(-(mag as i64))
        } else {
            proof {
                assert(int_sign(s@) == 1);
                assert(decimal_micro(s@) == mag as int);
            }
            Some(mag as i64)
        }
    }
}

/// The eight ASCII bytes `d.dddddd` of a fraction given in millionths.
pub open spec fn fraction_bytes(f: int) -> Seq<u8> {
    seq![
        (0x30 + f / 1_000_000) as u8,
        0x2e,
        (0x30 + (f / 100_000) % 10) as u8,
        (0x30 + (f / 10_000) % 10) as u8,
        (0x30 + (f / 1_000) % 10) as u8,
        (0x30 + (f / 100) % 10) as u8,
        (0x30 + (f / 10) % 10) as u8,
        (0x30 + f % 10) as u8,
    ]
}

/// Render a fraction given in millionths (at most one million) as decimal
/// text with six fractional digits.
pub fn format_fraction_micro(f: u64) -> (r: Vec<u8>)
    requires
        f <= 1_000_000,
    ensures
        r@ == fraction_bytes(f as int),
{
    let mut v: Vec<u8> = Vec::new();
    v.push((0x30 + f / 1_000_000) as u8);
    v.push(0x2e);
    v.push((0x30 + (f / 100_000) % 10) as u8);
    v.push((0x30 + (f / 10_000) % 10) as u8);
    v.push((0x30 + (f / 1_000) % 10) as u8);
    v.push((0x30 + (f / 100) % 10) as u8);
    v.push((0x30 + (f / 10) % 10) as u8);
    v.push((0x30 + f % 10) as u8);
    proof {
        assert(v@ =~= fraction_bytes(f as int));
    }
    v
}

} // verus!
