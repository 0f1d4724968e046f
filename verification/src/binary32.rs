//! Exact reasoning about IEEE-754 binary32 values held as their bit patterns.
//!
//! The amplifier reports its volume as a decimal number that is read into a
//! binary32 value. The library keeps that value as its 32-bit encoding and
//! decides comparisons, equality and rounding on the encoding, proved against
//! the number that the encoding denotes.
use vstd::arithmetic::div_mod::lemma_fundamental_div_mod_converse;
use vstd::arithmetic::mul::{lemma_mul_inequality, lemma_mul_strict_inequality};
use vstd::arithmetic::power2::{
    lemma2_to64, lemma_pow2_adds, lemma_pow2_pos, lemma_pow2_strictly_increases, lemma_pow2_unfold,
    pow2,
};
use vstd::prelude::*;
use vstd::utf8::{encode_utf8, is_ascii_chars, is_ascii_chars_encode_utf8};

use crate::text::push_char;

verus! {

/// The sign bit of a binary32 encoding.
pub const SIGN_BIT: u32 = 0x8000_0000;

/// The encoding of positive infinity; every larger magnitude encodes a NaN.
pub const INFINITY_BITS: u32 = 0x7f80_0000;

/// The bits below the sign bit.
pub open spec fn magnitude_bits(b: u32) -> nat {
    (b as nat) % 0x8000_0000
}

/// Whether the sign bit is set.
pub open spec fn sign_set(b: u32) -> bool {
    b >= 0x8000_0000
}

/// The biased exponent field (0 ..= 255) of magnitude bits `m`.
pub open spec fn exponent_of(m: nat) -> nat {
    m / 0x80_0000
}

/// The 23-bit fraction field of magnitude bits `m`.
pub open spec fn fraction_of(m: nat) -> nat {
    m % 0x80_0000
}

/// The significand: the fraction with the implicit leading one of normal numbers.
pub open spec fn significand(m: nat) -> nat {
    if exponent_of(m) == 0 {
        fraction_of(m)
    } else {
        fraction_of(m) + 0x80_0000
    }
}

/// The power of two by which the significand is scaled, counted from 2^-149.
pub open spec fn binade(m: nat) -> nat {
    if exponent_of(m) == 0 {
        0
    } else {
        (exponent_of(m) - 1) as nat
    }
}

/// The magnitude denoted by finite magnitude bits `m`, in units of 2^-149,
/// the smallest positive binary32 number. Every finite magnitude is a whole
/// number of such units.
pub open spec fn scaled_of(m: nat) -> nat {
    significand(m) * pow2(binade(m))
}

/// 1.0 in units of 2^-149.
pub open spec fn unit() -> nat {
    pow2(149)
}

/// The number that a binary32 encoding denotes.
pub enum Binary32 {
    NotANumber,
    Infinity { negative: bool },
    /// `negative` is the sign (zero has both signs); the magnitude is `scaled / unit()`.
    Finite { negative: bool, scaled: nat },
}

/// The number denoted by the encoding `b`.
pub open spec fn decode(b: u32) -> Binary32 {
    let m = magnitude_bits(b);
    if exponent_of(m) == 255 {
        if fraction_of(m) == 0 {
            Binary32::Infinity { negative: sign_set(b) }
        } else {
            Binary32::NotANumber
        }
    } else {
        Binary32::Finite { negative: sign_set(b), scaled: scaled_of(m) }
    }
}

/// `b <= s / unit()` in IEEE-754 comparison (false for NaN).
pub open spec fn at_most(b: u32, s: nat) -> bool {
    match decode(b) {
        Binary32::NotANumber => false,
        Binary32::Infinity { negative } => negative,
        Binary32::Finite { negative, scaled } => negative || scaled <= s,
    }
}

/// `b >= s / unit()` in IEEE-754 comparison (false for NaN).
pub open spec fn at_least(b: u32, s: nat) -> bool {
    match decode(b) {
        Binary32::NotANumber => false,
        Binary32::Infinity { negative } => !negative,
        Binary32::Finite { negative, scaled } => if negative {
            scaled == 0 && s == 0
        } else {
            scaled >= s
        },
    }
}

/// `a == b` in IEEE-754 comparison: NaN equals nothing, the two zeros are equal.
pub open spec fn same_number(a: u32, b: u32) -> bool {
    match (decode(a), decode(b)) {
        (Binary32::Infinity { negative: n1 }, Binary32::Infinity { negative: n2 }) => n1 == n2,
        (
            Binary32::Finite { negative: n1, scaled: s1 },
            Binary32::Finite { negative: n2, scaled: s2 },
        ) => s1 == s2 && (n1 == n2 || s1 == 0),
        _ => false,
    }
}

/// `s / d` rounded to the nearest whole number, ties to the even neighbour.
pub open spec fn round_half_even(s: nat, d: nat) -> nat
    recommends
        d > 0,
{
    let q = s / d;
    let r = s % d;
    if 2 * r < d {
        q
    } else if 2 * r > d {
        q + 1
    } else if q % 2 == 0 {
        q
    } else {
        q + 1
    }
}

/// The characters '0' ..= '9'.
pub open spec fn digit_char(d: nat) -> char
    recommends
        d < 10,
{
    (d + 48) as char
}

/// The decimal numeral of `n`, without leading zeros.
pub open spec fn decimal(n: nat) -> Seq<char>
    decreases n,
{
    if n < 10 {
        seq![digit_char(n)]
    } else {
        decimal(n / 10).push(digit_char(n % 10))
    }
}

/// The number that a string of decimal digits spells.
pub open spec fn numeral_value(s: Seq<char>) -> int
    decreases s.len(),
{
    if s.len() == 0 {
        0
    } else {
        numeral_value(s.drop_last()) * 10 + (s.last() as int - 48)
    }
}

/// The text that a binary32 value is shown as with no decimal places,
/// followed by a percent sign ("NaN%", "inf%", "-inf%", or an optional
/// minus sign, the rounded magnitude and '%').
pub open spec fn percent_text(b: u32) -> Seq<char> {
    match decode(b) {
        Binary32::NotANumber => seq!['N', 'a', 'N', '%'],
        Binary32::Infinity { negative } => if negative {
            seq!['-', 'i', 'n', 'f', '%']
        } else {
            seq!['i', 'n', 'f', '%']
        },
        Binary32::Finite { negative, scaled } => (if negative {
            seq!['-']
        } else {
            Seq::<char>::empty()
        }) + decimal(round_half_even(scaled, unit())) + seq!['%'],
    }
}

// ---------------------------------------------------------------------------
// Lemmas on the encoding
// ---------------------------------------------------------------------------

/// Magnitude bits split into exponent and fraction fields.
pub proof fn lemma_fields(m: nat)
    requires
        m < 0x8000_0000,
    ensures
        m == exponent_of(m) * 0x80_0000 + fraction_of(m),
        exponent_of(m) <= 255,
        fraction_of(m) < 0x80_0000,
        exponent_of(m) == 255 <==> m >= 0x7f80_0000,
        significand(m) < 0x100_0000,
        exponent_of(m) > 0 ==> significand(m) >= 0x80_0000,
{
}

/// A finite magnitude is zero exactly when its bits are zero.
pub proof fn lemma_scaled_zero(m: nat)
    requires
        m < 0x7f80_0000,
    ensures
        (scaled_of(m) == 0) <==> (m == 0),
{
    lemma_fields(m);
    lemma_pow2_pos(binade(m));
    if exponent_of(m) == 0 {
        lemma2_to64();
        assert(scaled_of(m) == fraction_of(m));
    } else {
        assert(significand(m) > 0);
        assert(significand(m) * pow2(binade(m)) > 0) by (nonlinear_arith)
            requires
                significand(m) > 0,
                pow2(binade(m)) > 0,
        ;
    }
}

/// A bound on every finite magnitude: below 2^24 * 2^binade.
proof fn lemma_scaled_below_next_binade(m: nat)
    requires
        m < 0x7f80_0000,
    ensures
        scaled_of(m) < 0x100_0000 * pow2(binade(m)),
        exponent_of(m) == 0 ==> scaled_of(m) < 0x80_0000,
        exponent_of(m) > 0 ==> scaled_of(m) >= 0x80_0000 * pow2(binade(m)),
{
    lemma_fields(m);
    lemma_pow2_pos(binade(m));
    lemma_mul_strict_inequality(significand(m) as int, 0x100_0000, pow2(binade(m)) as int);
    if exponent_of(m) == 0 {
        lemma2_to64();
        assert(scaled_of(m) == significand(m) * 1);
    } else {
        lemma_mul_inequality(0x80_0000, significand(m) as int, pow2(binade(m)) as int);
    }
}

/// The encoding orders finite non-negative numbers: larger magnitude bits
/// denote a strictly larger magnitude.
pub proof fn lemma_scaled_strictly_increasing(x: nat, y: nat)
    requires
        x < y,
        y < 0x7f80_0000,
    ensures
        scaled_of(x) < scaled_of(y),
{
    lemma_fields(x);
    lemma_fields(y);
    lemma_pow2_pos(binade(x));
    lemma_pow2_pos(binade(y));
    lemma_scaled_below_next_binade(x);
    lemma_scaled_below_next_binade(y);
    if exponent_of(x) == exponent_of(y) {
        assert(significand(x) < significand(y));
        lemma_mul_strict_inequality(significand(x) as int, significand(y) as int, pow2(binade(x)) as int);
    } else {
        assert(exponent_of(x) < exponent_of(y));
        assert(exponent_of(y) > 0);
        if exponent_of(x) == 0 {
            // scaled(x) < 2^23 <= 2^23 * pow2(binade(y)) <= scaled(y)
            assert(pow2(binade(y)) >= 1);
            lemma_mul_inequality(1, pow2(binade(y)) as int, 0x80_0000);
        } else {
            // scaled(x) < 2^24 * 2^binade(x) = 2^23 * 2^(binade(x)+1) <= 2^23 * 2^binade(y)
            let bx = binade(x);
            let by = binade(y);
            lemma_pow2_unfold(bx + 1);
            assert(pow2(bx + 1) == 2 * pow2(bx));
            if bx + 1 < by {
                lemma_pow2_strictly_increases(bx + 1, by);
            }
            assert(pow2(bx + 1) <= pow2(by));
            lemma_mul_inequality(pow2(bx + 1) as int, pow2(by) as int, 0x80_0000);
            assert(0x100_0000 * pow2(bx) == 0x80_0000 * pow2(bx + 1));
        }
    }
}

/// Finite non-negative magnitudes compare as their bits do.
pub proof fn lemma_scaled_order(x: nat, y: nat)
    requires
        x < 0x7f80_0000,
        y < 0x7f80_0000,
    ensures
        (scaled_of(x) <= scaled_of(y)) <==> (x <= y),
        (scaled_of(x) == scaled_of(y)) <==> (x == y),
{
    if x < y {
        lemma_scaled_strictly_increasing(x, y);
    } else if y < x {
        lemma_scaled_strictly_increasing(y, x);
    }
}

// ---------------------------------------------------------------------------
// Classification and comparison
// ---------------------------------------------------------------------------

/// Whether `b` encodes a NaN.
pub fn is_nan(b: u32) -> (r: bool)
    ensures
        r == (decode(b) is NotANumber),
{
    proof {
        lemma_fields(magnitude_bits(b));
    }
    b % SIGN_BIT > INFINITY_BITS
}

/// Whether `b` encodes a non-negative finite number.
pub open spec fn is_non_negative_finite(b: u32) -> bool {
    b < INFINITY_BITS
}

/// `b <= c` where `c` encodes a non-negative finite number.
pub fn not_above(b: u32, c: u32) -> (r: bool)
    requires
        is_non_negative_finite(c),
    ensures
        r == at_most(b, scaled_of(c as nat)),
{
    proof {
        lemma_fields(magnitude_bits(b));
        lemma_fields(c as nat);
    }
    if is_nan(b) {
        false
    } else if b >= SIGN_BIT {
        true
    } else {
        proof {
            if b < INFINITY_BITS {
                lemma_scaled_order(b as nat, c as nat);
            }
        }
        b <= c
    }
}

/// `b >= c` where `c` encodes a non-negative finite number.
pub fn not_below(b: u32, c: u32) -> (r: bool)
    requires
        is_non_negative_finite(c),
    ensures
        r == at_least(b, scaled_of(c as nat)),
{
    proof {
        lemma_fields(magnitude_bits(b));
        lemma_fields(c as nat);
        lemma_scaled_zero(c as nat);
    }
    if is_nan(b) {
        false
    } else if b >= SIGN_BIT {
        proof {
            if magnitude_bits(b) < 0x7f80_0000 {
                lemma_scaled_zero(magnitude_bits(b));
            }
        }
        b % SIGN_BIT == 0 && c == 0
    } else {
        proof {
            if b < INFINITY_BITS {
                lemma_scaled_order(c as nat, b as nat);
            }
        }
        b >= c
    }
}

/// `a == b` as binary32 numbers.
pub fn numbers_equal(a: u32, b: u32) -> (r: bool)
    ensures
        r == same_number(a, b),
{
    proof {
        lemma_fields(magnitude_bits(a));
        lemma_fields(magnitude_bits(b));
    }
    if is_nan(a) || is_nan(b) {
        false
    } else if a % SIGN_BIT == 0 && b % SIGN_BIT == 0 {
        proof {
            lemma_scaled_zero(0);
        }
        true
    } else {
        proof {
            let ma = magnitude_bits(a);
            let mb = magnitude_bits(b);
            if ma < 0x7f80_0000 && mb < 0x7f80_0000 {
                lemma_scaled_order(ma, mb);
                lemma_scaled_zero(ma);
                lemma_scaled_zero(mb);
            }
        }
        a == b
    }
}

/// A normal magnitude whose significand is `t * 2^k` with `k + binade == 149` is `t`.
proof fn lemma_whole_number(m: nat, t: nat, k: nat)
    requires
        m < 0x7f80_0000,
        significand(m) == t * pow2(k),
        binade(m) + k == 149,
    ensures
        scaled_of(m) == t * unit(),
{
    lemma_pow2_adds(k, binade(m));
    assert(t * pow2(k) * pow2(binade(m)) == t * (pow2(k) * pow2(binade(m)))) by (nonlinear_arith);
}

/// The encoding of `10 * k` for `k` in 1 ..= 9.
pub fn decade(k: u32) -> (c: u32)
    requires
        1 <= k <= 9,
    ensures
        is_non_negative_finite(c),
        scaled_of(c as nat) == 10 * k * unit(),
{
    proof {
        lemma2_to64();
    }
    if k == 1 {
        proof { lemma_whole_number(0x4120_0000, 10, 20); }
        0x4120_0000
    } else if k == 2 {
        proof { lemma_whole_number(0x41a0_0000, 20, 19); }
        0x41a0_0000
    } else if k == 3 {
        proof { lemma_whole_number(0x41f0_0000, 30, 19); }
        0x41f0_0000
    } else if k == 4 {
        proof { lemma_whole_number(0x4220_0000, 40, 18); }
        0x4220_0000
    } else if k == 5 {
        proof { lemma_whole_number(0x4248_0000, 50, 18); }
        0x4248_0000
    } else if k == 6 {
        proof { lemma_whole_number(0x4270_0000, 60, 18); }
        0x4270_0000
    } else if k == 7 {
        proof { lemma_whole_number(0x428c_0000, 70, 17); }
        0x428c_0000
    } else if k == 8 {
        proof { lemma_whole_number(0x42a0_0000, 80, 17); }
        0x42a0_0000
    } else {
        proof { lemma_whole_number(0x42b4_0000, 90, 17); }
        0x42b4_0000
    }
}

/// 2^128, the first power of two beyond `u128`.
proof fn lemma_pow2_128()
    ensures
        pow2(128) == 0x1_0000_0000_0000_0000_0000_0000_0000_0000,
{
    lemma2_to64();
    lemma_pow2_adds(64, 64);
}

/// `2^n` for `n < 128`.
fn power_of_two(n: u32) -> (p: u128)
    requires
        n < 128,
    ensures
        p == pow2(n as nat),
{
    proof {
        lemma2_to64();
        lemma_pow2_128();
    }
    let mut p: u128 = 1;
    let mut i: u32 = 0;
    while i < n
        invariant
            i <= n < 128,
            p == pow2(i as nat),
            pow2(128) == 0x1_0000_0000_0000_0000_0000_0000_0000_0000,
        decreases n - i,
    {
        proof {
            lemma_pow2_unfold((i + 1) as nat);
            lemma_pow2_strictly_increases((i + 1) as nat, 128);
        }
        p = p * 2;
        i = i + 1;
    }
    p
}

/// Scaling numerator and denominator by the same factor keeps the rounding.
proof fn lemma_round_scale(s: nat, p: nat, a: nat)
    requires
        p > 0,
        a > 0,
    ensures
        round_half_even(s * a, p * a) == round_half_even(s, p),
{
    let q = s / p;
    let r = s % p;
    assert(s == q * p + r && 0 <= r < p) by {
        vstd::arithmetic::div_mod::lemma_fundamental_div_mod(s as int, p as int);
    }
    assert(s * a == q * (p * a) + r * a) by (nonlinear_arith)
        requires
            s == q * p + r,
    ;
    assert(0 <= r * a < p * a) by (nonlinear_arith)
        requires
            0 <= r < p,
            a > 0,
    ;
    lemma_fundamental_div_mod_converse((s * a) as int, (p * a) as int, q as int, (r * a) as int);
    assert((2 * r < p) <==> (2 * (r * a) < p * a)) by (nonlinear_arith)
        requires
            a > 0,
    ;
    assert((2 * r > p) <==> (2 * (r * a) > p * a)) by (nonlinear_arith)
        requires
            a > 0,
    ;
}

/// The magnitude of the finite value `b` rounded to a whole number, ties to even.
pub fn rounded_magnitude(b: u32) -> (n: u128)
    requires
        decode(b) is Finite,
    ensures
        n == round_half_even(scaled_of(magnitude_bits(b)), unit()),
{
    let m: u32 = b % SIGN_BIT;
    let e: u32 = m / 0x80_0000;
    let f: u32 = m % 0x80_0000;
    proof {
        lemma_fields(m as nat);
        lemma2_to64();
        lemma_pow2_pos(binade(m as nat));
        lemma_pow2_pos(149);
    }
    let sig: u128 = if e == 0 {
        f as u128
    } else {
        (f + 0x80_0000) as u128
    };
    let bin: u32 = if e == 0 {
        0
    } else {
        e - 1
    };
    assert(sig == significand(m as nat) && bin == binade(m as nat));
    if bin >= 149 {
        let k: u32 = bin - 149;
        let p = power_of_two(k);
        proof {
            lemma_pow2_pos(k as nat);
            lemma_pow2_128();
            lemma_pow2_adds(24, 104);
            if k < 104 {
                lemma_pow2_strictly_increases(k as nat, 104);
            }
            assert(sig * p < pow2(24) * pow2(104)) by (nonlinear_arith)
                requires
                    sig < pow2(24),
                    p <= pow2(104),
                    p > 0,
            ;
            lemma_pow2_adds(k as nat, 149);
            assert(scaled_of(m as nat) == (sig * p) * unit()) by (nonlinear_arith)
                requires
                    scaled_of(m as nat) == sig * pow2(bin as nat),
                    pow2(bin as nat) == p * unit(),
            ;
            lemma_round_scale((sig * p) as nat, 1, unit());
            assert(((sig * p) as nat) * unit() == scaled_of(m as nat));
            assert(1 * unit() == unit());
        }
        sig * p
    } else {
        let sh: u32 = 149 - bin;
        proof {
            lemma_pow2_pos(sh as nat);
            lemma_pow2_adds(sh as nat, bin as nat);
            assert(scaled_of(m as nat) == sig * pow2(bin as nat));
            lemma_round_scale(sig as nat, pow2(sh as nat), pow2(bin as nat));
        }
        if sh > 25 {
            proof {
                lemma_pow2_strictly_increases(25, sh as nat);
                lemma_fundamental_div_mod_converse(sig as int, pow2(sh as nat) as int, 0, sig as int);
            }
            0
        } else {
            let p = power_of_two(sh);
            let q = sig / p;
            let r = sig % p;
            if 2 * r < p {
                q
            } else if 2 * r > p {
                q + 1
            } else if q % 2 == 0 {
                q
            } else {
                q + 1
            }
        }
    }
}

/// Appends the decimal numeral of `n`.
fn push_decimal(out: &mut String, n: u128)
    ensures
        final(out)@ == old(out)@ + decimal(n as nat),
    decreases n,
{
    if n >= 10 {
        push_decimal(out, n / 10);
    }
    let d: u8 = (n % 10) as u8;
    push_char(out, (d + 48) as char);
    proof {
        if n < 10 {
            assert(decimal(n as nat) =~= seq![digit_char(n as nat)]);
        } else {
            assert(decimal(n as nat) =~= decimal((n / 10) as nat).push(digit_char((n % 10) as nat)));
        }
    }
}

/// The text shown for a volume: the value with no decimal places followed by '%'.
pub fn percent_label(b: u32) -> (s: String)
    ensures
        s@ == percent_text(b),
{
    let mut s = String::new();
    if is_nan(b) {
        push_char(&mut s, 'N');
        push_char(&mut s, 'a');
        push_char(&mut s, 'N');
        push_char(&mut s, '%');
        assert(s@ =~= percent_text(b));
        return s;
    }
    if b >= SIGN_BIT {
        push_char(&mut s, '-');
    }
    if b % SIGN_BIT == INFINITY_BITS {
        push_char(&mut s, 'i');
        push_char(&mut s, 'n');
        push_char(&mut s, 'f');
        push_char(&mut s, '%');
        assert(s@ =~= percent_text(b));
        return s;
    }
    proof {
        lemma_fields(magnitude_bits(b));
    }
    let n = rounded_magnitude(b);
    push_decimal(&mut s, n);
    push_char(&mut s, '%');
    assert(s@ =~= percent_text(b));
    s
}

/// Decimal numerals are ASCII digits.
pub proof fn lemma_decimal_digits(n: nat)
    ensures
        decimal(n).len() >= 1,
        forall|i: int| 0 <= i < decimal(n).len() ==> 48 <= #[trigger] decimal(n)[i] as int <= 57,
    decreases n,
{
    if n >= 10 {
        lemma_decimal_digits(n / 10);
    }
}

/// The volume text is ASCII, so its UTF-8 encoding has one byte per character.
pub proof fn lemma_percent_text_ascii(b: u32)
    ensures
        is_ascii_chars(percent_text(b)),
        encode_utf8(percent_text(b)).len() == percent_text(b).len(),
{
    let t = percent_text(b);
    if let Binary32::Finite { negative, scaled } = decode(b) {
        let n = round_half_even(scaled, unit());
        lemma_decimal_digits(n);
        let sign = if negative {
            seq!['-']
        } else {
            Seq::<char>::empty()
        };
        assert forall|i: int| 0 <= i < t.len() implies '\0' <= #[trigger] t[i] <= '\u{7f}' by {
            if i < sign.len() {
                assert(t[i] == '-');
            } else if i < sign.len() + decimal(n).len() {
                assert(t[i] == decimal(n)[i - sign.len()]);
            } else {
                assert(t[i] == '%');
            }
        }
    }
    assert(is_ascii_chars(t));
    is_ascii_chars_encode_utf8(t);
}

// ---------------------------------------------------------------------------
// Laws
// ---------------------------------------------------------------------------

/// Rounding gives the whole number nearest to `s / d` (within one half), and
/// an exact half goes to the even neighbour.
pub proof fn lemma_round_nearest(s: nat, d: nat)
    requires
        d > 0,
    ensures
        2 * (round_half_even(s, d) * d - s) <= d,
        2 * (s - round_half_even(s, d) * d) <= d,
        2 * (s % d) == d ==> round_half_even(s, d) % 2 == 0,
{
    let q = s / d;
    let r = s % d;
    vstd::arithmetic::div_mod::lemma_fundamental_div_mod(s as int, d as int);
    assert(s == q * d + r);
    assert((q + 1) * d == q * d + d) by (nonlinear_arith);
}

/// The decimal numeral of `n` spells `n`.
pub proof fn lemma_decimal_reads_back(n: nat)
    ensures
        numeral_value(decimal(n)) == n,
    decreases n,
{
    if n < 10 {
        let t = decimal(n);
        assert(t.drop_last() =~= Seq::<char>::empty());
        assert(numeral_value(t.drop_last()) == 0);
    } else {
        lemma_decimal_reads_back(n / 10);
        let t = decimal(n);
        assert(t.drop_last() =~= decimal(n / 10));
    }
}

/// Equality of numbers: a NaN equals nothing, every other value equals
/// itself, and equality is symmetric and transitive.
pub proof fn lemma_same_number_equivalence(a: u32, b: u32, c: u32)
    ensures
        same_number(a, a) <==> !(decode(a) is NotANumber),
        same_number(a, b) ==> same_number(b, a),
        same_number(a, b) && same_number(b, c) ==> same_number(a, c),
{
}

/// Every number is at most or at least any bound, and both exactly when equal to it;
/// a NaN is neither.
pub proof fn lemma_comparison_total(b: u32, s: nat)
    ensures
        !(decode(b) is NotANumber) ==> at_most(b, s) || at_least(b, s),
        decode(b) is NotANumber ==> !at_most(b, s) && !at_least(b, s),
        at_most(b, s) && at_least(b, s) ==> (decode(b) matches Binary32::Finite { scaled, .. }
            && scaled == s),
{
}

/// `a <= b` as binary32 numbers (false when either is a NaN).
pub open spec fn no_greater(a: u32, b: u32) -> bool {
    match (decode(a), decode(b)) {
        (Binary32::Infinity { negative: na }, Binary32::Infinity { negative: nb }) => na || !nb,
        (Binary32::Infinity { negative: na }, Binary32::Finite { .. }) => na,
        (Binary32::Finite { .. }, Binary32::Infinity { negative: nb }) => !nb,
        (
            Binary32::Finite { negative: na, scaled: sa },
            Binary32::Finite { negative: nb, scaled: sb },
        ) => (if na {
            -sa
        } else {
            sa as int
        }) <= (if nb {
            -sb
        } else {
            sb as int
        }),
        _ => false,
    }
}

/// Comparisons with a bound agree with the order of numbers: what is at most
/// a bound stays so for smaller numbers, what is at least a bound stays so for
/// larger ones.
pub proof fn lemma_bounds_follow_order(a: u32, b: u32, s: nat)
    requires
        no_greater(a, b),
    ensures
        at_most(b, s) ==> at_most(a, s),
        at_least(a, s) ==> at_least(b, s),
{
}

} // verus!
