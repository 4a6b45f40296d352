//! Confidence scores: 64-bit floating point numbers, held by their bits and
//! compared and printed over the integers.

use vstd::arithmetic::div_mod::{
    lemma_fundamental_div_mod, lemma_fundamental_div_mod_converse_div,
    lemma_fundamental_div_mod_converse_mod,
};
use vstd::arithmetic::power2::{lemma_pow2_adds, lemma_pow2_pos, lemma_pow2_unfold, pow2};
use vstd::prelude::*;

use crate::text::{
    decimal, digit_char, digits_value, law_digits_count_in_tens, lemma_decimal_value, push_decimal,
};

verus! {

/// One more than the largest fraction field: two to the power 52.
pub const FRACTION_END: u64 = 0x0010_0000_0000_0000;

/// The bits of infinity. Above them, but for the sign, lie the not-a-numbers.
pub const INFINITY_BITS: u64 = 0x7ff0_0000_0000_0000;

/// The bits of one.
pub const ONE_BITS: u64 = 0x3ff0_0000_0000_0000;

/// The sign bit.
pub const SIGN_BIT: u64 = 0x8000_0000_0000_0000;

/// A floating point number of IEEE 754's binary64 format.
#[derive(Debug)]
pub struct Score {
    /// Its bits: the sign, eleven bits of exponent, 52 bits of fraction.
    pub bits: u64,
    /// The shortest decimal text that reads back as this number.
    pub shown: String,
}

/// A score's model: the bits and the text.
pub struct ScoreView {
    pub bits: u64,
    pub shown: Seq<char>,
}

impl View for Score {
    type V = ScoreView;

    open spec fn view(&self) -> ScoreView {
        ScoreView { bits: self.bits, shown: self.shown@ }
    }
}

impl Clone for Score {
    fn clone(&self) -> (copy: Self)
        ensures
            copy == *self,
    {
        Score { bits: self.bits, shown: self.shown.clone() }
    }
}

/// Whether the sign bit is set.
pub open spec fn is_negative(bits: u64) -> bool {
    bits >= SIGN_BIT
}

/// The bits without the sign.
pub open spec fn magnitude_bits(bits: u64) -> u64 {
    if bits >= SIGN_BIT {
        (bits - SIGN_BIT) as u64
    } else {
        bits
    }
}

/// Whether the bits stand for no number.
pub open spec fn is_nan(bits: u64) -> bool {
    magnitude_bits(bits) > INFINITY_BITS
}

/// The integer in front of the power of two: the fraction field, with the
/// hidden bit where the exponent field is not zero.
pub open spec fn significand(mag: u64) -> nat {
    if mag < FRACTION_END {
        mag as nat
    } else {
        (mag % FRACTION_END + FRACTION_END) as nat
    }
}

/// The power of two, counted from the smallest one.
pub open spec fn steps(mag: u64) -> nat {
    if mag < FRACTION_END {
        0
    } else {
        (mag / FRACTION_END - 1) as nat
    }
}

/// The magnitude in units of the smallest positive number, two to the power
/// -1074. Infinity counts as the number that would follow the largest one.
pub open spec fn units(mag: u64) -> nat {
    significand(mag) * pow2(steps(mag))
}

/// The number in units of the smallest positive one.
pub open spec fn signed_units(bits: u64) -> int {
    if is_negative(bits) {
        -(units(magnitude_bits(bits)) as int)
    } else {
        units(magnitude_bits(bits)) as int
    }
}

/// The units in one.
pub open spec fn one_units() -> nat {
    pow2(1074)
}

/// Whether the first number is less than the second. Nothing is less than what
/// is no number, nor the other way round.
pub open spec fn is_less(a: u64, b: u64) -> bool {
    !is_nan(a) && !is_nan(b) && signed_units(a) < signed_units(b)
}

/// Whether the number lies between zero and one, both included.
pub open spec fn in_unit_interval(bits: u64) -> bool {
    !is_nan(bits) && 0 <= signed_units(bits) <= one_units()
}

/// Larger bits, larger magnitude.
pub proof fn lemma_units_increase(a: u64, b: u64)
    requires
        a < b < SIGN_BIT,
    ensures
        units(a) < units(b),
{
    let sa = significand(a);
    let sb = significand(b);
    let ea = steps(a);
    let eb = steps(b);
    lemma_pow2_pos(ea);
    lemma_pow2_pos(eb);
    if ea == eb {
        assert(sa < sb);
        let p = pow2(ea);
        assert(sa * p < sb * p) by (nonlinear_arith)
            requires
                sa < sb,
                p > 0,
        ;
    } else {
        assert(ea < eb);
        let gap = (eb - ea) as nat;
        lemma_pow2_adds(ea, gap);
        lemma_pow2_pos(gap);
        lemma_pow2_unfold(gap);
        lemma_pow2_pos((gap - 1) as nat);
        let p = pow2(ea);
        let g = pow2(gap);
        assert(g >= 2);
        assert(sa < 2 * FRACTION_END);
        assert(sb >= FRACTION_END);
        assert(sa * p < sb * (p * g)) by (nonlinear_arith)
            requires
                sa < 2 * FRACTION_END,
                sb >= FRACTION_END,
                g >= 2,
                p > 0,
        ;
    }
}

proof fn lemma_zero_units()
    ensures
        units(0) == 0,
{
    let p = pow2(steps(0));
    assert(0nat * p == 0) by (nonlinear_arith);
}

proof fn lemma_one_units()
    ensures
        units(ONE_BITS) == one_units(),
{
    assert(steps(ONE_BITS) == 1022);
    assert(significand(ONE_BITS) == FRACTION_END);
    vstd::arithmetic::power2::lemma2_to64_rest();
    assert(pow2(52) == FRACTION_END);
    lemma_pow2_adds(52, 1022);
}

/// Equal magnitudes have equal units, larger ones more; so the order of the
/// units is the order of the bits.
proof fn lemma_units_order(a: u64, b: u64)
    requires
        a < SIGN_BIT,
        b < SIGN_BIT,
    ensures
        units(a) < units(b) <==> a < b,
        units(a) == units(b) <==> a == b,
{
    if a < b {
        lemma_units_increase(a, b);
    } else if b < a {
        lemma_units_increase(b, a);
    }
}

fn magnitude_of(bits: u64) -> (mag: u64)
    ensures
        mag == magnitude_bits(bits),
        mag < SIGN_BIT,
{
    if bits >= SIGN_BIT {
        bits - SIGN_BIT
    } else {
        bits
    }
}

/// The nearest integer to `num / den`; of two nearest ones the even one.
pub open spec fn rounded_half_even(num: nat, den: nat) -> nat {
    let quotient = num / den;
    let remainder = num % den;
    if remainder * 2 > den || (remainder * 2 == den && quotient % 2 == 1) {
        quotient + 1
    } else {
        quotient
    }
}

/// A magnitude in hundredths, rounded to the nearest.
pub open spec fn hundredths(mag: u64) -> nat {
    rounded_half_even(units(mag) * 100, one_units())
}

/// A number of hundredths as a decimal with two places.
pub open spec fn hundredths_text(h: nat) -> Seq<char> {
    decimal(h / 100) + seq!['.'] + seq![digit_char(h / 10 % 10), digit_char(h % 10)]
}

/// The number as a decimal with two places.
pub open spec fn two_places(bits: u64) -> Seq<char> {
    let mag = magnitude_bits(bits);
    let sign = if is_negative(bits) {
        seq!['-']
    } else {
        Seq::empty()
    };
    if is_nan(bits) {
        "NaN"@
    } else if mag == INFINITY_BITS {
        sign + "inf"@
    } else {
        sign + hundredths_text(hundredths(mag))
    }
}

proof fn lemma_rounding_cancels(num: nat, den: nat, c: nat)
    requires
        den > 0,
        c > 0,
    ensures
        rounded_half_even(num * c, den * c) == rounded_half_even(num, den),
{
    let q = num as int / den as int;
    let r = num as int % den as int;
    lemma_fundamental_div_mod(num as int, den as int);
    assert(num * c == q * (den * c) + r * c) by (nonlinear_arith)
        requires
            num == den * q + r,
    ;
    assert(0 <= r * c < den * c) by (nonlinear_arith)
        requires
            0 <= r < den,
            c > 0,
    ;
    lemma_fundamental_div_mod_converse_div((num * c) as int, (den * c) as int, q, r * c);
    lemma_fundamental_div_mod_converse_mod((num * c) as int, (den * c) as int, q, r * c);
    assert(r * 2 > den <==> (r * c) * 2 > den * c) by (nonlinear_arith)
        requires
            c > 0,
    ;
    assert(r * 2 == den <==> (r * c) * 2 == den * c) by (nonlinear_arith)
        requires
            c > 0,
    ;
}

/// The number that decimal digits, most significant first, stand for.
spec fn digits_number(d: Seq<u8>) -> nat
    decreases d.len(),
{
    if d.len() == 0 {
        0
    } else {
        digits_number(d.drop_last()) * 10 + d.last() as nat
    }
}

spec fn proper_digits(d: Seq<u8>) -> bool {
    &&& forall|i: int| 0 <= i < d.len() ==> #[trigger] d[i] < 10
    &&& d.len() > 0 ==> d[0] > 0
}

proof fn lemma_proper_prefix(d: Seq<u8>)
    requires
        proper_digits(d),
        d.len() > 0,
    ensures
        proper_digits(d.drop_last()),
        digits_number(d) > 0,
    decreases d.len(),
{
    if d.len() > 1 {
        lemma_proper_prefix(d.drop_last());
    }
}

proof fn lemma_proper_digits_text(d: Seq<u8>)
    requires
        proper_digits(d),
        d.len() > 0,
    ensures
        decimal(digits_number(d)) == Seq::new(d.len(), |i: int| digit_char(d[i] as nat)),
    decreases d.len(),
{
    lemma_proper_prefix(d);
    let prefix = d.drop_last();
    let n = digits_number(d);
    let text = Seq::new(d.len(), |i: int| digit_char(d[i] as nat));
    if d.len() == 1 {
        assert(digits_number(prefix) == 0);
        assert(decimal(n) =~= text);
    } else {
        lemma_proper_prefix(prefix);
        lemma_proper_digits_text(prefix);
        assert(n / 10 == digits_number(prefix));
        assert(n % 10 == d.last() as nat);
        assert(decimal(n) =~= text);
    }
}

fn digits_of(n: u64) -> (d: Vec<u8>)
    ensures
        proper_digits(d@),
        digits_number(d@) == n,
    decreases n,
{
    if n == 0 {
        return Vec::new();
    }
    let mut d = digits_of(n / 10);
    let ghost before = d@;
    d.push((n % 10) as u8);
    proof {
        assert(d@.drop_last() =~= before);
        if before.len() > 0 {
            lemma_proper_prefix(before);
        }
    }
    d
}

/// Twice the number of the first `len` digits, plus a carry.
fn double_digits(d: &Vec<u8>, len: usize, carry: u8) -> (twice: Vec<u8>)
    requires
        len <= d@.len(),
        proper_digits(d@),
        carry < 2,
    ensures
        proper_digits(twice@),
        digits_number(twice@) == digits_number(d@.take(len as int)) * 2 + carry,
    decreases len,
{
    let mut twice: Vec<u8>;
    if len == 0 {
        twice = Vec::new();
        if carry > 0 {
            twice.push(carry);
        }
        proof {
            reveal_with_fuel(digits_number, 2);
        }
        return twice;
    }
    let sum: u8 = d[len - 1] * 2 + carry;
    twice = double_digits(d, len - 1, sum / 10);
    let ghost before = twice@;
    twice.push(sum % 10);
    proof {
        assert(twice@.drop_last() =~= before);
        assert(d@.take(len as int).drop_last() =~= d@.take(len - 1));
        if before.len() > 0 {
            lemma_proper_prefix(before);
        } else {
            if len > 1 {
                let shorter = d@.take(len - 1);
                assert(proper_digits(shorter));
                lemma_proper_prefix(shorter);
            }
            assert(len == 1);
            assert(d@[0] > 0);
        }
    }
    twice
}

/// Appends the decimal digits of `n` times two to the power `doublings`.
fn push_shifted_decimal(out: &mut String, n: u64, doublings: u64)
    requires
        n > 0,
    ensures
        final(out)@ == old(out)@ + decimal(n as nat * pow2(doublings as nat)),
{
    let mut d = digits_of(n);
    let mut i: u64 = 0;
    proof {
        vstd::arithmetic::power2::lemma2_to64();
    }
    while i < doublings
        invariant
            i <= doublings,
            proper_digits(d@),
            digits_number(d@) == n as nat * pow2(i as nat),
        decreases doublings - i,
    {
        let len = d.len();
        let twice = double_digits(&d, len, 0);
        proof {
            assert(d@.take(len as int) =~= d@);
            lemma_pow2_unfold((i + 1) as nat);
            let p = pow2(i as nat);
            let q = pow2((i + 1) as nat);
            assert(n as nat * q == n as nat * p * 2) by (nonlinear_arith)
                requires
                    q == 2 * p,
            ;
        }
        d = twice;
        i = i + 1;
    }
    let ghost text = Seq::new(d@.len(), |k: int| digit_char(d@[k] as nat));
    proof {
        lemma_pow2_pos(doublings as nat);
        let p = pow2(doublings as nat);
        assert(n as nat * p > 0) by (nonlinear_arith)
            requires
                n > 0,
                p > 0,
        ;
        assert(d@.len() > 0);
        lemma_proper_digits_text(d@);
    }
    let ghost start = out@;
    let mut k: usize = 0;
    while k < d.len()
        invariant
            k <= d@.len(),
            proper_digits(d@),
            text == Seq::new(d@.len(), |k: int| digit_char(d@[k] as nat)),
            out@ == start + text.take(k as int),
        decreases d.len() - k,
    {
        push_digit(out, d[k]);
        proof {
            assert(text.take(k + 1) =~= text.take(k as int).push(text[k as int]));
            assert(out@ =~= start + text.take(k + 1));
        }
        k = k + 1;
    }
    proof {
        assert(text.take(text.len() as int) =~= text);
    }
}

fn push_digit(out: &mut String, d: u8)
    requires
        d < 10,
    ensures
        final(out)@ == old(out)@.push(digit_char(d as nat)),
{
    push_decimal(out, d as u64);
    proof {
        assert(out@ =~= old(out)@.push(digit_char(d as nat)));
    }
}

/// The hundredths of a number that is no multiple of a higher power of two
/// than its own fraction allows.
fn small_hundredths(mag: u64) -> (h: u64)
    requires
        mag < INFINITY_BITS,
        steps(mag) < 1074,
    ensures
        h == hundredths(mag),
{
    let sig: u64 = if mag < FRACTION_END {
        mag
    } else {
        mag % FRACTION_END + FRACTION_END
    };
    let step: u64 = if mag < FRACTION_END {
        0
    } else {
        mag / FRACTION_END - 1
    };
    let k: u64 = 1074 - step;
    let num: u128 = sig as u128 * 100;
    proof {
        lemma_pow2_adds(k as nat, step as nat);
        lemma_pow2_pos(k as nat);
        lemma_pow2_pos(step as nat);
        let p = pow2(step as nat);
        assert((sig as nat * p) * 100 == (sig as nat * 100) * p) by (nonlinear_arith);
        lemma_rounding_cancels(num as nat, pow2(k as nat), pow2(step as nat));
    }
    if k > 64 {
        proof {
            let extra = (k - 64) as nat;
            lemma_pow2_adds(64, extra);
            lemma_pow2_pos(extra);
            vstd::arithmetic::power2::lemma2_to64();
            let e = pow2(extra);
            let d = pow2(k as nat);
            assert(d >= 0x1_0000_0000_0000_0000) by (nonlinear_arith)
                requires
                    d == 0x1_0000_0000_0000_0000nat * e,
                    e > 0,
            ;
            assert(num as int / d as int == 0 && num as int % d as int == num) by (nonlinear_arith)
                requires
                    0 <= num < d,
            ;
        }
        return 0;
    }
    let mut den: u128 = 1;
    let mut i: u64 = 0;
    proof {
        vstd::arithmetic::power2::lemma2_to64();
    }
    while i < k
        invariant
            i <= k <= 64,
            den == pow2(i as nat),
            den <= 0x1_0000_0000_0000_0000,
            pow2(64) == 0x1_0000_0000_0000_0000,
        decreases k - i,
    {
        proof {
            lemma_pow2_unfold((i + 1) as nat);
            if i + 1 < 64 {
                vstd::arithmetic::power2::lemma_pow2_strictly_increases((i + 1) as nat, 64);
            }
        }
        den = den * 2;
        i = i + 1;
    }
    let quotient: u128 = num / den;
    let remainder: u128 = num % den;
    proof {
        assert(quotient <= num) by (nonlinear_arith)
            requires
                quotient == num / den,
                den >= 1,
        ;
    }
    if remainder * 2 > den || (remainder * 2 == den && quotient % 2 == 1) {
        (quotient + 1) as u64
    } else {
        quotient as u64
    }
}

impl Score {
    /// The score of the given bits that prints as `shown`.
    pub fn new(bits: u64, shown: String) -> (score: Self)
        ensures
            score@ == (ScoreView { bits, shown: shown@ }),
    {
        Score { bits, shown }
    }

    /// Whether this score is less than `other`.
    pub fn less_than(&self, other: &Score) -> (less: bool)
        ensures
            less == is_less(self.bits, other.bits),
    {
        let a = magnitude_of(self.bits);
        let b = magnitude_of(other.bits);
        if a > INFINITY_BITS || b > INFINITY_BITS {
            return false;
        }
        let negative = self.bits >= SIGN_BIT;
        let other_negative = other.bits >= SIGN_BIT;
        proof {
            lemma_units_order(a, b);
            lemma_units_order(a, 0);
            lemma_units_order(b, 0);
            lemma_zero_units();
        }
        if negative {
            if other_negative {
                b < a
            } else {
                a > 0 || b > 0
            }
        } else {
            !other_negative && a < b
        }
    }

    /// Whether this score lies between zero and one.
    pub fn is_confidence(&self) -> (valid: bool)
        ensures
            valid == in_unit_interval(self.bits),
    {
        let mag = magnitude_of(self.bits);
        proof {
            lemma_units_order(mag, 0);
            lemma_units_order(mag, ONE_BITS);
            lemma_zero_units();
            lemma_one_units();
            lemma_pow2_pos(1074);
        }
        if mag == 0 {
            true
        } else {
            self.bits < SIGN_BIT && mag <= ONE_BITS
        }
    }

    /// The score as a decimal with two places.
    pub fn to_two_places(&self) -> (s: String)
        ensures
            s@ == two_places(self.bits),
    {
        let mag = magnitude_of(self.bits);
        if mag > INFINITY_BITS {
            return String::from_str("NaN");
        }
        let mut s = String::new();
        if self.bits >= SIGN_BIT {
            s.push('-');
        }
        let ghost sign = s@;
        proof {
            let expected = if is_negative(self.bits) {
                seq!['-']
            } else {
                Seq::<char>::empty()
            };
            assert(sign =~= expected);
        }
        if mag == INFINITY_BITS {
            s.append("inf");
            return s;
        }
        if mag >= FRACTION_END && mag / FRACTION_END > 1074 {
            let sig: u64 = mag % FRACTION_END + FRACTION_END;
            let doublings: u64 = mag / FRACTION_END - 1075;
            push_shifted_decimal(&mut s, sig, doublings);
            s.push('.');
            s.push('0');
            s.push('0');
            proof {
                let whole = sig as nat * pow2(doublings as nat);
                lemma_pow2_adds(doublings as nat, 1074);
                lemma_pow2_pos(1074);
                let p = pow2(doublings as nat);
                let one = one_units();
                assert(units(mag) * 100 == (whole * 100) * one) by (nonlinear_arith)
                    requires
                        units(mag) == sig as nat * (p * one),
                        whole == sig as nat * p,
                ;
                lemma_rounding_cancels(whole * 100, 1, one);
                assert(hundredths(mag) == whole * 100);
                let h = hundredths(mag);
                assert(h / 100 == whole && h / 10 % 10 == 0 && h % 10 == 0);
                assert(s@ =~= sign + hundredths_text(h));
            }
            return s;
        }
        let h = small_hundredths(mag);
        push_decimal(&mut s, h / 100);
        s.push('.');
        push_digit(&mut s, (h / 10 % 10) as u8);
        push_digit(&mut s, (h % 10) as u8);
        proof {
            assert(s@ =~= sign + hundredths_text(h as nat));
        }
        s
    }
}

/// Of two scores that are numbers, exactly one of three holds: the first is
/// less, the second is less, or they are the same number.
pub proof fn law_score_order_is_total(a: u64, b: u64)
    requires
        !is_nan(a),
        !is_nan(b),
    ensures
        is_less(a, b) || is_less(b, a) || signed_units(a) == signed_units(b),
        !(is_less(a, b) && is_less(b, a)),
{
}

/// Scores are ordered as their bits are: two positive ones in the same order, two
/// negative ones the other way round, a negative one below a positive one unless
/// both are zero; and what is no number is neither less nor more.
pub proof fn law_scores_are_ordered_by_their_bits(a: u64, b: u64)
    ensures
        a <= INFINITY_BITS && b <= INFINITY_BITS ==> (is_less(a, b) <==> a < b),
        SIGN_BIT <= a <= SIGN_BIT + INFINITY_BITS && SIGN_BIT <= b <= SIGN_BIT + INFINITY_BITS
            ==> (is_less(a, b) <==> b < a),
        SIGN_BIT <= a <= SIGN_BIT + INFINITY_BITS && b <= INFINITY_BITS ==> (is_less(a, b) <==> !(a
            == SIGN_BIT && b == 0)),
        SIGN_BIT <= a <= SIGN_BIT + INFINITY_BITS && b <= INFINITY_BITS ==> !is_less(b, a),
        INFINITY_BITS < a < SIGN_BIT || a > SIGN_BIT + INFINITY_BITS ==> !is_less(a, b) && !is_less(
            b,
            a,
        ),
{
    let x = magnitude_bits(a);
    let y = magnitude_bits(b);
    lemma_units_order(x, y);
    lemma_zero_units();
    lemma_units_order(x, 0);
    lemma_units_order(y, 0);
}

/// A confidence is in range exactly if its bits are those of zero, of one or of a
/// number between, or of the zero with a sign.
pub proof fn law_confidences_are_in_range_by_their_bits(bits: u64)
    ensures
        in_unit_interval(bits) <==> bits <= 0x3ff0_0000_0000_0000 || bits == 0x8000_0000_0000_0000,
{
    let mag = magnitude_bits(bits);
    lemma_zero_units();
    lemma_one_units();
    lemma_units_order(mag, 0);
    lemma_units_order(mag, ONE_BITS);
}

/// Rounding goes to the nearest integer: no more than half a step away, and
/// where that is exactly half, to an even one.
pub proof fn law_rounding_is_to_the_nearest(num: nat, den: nat)
    requires
        den > 0,
    ensures
        ({
            let r = rounded_half_even(num, den);
            &&& 2 * (num - r * den) <= den
            &&& 2 * (r * den - num) <= den
            &&& 2 * (num - r * den) == den || 2 * (r * den - num) == den ==> r % 2 == 0
        }),
{
    let q = num / den;
    let m = num % den;
    lemma_fundamental_div_mod(num as int, den as int);
    assert(num == den * q + m);
    assert(q * den == den * q) by (nonlinear_arith);
    assert((q + 1) * den == den * q + den) by (nonlinear_arith);
}

/// A number of hundredths is written with a point before its last two digits:
/// without the point, its digits read as that number.
pub proof fn law_hundredths_have_two_places(h: nat)
    ensures
        ({
            let t = hundredths_text(h);
            let n = t.len() - 3;
            &&& n > 0
            &&& t[n] == '.'
            &&& digits_value(t.remove(n)) == h
        }),
{
    let whole = decimal(h / 100);
    let d = digit_char(h / 10 % 10);
    let e = digit_char(h % 10);
    let t = hundredths_text(h);
    lemma_decimal_value(h / 100);
    law_digits_count_in_tens(whole, h / 10 % 10);
    law_digits_count_in_tens(whole.push(d), h % 10);
    assert(t.remove(t.len() - 3) =~= whole.push(d).push(e));
}

/// A finite score is shown as the hundredths that are nearest to it, after a sign
/// where it has one.
pub proof fn law_a_score_is_shown_to_the_nearest_hundredth(bits: u64)
    requires
        bits < INFINITY_BITS || SIGN_BIT <= bits < SIGN_BIT + INFINITY_BITS,
    ensures
        exists|h: nat|
            two_places(bits) == (if bits >= SIGN_BIT {
                seq!['-']
            } else {
                Seq::empty()
            }) + #[trigger] hundredths_text(h) && 2 * (units(magnitude_bits(bits)) * 100 - h
                * one_units()) <= one_units() && 2 * (h * one_units() - units(magnitude_bits(bits))
                * 100) <= one_units(),
{
    lemma_pow2_pos(1074);
    let h = hundredths(magnitude_bits(bits));
    law_rounding_is_to_the_nearest(units(magnitude_bits(bits)) * 100, one_units());
    assert(two_places(bits) == (if bits >= SIGN_BIT {
        seq!['-']
    } else {
        Seq::empty()
    }) + hundredths_text(h));
}

} // verus!
