//! Exact decimal quantities (stock, run-hours, measurements) as a mantissa and
//! a scale. Comparison and addition are done by `rust_decimal`, the crate the
//! stored values come from; sign changes are stated and done here.

use vstd::prelude::*;
use crate::json::decimal_text;

verus! {

/// The largest mantissa magnitude a decimal may carry (96 bits).
pub const MAX_MANTISSA: i128 = 0xFFFF_FFFF_FFFF_FFFF_FFFF_FFFFi128;

/// The largest number of fractional digits a decimal may carry.
pub const MAX_SCALE: u32 = 28u32;

/// A decimal number `mantissa / 10^scale`.
#[derive(Debug, Clone, Copy, PartialEq, Eq, Structural)]
pub struct Dec {
    pub mantissa: i128,
    pub scale: u32,
}

/// `10^n`.
pub open spec fn pow10(n: nat) -> int
    decreases n,
{
    if n == 0 {
        1
    } else {
        10 * pow10((n - 1) as nat)
    }
}

/// `10^n` is positive.
pub proof fn lemma_pow10_positive(n: nat)
    ensures
        pow10(n) > 0,
    decreases n,
{
    if n > 0 {
        lemma_pow10_positive((n - 1) as nat);
    }
}

impl Dec {
    /// A representable decimal: mantissa within 96 bits, scale at most 28.
    pub open spec fn wf(self) -> bool {
        -MAX_MANTISSA <= self.mantissa <= MAX_MANTISSA && self.scale <= MAX_SCALE
    }

    /// The pair of integers a decimal is made of.
    pub open spec fn parts(self) -> (int, int) {
        (self.mantissa as int, self.scale as int)
    }
}

/// `a < b` as numbers: cross-multiplied to a common scale.
pub open spec fn dec_less(a: Dec, b: Dec) -> bool {
    a.mantissa * pow10(b.scale as nat) < b.mantissa * pow10(a.scale as nat)
}

/// The exact sum of `a` and `b`, as a mantissa over `10^(a.scale + b.scale)`.
pub open spec fn exact_sum_mantissa(a: Dec, b: Dec) -> int {
    a.mantissa * pow10(b.scale as nat) + b.mantissa * pow10(a.scale as nat)
}

/// Whether the exact sum is representable with 96 bits at the larger scale,
/// in which case `rust_decimal` adds without rounding.
pub open spec fn sum_fits_exactly(a: Dec, b: Dec) -> bool {
    let s = if a.scale >= b.scale { a.scale } else { b.scale };
    let m = a.mantissa * pow10((s - a.scale) as nat) + b.mantissa * pow10((s - b.scale) as nat);
    -MAX_MANTISSA <= m <= MAX_MANTISSA
}

/// Whether `r` holds exactly the number `exact_sum_mantissa(a, b) / 10^(a.scale + b.scale)`.
pub open spec fn holds_exact_sum(r: Dec, a: Dec, b: Dec) -> bool {
    r.mantissa * pow10((a.scale + b.scale) as nat) == exact_sum_mantissa(a, b) * pow10(
        r.scale as nat,
    )
}

/// The sum far from the representable limit, so adding cannot overflow.
pub open spec fn sum_in_range(a: Dec, b: Dec) -> bool {
    let e = exact_sum_mantissa(a, b);
    let lim = (MAX_MANTISSA - 1) * pow10((a.scale + b.scale) as nat);
    -lim < e < lim
}

/// `k` zero digits.
pub open spec fn zeros(k: nat) -> Seq<char> {
    Seq::new(k, |i: int| '0')
}

/// How `rust_decimal` writes the decimal with parts `d` (mantissa, scale):
/// a minus sign for a negative mantissa; then, at scale zero, the digits of
/// the magnitude; otherwise the magnitude's digits left-padded with zeros to
/// at least `scale` digits, split by a point `scale` digits from the right,
/// with `0` before the point when nothing else is there.
pub open spec fn decimal_display(d: (int, int)) -> Seq<char> {
    let m = d.0;
    let scale = d.1 as nat;
    let mag: nat = if m < 0 {
        (-m) as nat
    } else {
        m as nat
    };
    let digits = if mag == 0 {
        Seq::<char>::empty()
    } else {
        decimal_text(mag)
    };
    let padded = if digits.len() < scale {
        zeros((scale - digits.len()) as nat) + digits
    } else {
        digits
    };
    let whole = padded.subrange(0, padded.len() - scale);
    let body = if scale == 0 {
        decimal_text(mag)
    } else {
        (if whole.len() == 0 {
            seq!['0']
        } else {
            whole
        }) + seq!['.'] + padded.subrange(padded.len() - scale, padded.len() as int)
    };
    if m < 0 {
        seq!['-'] + body
    } else {
        body
    }
}

/// `a + b` as `rust_decimal` gives it when no rounding is needed: the other
/// operand itself when one is zero, and otherwise the exact sum at the larger
/// of the two scales.
pub open spec fn exact_add(r: Dec, a: Dec, b: Dec) -> bool {
    if a.mantissa == 0 {
        r == b
    } else if b.mantissa == 0 {
        r == a
    } else {
        let s = if a.scale >= b.scale {
            a.scale
        } else {
            b.scale
        };
        r.scale == s && r.mantissa == a.mantissa * pow10((s - a.scale) as nat) + b.mantissa * pow10(
            (s - b.scale) as nat,
        )
    }
}

/// What `rust_decimal` returns for `a + b`, as mantissa and scale.
pub uninterp spec fn decimal_sum(a: (int, int), b: (int, int)) -> (int, int);

/// `rust_decimal::Decimal`'s `<` on the decimals built from `a` and `b` by
/// `Decimal::from_i128_with_scale` (which panics on values that are not
/// `wf`). Claims that `<` orders decimals by their numeric value.
#[verifier::external_body]
fn decimal_lt(a: Dec, b: Dec) -> (r: bool)
    requires
        a.wf(),
        b.wf(),
    ensures
        r == dec_less(a, b),
{
    rust_decimal::Decimal::from_i128_with_scale(a.mantissa, a.scale)
        < rust_decimal::Decimal::from_i128_with_scale(b.mantissa, b.scale)
}

/// `rust_decimal::Decimal`'s `+` on the decimals built from `a` and `b`, read
/// back through `mantissa()` and `scale()`. Claims a representable result,
/// named `decimal_sum`. When one operand is zero the result is the other
/// operand; when the exact sum fits at the larger scale the result is that
/// sum at that scale. When it does not fit, `rust_decimal` rounds to fewer
/// fractional digits; how it rounds is not stated here. `requires` keeps the
/// sum away from the overflow that makes `+` panic.
#[verifier::external_body]
fn decimal_add(a: Dec, b: Dec) -> (r: Dec)
    requires
        a.wf(),
        b.wf(),
        sum_in_range(a, b),
    ensures
        r.wf(),
        r.parts() == decimal_sum(a.parts(), b.parts()),
        a.mantissa == 0 || b.mantissa == 0 || sum_fits_exactly(a, b) ==> exact_add(r, a, b),
        sum_fits_exactly(a, b) ==> holds_exact_sum(r, a, b),
{
    let s = rust_decimal::Decimal::from_i128_with_scale(a.mantissa, a.scale)
        + rust_decimal::Decimal::from_i128_with_scale(b.mantissa, b.scale);
    Dec { mantissa: s.mantissa(), scale: s.scale() }
}

impl Dec {
    /// Zero.
    pub fn zero() -> (r: Dec)
        ensures
            r.wf(),
            r.mantissa == 0,
    {
        Dec { mantissa: 0, scale: 0 }
    }

    /// `self < other` by numeric value.
    pub fn lt(&self, other: &Dec) -> (r: bool)
        requires
            self.wf(),
            other.wf(),
        ensures
            r == dec_less(*self, *other),
    {
        decimal_lt(*self, *other)
    }

    /// `self <= other` by numeric value.
    pub fn le(&self, other: &Dec) -> (r: bool)
        requires
            self.wf(),
            other.wf(),
        ensures
            r == !dec_less(*other, *self),
    {
        !decimal_lt(*other, *self)
    }

    /// `self + other`.
    pub fn add(&self, other: &Dec) -> (r: Dec)
        requires
            self.wf(),
            other.wf(),
            sum_in_range(*self, *other),
        ensures
            r.wf(),
            r.parts() == decimal_sum(self.parts(), other.parts()),
            self.mantissa == 0 || other.mantissa == 0 || sum_fits_exactly(*self, *other)
                ==> exact_add(r, *self, *other),
            sum_fits_exactly(*self, *other) ==> holds_exact_sum(r, *self, *other),
    {
        decimal_add(*self, *other)
    }

    /// `-self`.
    pub fn neg(&self) -> (r: Dec)
        requires
            self.wf(),
        ensures
            r.wf(),
            r.mantissa == -self.mantissa,
            r.scale == self.scale,
    {
        Dec { mantissa: -self.mantissa, scale: self.scale }
    }

    /// `|self|`.
    pub fn abs(&self) -> (r: Dec)
        requires
            self.wf(),
        ensures
            r.wf(),
            r.mantissa == (if self.mantissa < 0 {
                -self.mantissa
            } else {
                self.mantissa as int
            }),
            r.scale == self.scale,
    {
        if self.mantissa < 0 {
            Dec { mantissa: -self.mantissa, scale: self.scale }
        } else {
            *self
        }
    }

    /// Whether the value is strictly positive.
    pub fn is_positive(&self) -> (r: bool)
        ensures
            r == (self.mantissa > 0),
    {
        self.mantissa > 0
    }
}

/// Comparison by value is a strict order: irreflexive and transitive.
pub proof fn lemma_dec_less_strict_order(a: Dec, b: Dec, c: Dec)
    ensures
        !dec_less(a, a),
        dec_less(a, b) && dec_less(b, c) ==> dec_less(a, c),
{
    lemma_pow10_positive(a.scale as nat);
    lemma_pow10_positive(b.scale as nat);
    lemma_pow10_positive(c.scale as nat);
    let pa = pow10(a.scale as nat);
    let pb = pow10(b.scale as nat);
    let pc = pow10(c.scale as nat);
    if dec_less(a, b) && dec_less(b, c) {
        assert(a.mantissa * pb * pc < b.mantissa * pa * pc) by (nonlinear_arith)
            requires
                a.mantissa * pb < b.mantissa * pa,
                pc > 0,
        ;
        assert(b.mantissa * pc * pa < c.mantissa * pb * pa) by (nonlinear_arith)
            requires
                b.mantissa * pc < c.mantissa * pb,
                pa > 0,
        ;
        assert(a.mantissa * pc * pb < c.mantissa * pa * pb) by (nonlinear_arith)
            requires
                a.mantissa * pb * pc < b.mantissa * pa * pc,
                b.mantissa * pc * pa < c.mantissa * pb * pa,
        ;
        assert(a.mantissa * pc < c.mantissa * pa) by (nonlinear_arith)
            requires
                a.mantissa * pc * pb < c.mantissa * pa * pb,
                pb > 0,
        ;
    }
}

} // verus!
