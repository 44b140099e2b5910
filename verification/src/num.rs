//! Decimal numbers.
//!
//! Schema bounds (`minimum`, `maximum`) and non-integral JSON numbers are
//! held as scaled decimals: a signed mantissa and a power-of-ten scale, so
//! that every comparison the validator makes is exact integer arithmetic.

use vstd::prelude::*;

verus! {

/// Largest scale a well-formed decimal may carry; keeps every cross-scale
/// comparison inside `i128`.
pub const MAX_SCALE: u32 = 18;

/// A decimal number `mant / 10^scale`.
#[derive(Clone, Copy, Debug)]
pub struct Dec {
    pub mant: i64,
    pub scale: u32,
}

/// `10^e` as a mathematical integer.
pub open spec fn pow10(e: nat) -> int
    decreases e,
{
    if e == 0 {
        1
    } else {
        10 * pow10((e - 1) as nat)
    }
}

impl Dec {
    /// A decimal is well formed when its scale is small enough for exact
    /// comparison.
    pub open spec fn wf(self) -> bool {
        self.scale <= MAX_SCALE
    }

    /// The value of this decimal, scaled up to a common grid of `10^-MAX_SCALE`:
    /// two well-formed decimals are numerically equal exactly when their
    /// scaled values are equal.
    pub open spec fn scaled(self) -> int {
        self.mant * pow10((MAX_SCALE - self.scale) as nat)
    }
}

proof fn lemma_pow10_pos(e: nat)
    ensures
        pow10(e) >= 1,
    decreases e,
{
    if e > 0 {
        lemma_pow10_pos((e - 1) as nat);
    }
}

proof fn lemma_pow10_mono(a: nat, b: nat)
    requires
        a <= b,
    ensures
        pow10(a) <= pow10(b),
    decreases b,
{
    if a < b {
        lemma_pow10_mono(a, (b - 1) as nat);
        lemma_pow10_pos((b - 1) as nat);
    }
}

proof fn lemma_pow10_bounds(e: nat)
    requires
        e <= MAX_SCALE,
    ensures
        1 <= pow10(e) <= 1_000_000_000_000_000_000,
{
    lemma_pow10_pos(e);
    lemma_pow10_mono(e, MAX_SCALE as nat);
    reveal_with_fuel(pow10, 19);
    assert(pow10(MAX_SCALE as nat) == 1_000_000_000_000_000_000);
}

/// `10^e` for `e <= MAX_SCALE`, as an `i128`.
fn pow10_i128(e: u32) -> (r: i128)
    requires
        e <= MAX_SCALE,
    ensures
        r == pow10(e as nat),
        1 <= r <= 1_000_000_000_000_000_000i128,
{
    proof {
        lemma_pow10_bounds(e as nat);
    }
    let mut r: i128 = 1;
    let mut i: u32 = 0;
    while i < e
        invariant
            i <= e,
            e <= MAX_SCALE,
            r == pow10(i as nat),
            1 <= r <= 1_000_000_000_000_000_000i128,
        decreases e - i,
    {
        proof {
            lemma_pow10_bounds(e as nat);
            lemma_pow10_bounds((i + 1) as nat);
        }
        r = r * 10;
        i = i + 1;
    }
    r
}

proof fn lemma_scaled_product(d: Dec)
    requires
        d.wf(),
    ensures
        d.scaled() == d.mant * pow10((MAX_SCALE - d.scale) as nat),
        -170_141_183_460_469_231_731_687_303_715_884_105_727i128 <= d.scaled()
            <= 170_141_183_460_469_231_731_687_303_715_884_105_727i128,
{
    let p = pow10((MAX_SCALE - d.scale) as nat);
    lemma_pow10_bounds((MAX_SCALE - d.scale) as nat);
    assert(-170_141_183_460_469_231_731_687_303_715_884_105_727i128 <= d.mant * p
        <= 170_141_183_460_469_231_731_687_303_715_884_105_727i128) by (nonlinear_arith)
        requires
            1 <= p <= 1_000_000_000_000_000_000,
            i64::MIN <= d.mant <= i64::MAX,
    ;
}

/// The scaled value of a decimal, computed exactly.
fn scaled_i128(d: &Dec) -> (r: i128)
    requires
        d.wf(),
    ensures
        r == d.scaled(),
{
    proof {
        lemma_scaled_product(*d);
    }
    let p = pow10_i128(MAX_SCALE - d.scale);
    proof {
        assert((d.mant as i128) * p == d.scaled()) by (nonlinear_arith)
            requires
                p == pow10((MAX_SCALE - d.scale) as nat),
                d.scaled() == d.mant * pow10((MAX_SCALE - d.scale) as nat),
        ;
    }
    (d.mant as i128) * p
}

/// Numeric equality of two well-formed decimals.
pub open spec fn spec_dec_eq(a: Dec, b: Dec) -> bool {
    a.scaled() == b.scaled()
}

/// Numeric order of two well-formed decimals.
pub open spec fn spec_dec_le(a: Dec, b: Dec) -> bool {
    a.scaled() <= b.scaled()
}

/// Whether `a` and `b` denote the same number.
pub fn dec_eq(a: &Dec, b: &Dec) -> (r: bool)
    requires
        a.wf(),
        b.wf(),
    ensures
        r == spec_dec_eq(*a, *b),
{
    scaled_i128(a) == scaled_i128(b)
}

/// Whether `a <= b` numerically.
pub fn dec_le(a: &Dec, b: &Dec) -> (r: bool)
    requires
        a.wf(),
        b.wf(),
    ensures
        r == spec_dec_le(*a, *b),
{
    scaled_i128(a) <= scaled_i128(b)
}

/// The decimal denoting the integer `i`.
pub open spec fn spec_dec_of_int(i: i64) -> Dec {
    Dec { mant: i, scale: 0 }
}

/// Wraps an integer as a decimal.
pub fn dec_of_int(i: i64) -> (r: Dec)
    ensures
        r == spec_dec_of_int(i),
        r.wf(),
{
    Dec { mant: i, scale: 0 }
}

} // verus!
