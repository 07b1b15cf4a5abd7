//! The position along an interpolation segment, as a fraction in `[0, 1]`.

use vstd::prelude::*;

verus! {

/// The number of raw steps that make a whole: a raw count `n` stands for the
/// fraction `n / UNIT`.
pub const UNIT: u64 = 0x1_0000_0000;

/// The raw count of the smaller of `total` and a whole.
pub open spec fn clamp_unit(total: nat) -> nat {
    if total >= UNIT {
        UNIT as nat
    } else {
        total
    }
}

/// The raw count of `num / den`, rounded up to the next raw step and held to
/// a whole; a zero denominator counts as a whole.
pub open spec fn ratio_steps(num: nat, den: nat) -> nat {
    if den == 0 || num >= den {
        UNIT as nat
    } else {
        ((num * UNIT + den - 1) / (den as int)) as nat
    }
}

/// A fraction between zero and one, both included, in steps of `1 / UNIT`.
///
/// Values outside `[0, 1]` cannot be represented: every constructor clamps.
/// The view of a `Progress` is its raw count of steps.
#[derive(Clone, Copy, Debug, PartialEq, Eq)]
pub struct Progress {
    raw: u64,
}

impl View for Progress {
    type V = nat;

    closed spec fn view(&self) -> nat {
        self.raw as nat
    }
}

impl Progress {
    /// No value of this type lies past the end of a segment.
    #[verifier::type_invariant]
    pub open spec fn within_unit(self) -> bool {
        self@ <= UNIT
    }

    /// The start of a segment.
    pub fn zero() -> (r: Progress)
        ensures
            r@ == 0,
    {
        Progress { raw: 0 }
    }

    /// The end of a segment.
    pub fn one() -> (r: Progress)
        ensures
            r@ == UNIT,
    {
        Progress { raw: UNIT }
    }

    /// The fraction `raw / UNIT`, or one where `raw` exceeds `UNIT`.
    pub fn from_raw(raw: u64) -> (r: Progress)
        ensures
            r@ == clamp_unit(raw as nat),
    {
        if raw >= UNIT {
            Progress { raw: UNIT }
        } else {
            Progress { raw }
        }
    }

    /// The fraction `num / den`, rounded up to the next raw step, so that
    /// `den` steps of `1 / den` always add up to a whole. A ratio above one,
    /// and any ratio with a zero denominator, gives one.
    pub fn from_ratio(num: u64, den: u64) -> (r: Progress)
        ensures
            r@ == ratio_steps(num as nat, den as nat),
            den == 0 || num >= den ==> r@ == UNIT,
            num < den ==> num * UNIT <= r@ * den < num * UNIT + den,
    {
        if den == 0 || num >= den {
            return Progress { raw: UNIT };
        }
        assert(num * UNIT <= u64::MAX * UNIT) by (nonlinear_arith)
            requires
                num <= u64::MAX,
        ;
        let scaled: u128 = num as u128 * UNIT as u128 + (den as u128 - 1);
        let steps: u128 = scaled / den as u128;
        proof {
            assert(scaled < den * (UNIT + 1)) by (nonlinear_arith)
                requires
                    scaled == num * UNIT + den - 1,
                    num < den,
            ;
            vstd::arithmetic::div_mod::lemma_multiply_divide_lt(
                scaled as int,
                den as int,
                UNIT + 1,
            );
            assert(steps * den <= scaled < steps * den + den) by (nonlinear_arith)
                requires
                    steps == scaled / (den as u128),
                    den > 0,
            ;
        }
        Progress { raw: steps as u64 }
    }

    /// The raw count of steps, between `0` and `UNIT`.
    pub fn raw(&self) -> (r: u64)
        ensures
            r == self@,
            r <= UNIT,
    {
        proof {
            use_type_invariant(self);
        }
        self.raw
    }

    /// Whether the end of the segment has been reached.
    pub fn is_complete(&self) -> (r: bool)
        ensures
            r == (self@ == UNIT),
    {
        self.raw == UNIT
    }

    /// The sum of two fractions, held to one.
    pub fn saturating_add(self, step: Progress) -> (r: Progress)
        ensures
            r@ == clamp_unit(self@ + step@),
    {
        proof {
            use_type_invariant(self);
            use_type_invariant(step);
        }
        let total: u64 = self.raw + step.raw;
        if total >= UNIT {
            Progress { raw: UNIT }
        } else {
            Progress { raw: total }
        }
    }
}

} // verus!
