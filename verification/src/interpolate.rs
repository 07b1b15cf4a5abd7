//! The arithmetic that a value type must offer to be smoothed.

use crate::progress::{Progress, UNIT};
use core::ops::{Div, Sub};
use vstd::prelude::*;
use vstd::std_specs::ops::{DivSpec, SubSpec};

verus! {

/// The direction indicator of a delta at `level`: `1` for zero and above,
/// `-1` below zero. Zero counts as positive; there is no third outcome.
pub open spec fn direction(level: int) -> i8 {
    if level >= 0 {
        1i8
    } else {
        -1i8
    }
}

/// Types that can be linearly interpolated, for use with
/// [`Smoothed`](crate::smoothed::Smoothed).
///
/// A value doubles as a delta (the difference of two values) and as a ratio
/// (the quotient of two deltas). Subtraction is total; division is defined
/// for every non-zero divisor. The proof functions are the laws that an
/// implementation owes; the smoothing engine relies on nothing else.
pub trait Interpolate: Sub<Output = Self> + Div<Output = Self> + Sized + Copy {
    /// Where the value lies on the number line, counted in the smallest step
    /// that the type can tell apart.
    spec fn level(self) -> int;

    /// The blend of `self` and `other` at the fraction `t / UNIT`.
    spec fn interpolated(self, other: Self, t: nat) -> Self;

    /// The raw step count of the progress that `self`, read as a ratio of two
    /// deltas, stands for.
    spec fn as_progress(self) -> nat;

    /// Interpolate between `self` and `other` by `t`.
    fn interpolate(&self, other: &Self, t: Progress) -> (r: Self)
        ensures
            r == self.interpolated(*other, t@),
    ;

    /// The direction of a delta: `1` or `-1`, with zero counted as positive.
    fn sign(&self) -> (r: i8)
        ensures
            r == direction(self.level()),
    ;

    /// Whether a delta is zero, which rules it out as a divisor.
    fn is_zero(&self) -> (r: bool)
        ensures
            r == (self.level() == 0),
    ;

    /// Convert a ratio of two deltas to a progress, clamped into `[0, 1]`.
    fn ratio_to_progress(&self) -> (r: Progress)
        ensures
            r@ == self.as_progress(),
    ;

    /// Interpolation is exact at both ends: it gives the first value at zero
    /// and the second at one.
    proof fn law_interpolate_ends(a: Self, b: Self)
        ensures
            a.interpolated(b, 0) == a,
            a.interpolated(b, UNIT as nat) == b,
    ;

    /// Interpolation is linear: the blend at `t` lies less than one step
    /// from `a + t / UNIT * (b - a)`.
    proof fn law_interpolate_linear(a: Self, b: Self, t: nat)
        requires
            t <= UNIT,
        ensures
            ({
                let moved = a.interpolated(b, t).level() - a.level();
                -UNIT < UNIT * moved - t * (b.level() - a.level()) < UNIT
            }),
    ;

    /// Interpolation never moves away from the second value as `t` grows.
    proof fn law_interpolate_monotone(a: Self, b: Self, s: nat, t: nat)
        requires
            s <= t <= UNIT,
        ensures
            ({
                let earlier = a.interpolated(b, s).level();
                let later = a.interpolated(b, t).level();
                &&& a.level() <= b.level() ==> earlier <= later
                &&& a.level() >= b.level() ==> earlier >= later
            }),
    ;

    /// Subtraction is defined for every pair of values, and the delta it
    /// gives points the way the two values are ordered.
    proof fn law_delta_direction(a: Self, b: Self)
        ensures
            Self::obeys_sub_spec(),
            a.sub_req(b),
            a.sub_spec(b).level() >= 0 <==> a.level() >= b.level(),
            a.sub_spec(b).level() == 0 <==> a.level() == b.level(),
    ;

    /// Division is defined for every non-zero divisor, and the quotient
    /// converts to the progress that the ratio of the two levels stands for:
    /// zero for a ratio of zero or less, one for a ratio of one or more, and
    /// between the two less than one step from the ratio itself.
    proof fn law_ratio_defined(a: Self, b: Self)
        requires
            b.level() != 0,
        ensures
            Self::obeys_div_spec(),
            a.div_req(b),
            ({
                let p = a.div_spec(b).as_progress();
                let n = if b.level() > 0 { a.level() } else { -a.level() };
                let d = if b.level() > 0 { b.level() } else { -b.level() };
                &&& n <= 0 ==> p == 0
                &&& n >= d ==> p == UNIT
                &&& 0 < n < d ==> -d < p * d - n * UNIT < d
            }),
    ;

    /// Every ratio converts to a progress within `[0, 1]`.
    proof fn law_progress_bounded(a: Self)
        ensures
            a.as_progress() <= UNIT,
    ;
}

} // verus!
