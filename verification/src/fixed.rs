//! A signed fixed-point number, the value type that the engine is used with.

use crate::interpolate::Interpolate;
use crate::progress::{Progress, UNIT};
use core::ops::{Div, Sub};
use vstd::prelude::*;
use vstd::std_specs::ops::{DivSpecImpl, SubSpecImpl};

verus! {

/// `v` held to the range of a raw count.
pub open spec fn clamp_raw(v: int) -> int {
    if v < i64::MIN {
        i64::MIN as int
    } else if v > i64::MAX {
        i64::MAX as int
    } else {
        v
    }
}

/// The distance of `v` from zero.
pub open spec fn magnitude(v: int) -> nat {
    if v < 0 {
        (-v) as nat
    } else {
        v as nat
    }
}

/// The raw count of the blend of `a` and `b` at `t / UNIT`: the part of the
/// way from `a` to `b`, cut to a whole step toward `a`.
pub open spec fn blend_raw(a: int, b: int, t: nat) -> int {
    if b >= a {
        a + (t * (b - a)) / (UNIT as int)
    } else {
        a - (t * (a - b)) / (UNIT as int)
    }
}

/// The raw count of the quotient of `a` by `b`: cut to a whole step toward
/// zero, then held to the range of a raw count.
pub open spec fn quotient_raw(a: int, b: int) -> int {
    let q = (magnitude(a) * UNIT) / (magnitude(b) as int);
    if (a < 0) != (b < 0) {
        clamp_raw(-q)
    } else {
        clamp_raw(q)
    }
}

/// The step count of the progress that the ratio with raw count `v` stands
/// for: `v` held to `[0, UNIT]`.
pub open spec fn clamp_raw_to_unit(v: int) -> nat {
    if v <= 0 {
        0
    } else if v >= UNIT {
        UNIT as nat
    } else {
        v as nat
    }
}

/// A signed number with 32 fractional bits: the raw count `n` stands for
/// `n / UNIT`. Its view is the raw count.
///
/// Subtraction saturates at the ends of the range, so a delta always points
/// the right way. Division cuts toward zero and saturates too.
#[derive(Clone, Copy, Debug, PartialEq, Eq, Structural)]
pub struct Fixed(pub i64);

impl View for Fixed {
    type V = int;

    open spec fn view(&self) -> int {
        self.0 as int
    }
}

impl Fixed {
    /// The whole number `n`.
    pub fn from_int(n: i32) -> (r: Fixed)
        ensures
            r@ == n * UNIT,
    {
        assert(-0x8000_0000 * UNIT <= n * UNIT <= 0x7fff_ffff * UNIT) by (nonlinear_arith)
            requires
                -0x8000_0000 <= n <= 0x7fff_ffff,
        ;
        Fixed(n as i64 * UNIT as i64)
    }
}

impl Default for Fixed {
    /// Zero.
    fn default() -> (r: Fixed)
        ensures
            r@ == 0,
    {
        Fixed(0)
    }
}

/// The distance of `v` from zero, which fits no signed count for the lowest
/// `v`.
fn distance_from_zero(v: i64) -> (r: u64)
    ensures
        r == magnitude(v as int),
{
    if v >= 0 {
        v as u64
    } else {
        (-(v as i128)) as u64
    }
}

impl Sub for Fixed {
    type Output = Fixed;

    /// The difference, held to the range of a raw count.
    fn sub(self, rhs: Fixed) -> (r: Fixed)
        ensures
            r@ == clamp_raw(self@ - rhs@),
    {
        let wide: i128 = self.0 as i128 - rhs.0 as i128;
        if wide < i64::MIN as i128 {
            Fixed(i64::MIN)
        } else if wide > i64::MAX as i128 {
            Fixed(i64::MAX)
        } else {
            Fixed(wide as i64)
        }
    }
}

impl SubSpecImpl for Fixed {
    open spec fn obeys_sub_spec() -> bool {
        true
    }

    open spec fn sub_req(self, rhs: Fixed) -> bool {
        true
    }

    open spec fn sub_spec(self, rhs: Fixed) -> Fixed {
        Fixed(clamp_raw(self@ - rhs@) as i64)
    }
}

impl Div for Fixed {
    type Output = Fixed;

    /// The quotient by a non-zero `rhs`, cut toward zero and held to the
    /// range of a raw count.
    fn div(self, rhs: Fixed) -> (r: Fixed)
        ensures
            r@ == quotient_raw(self@, rhs@),
    {
        let top: u128 = distance_from_zero(self.0) as u128;
        let bottom: u128 = distance_from_zero(rhs.0) as u128;
        assert(top * UNIT <= 0x8000_0000_0000_0000 * UNIT) by (nonlinear_arith)
            requires
                top <= 0x8000_0000_0000_0000,
        ;
        let q: u128 = (top * UNIT as u128) / bottom;
        if (self.0 < 0) != (rhs.0 < 0) {
            if q >= 0x8000_0000_0000_0000 {
                Fixed(i64::MIN)
            } else {
                Fixed(-(q as i64))
            }
        } else {
            if q > i64::MAX as u128 {
                Fixed(i64::MAX)
            } else {
                Fixed(q as i64)
            }
        }
    }
}

impl DivSpecImpl for Fixed {
    open spec fn obeys_div_spec() -> bool {
        true
    }

    open spec fn div_req(self, rhs: Fixed) -> bool {
        rhs@ != 0
    }

    open spec fn div_spec(self, rhs: Fixed) -> Fixed {
        Fixed(quotient_raw(self@, rhs@) as i64)
    }
}

impl Interpolate for Fixed {
    open spec fn level(self) -> int {
        self@
    }

    open spec fn interpolated(self, other: Fixed, t: nat) -> Fixed {
        Fixed(blend_raw(self@, other@, t) as i64)
    }

    open spec fn as_progress(self) -> nat {
        clamp_raw_to_unit(self@)
    }

    /// The blend of `self` and `other` at `t`, cut to a whole step toward
    /// `self`.
    fn interpolate(&self, other: &Fixed, t: Progress) -> (r: Fixed)
        ensures
            r@ == blend_raw(self@, other@, t@),
    {
        let steps: u128 = t.raw() as u128;
        let from: i128 = self.0 as i128;
        let to: i128 = other.0 as i128;
        if to >= from {
            let span: u128 = (to - from) as u128;
            proof {
                lemma_part_of_span(steps as nat, span as int);
            }
            let moved: u128 = (steps * span) / (UNIT as u128);
            Fixed((from + moved as i128) as i64)
        } else {
            let span: u128 = (from - to) as u128;
            proof {
                lemma_part_of_span(steps as nat, span as int);
            }
            let moved: u128 = (steps * span) / (UNIT as u128);
            Fixed((from - moved as i128) as i64)
        }
    }

    /// `1` for zero and above, `-1` below.
    fn sign(&self) -> (r: i8)
        ensures
            r == (if self@ >= 0 { 1i8 } else { -1i8 }),
    {
        if self.0 >= 0 {
            1
        } else {
            -1
        }
    }

    fn is_zero(&self) -> (r: bool)
        ensures
            r == (self@ == 0),
    {
        self.0 == 0
    }

    /// The ratio as a progress: zero for a negative ratio, one for a ratio
    /// above one.
    fn ratio_to_progress(&self) -> (r: Progress)
        ensures
            r@ == clamp_raw_to_unit(self@),
    {
        if self.0 <= 0 {
            Progress::zero()
        } else {
            Progress::from_raw(self.0 as u64)
        }
    }

    proof fn law_interpolate_ends(a: Fixed, b: Fixed) {
        let span = if b@ >= a@ { b@ - a@ } else { a@ - b@ };
        lemma_part_of_span(0, span);
        lemma_part_of_span(UNIT as nat, span);
    }

    proof fn law_interpolate_linear(a: Fixed, b: Fixed, t: nat) {
        let span = if b@ >= a@ { b@ - a@ } else { a@ - b@ };
        lemma_part_of_span(t, span);
        lemma_cut_quotient(t * span, UNIT as int);
        if b@ < a@ {
            assert(t * (b@ - a@) == -(t * span)) by (nonlinear_arith)
                requires
                    span == a@ - b@,
            ;
        }
    }

    proof fn law_interpolate_monotone(a: Fixed, b: Fixed, s: nat, t: nat) {
        let span = if b@ >= a@ { b@ - a@ } else { a@ - b@ };
        lemma_part_of_span(s, span);
        lemma_part_of_span(t, span);
    }

    proof fn law_delta_direction(a: Fixed, b: Fixed) {
    }

    proof fn law_ratio_defined(a: Fixed, b: Fixed) {
        let n = magnitude(a@) as int;
        let d = magnitude(b@) as int;
        lemma_scaled_quotient(n, d);
    }

    proof fn law_progress_bounded(a: Fixed) {
    }
}

/// A quotient cut to a whole number lies less than one divisor below the
/// dividend.
proof fn lemma_cut_quotient(x: int, d: int)
    requires
        x >= 0,
        d > 0,
    ensures
        0 <= x / d,
        (x / d) * d <= x < (x / d) * d + d,
{
    assert(0 <= x / d && (x / d) * d <= x < (x / d) * d + d) by (nonlinear_arith)
        requires
            x >= 0,
            d > 0,
    ;
}

/// The quotient of `n` by `d`, counted in steps of `1 / UNIT`, is at least a
/// whole exactly where `n` is at least `d`.
proof fn lemma_scaled_quotient(n: int, d: int)
    requires
        n >= 0,
        d > 0,
    ensures
        0 <= (n * UNIT) / d,
        ((n * UNIT) / d) * d <= n * UNIT < ((n * UNIT) / d) * d + d,
        n == 0 ==> (n * UNIT) / d == 0,
        n >= d ==> (n * UNIT) / d >= UNIT,
        n < d ==> (n * UNIT) / d < UNIT,
{
    let x = n * UNIT;
    let q = x / d;
    assert(x >= 0) by (nonlinear_arith)
        requires
            x == n * UNIT,
            n >= 0,
    ;
    lemma_cut_quotient(x, d);
    if n >= d {
        assert(q >= UNIT) by (nonlinear_arith)
            requires
                x < q * d + d,
                x == n * UNIT,
                n >= d,
                d > 0,
        ;
    } else {
        assert(q < UNIT) by (nonlinear_arith)
            requires
                q * d <= x,
                x == n * UNIT,
                0 <= n < d,
        ;
    }
    if n == 0 {
        assert(q == 0) by (nonlinear_arith)
            requires
                q * d <= x,
                0 <= q,
                x == 0,
                d > 0,
        ;
    }
}

/// The part of a span reached after `t` of `UNIT` steps is within the span,
/// nothing at the start and all of it at the end, and never shrinks as `t`
/// grows.
proof fn lemma_part_of_span(t: nat, span: int)
    requires
        t <= UNIT,
        span >= 0,
    ensures
        0 <= (t * span) / (UNIT as int) <= span,
        t == 0 ==> (t * span) / (UNIT as int) == 0,
        t == UNIT ==> (t * span) / (UNIT as int) == span,
        forall|s: nat| s <= t ==> (#[trigger] (s * span)) / (UNIT as int) <= (t * span) / (UNIT as int),
{
    assert(0 <= t * span <= UNIT * span) by (nonlinear_arith)
        requires
            0 <= t <= UNIT,
            0 <= span,
    ;
    if t == 0 {
        assert(t * span == 0) by (nonlinear_arith)
            requires
                t == 0,
        ;
    }
    if t == UNIT {
        assert(t * span == UNIT * span) by (nonlinear_arith)
            requires
                t == UNIT,
        ;
    }
    assert forall|s: nat| s <= t implies (#[trigger] (s * span)) / (UNIT as int) <= (t * span) / (
    UNIT as int) by {
        assert(s * span <= t * span) by (nonlinear_arith)
            requires
                0 <= s <= t,
                0 <= span,
        ;
    }
}

} // verus!
