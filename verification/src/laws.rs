//! What holds of every run of the smoothing engine, whatever the value type.
//!
//! Each law is stated over [`SmoothedView`], the state that the contracts of
//! [`Smoothed`](crate::smoothed::Smoothed) speak of, and is proved from the
//! laws of [`Interpolate`] alone.

use crate::interpolate::Interpolate;
use crate::progress::UNIT;
use crate::smoothed::SmoothedView;
use vstd::prelude::*;
use vstd::std_specs::ops::{DivSpec, SubSpec};

verus! {

/// The sum of a run of steps.
pub open spec fn total(steps: Seq<nat>) -> nat
    decreases steps.len(),
{
    if steps.len() == 0 {
        0
    } else {
        total(steps.drop_last()) + steps.last()
    }
}

/// A run of advances comes to the same as one advance by the sum of its
/// steps: only the sum counts, and neither end of the segment moves.
pub proof fn law_advance_accumulates<T>(s: SmoothedView<T>, steps: Seq<nat>)
    requires
        s.wf(),
    ensures
        s.advanced_all(steps) == s.advanced(total(steps)),
        s.advanced_all(steps).wf(),
    decreases steps.len(),
{
    if steps.len() > 0 {
        law_advance_accumulates(s, steps.drop_last());
    }
}

/// One run of advances after another is the run of both.
pub proof fn law_advance_continues<T>(s: SmoothedView<T>, steps: Seq<nat>, more: Seq<nat>)
    ensures
        s.advanced_all(steps).advanced_all(more) == s.advanced_all(steps + more),
    decreases more.len(),
{
    if more.len() == 0 {
        assert(steps + more =~= steps);
    } else {
        law_advance_continues(s, steps, more.drop_last());
        assert((steps + more).drop_last() =~= steps + more.drop_last());
    }
}

/// The position stays within the segment: retargeting leaves it there.
pub proof fn law_retarget_within_segment<T: Interpolate>(s: SmoothedView<T>, value: T)
    ensures
        s.retargeted(value).wf(),
        s.retargeted(value).next == value,
{
    if s.extends(value) {
        let current = s.current();
        T::law_progress_bounded(current.sub_spec(s.prev).div_spec(value.sub_spec(current)));
    }
}

/// Settling: once the steps advanced without a retarget add up to a whole,
/// the value read is exactly the target, with nothing left of where the
/// segment started.
pub proof fn law_settling<T: Interpolate>(s: SmoothedView<T>, steps: Seq<nat>)
    requires
        s.wf(),
        total(steps) >= UNIT,
    ensures
        s.advanced_all(steps).settled(),
        s.advanced_all(steps).current() == s.next,
{
    law_advance_accumulates(s, steps);
    T::law_interpolate_ends(s.prev, s.next);
}

/// A value that was never retargeted reads as its initial value, whatever
/// the advances made on it.
pub proof fn law_settling_from_new<T: Interpolate>(x: T, steps: Seq<nat>)
    ensures
        SmoothedView::fresh(x).current() == x,
        SmoothedView::fresh(x).advanced_all(steps).current() == x,
{
    law_advance_accumulates(SmoothedView::fresh(x), steps);
    T::law_interpolate_ends(x, x);
}

/// No jump: retargeting leaves the value read unchanged, wherever it starts
/// a fresh segment and wherever it extends a segment from its very start.
///
/// Extending a segment that is already under way re-derives the progress
/// from the ratio of the distance covered to the distance left, which places
/// the value elsewhere on the longer segment; that case is left out.
pub proof fn law_no_jump<T: Interpolate>(s: SmoothedView<T>, value: T)
    requires
        !s.extends(value) || s.current() == s.prev,
    ensures
        s.retargeted(value).current() == s.current(),
{
    let current = s.current();
    if s.extends(value) {
        T::law_delta_direction(current, s.prev);
        T::law_delta_direction(value, current);
        T::law_ratio_defined(current.sub_spec(s.prev), value.sub_spec(current));
        T::law_interpolate_ends(s.prev, value);
    } else {
        T::law_interpolate_ends(current, value);
    }
}

/// Monotonic convergence: after a retarget to `value`, the values read along
/// any run of advances move toward `value` and never past it. Which way they
/// move is fixed by the side of `value` on which the segment starts.
pub proof fn law_monotone_convergence<T: Interpolate>(
    s: SmoothedView<T>,
    value: T,
    steps: Seq<nat>,
    more: Seq<nat>,
)
    ensures
        ({
            let start = s.retargeted(value);
            let earlier = start.advanced_all(steps).current().level();
            let later = start.advanced_all(steps + more).current().level();
            &&& start.prev.level() <= value.level() ==> earlier <= later <= value.level()
            &&& start.prev.level() >= value.level() ==> earlier >= later >= value.level()
        }),
{
    let start = s.retargeted(value);
    law_retarget_within_segment(s, value);
    law_advance_accumulates(start, steps);
    law_advance_continues(start, steps, more);
    let reached = start.advanced_all(steps);
    law_advance_accumulates(reached, more);
    let from = reached.progress;
    let to = reached.advanced_all(more).progress;
    T::law_interpolate_monotone(start.prev, value, from, to);
    T::law_interpolate_monotone(start.prev, value, to, UNIT as nat);
    T::law_interpolate_ends(start.prev, value);
}

/// Terminal exactness: once the steps advanced since the last retarget add
/// up to a whole, the value read is the target itself.
pub proof fn law_terminal_exactness<T: Interpolate>(
    s: SmoothedView<T>,
    value: T,
    steps: Seq<nat>,
)
    requires
        total(steps) >= UNIT,
    ensures
        s.retargeted(value).advanced_all(steps).current() == value,
        s.retargeted(value).advanced_all(steps).next == value,
{
    law_retarget_within_segment(s, value);
    law_advance_accumulates(s.retargeted(value), steps);
    law_settling(s.retargeted(value), steps);
}

/// Idempotent settle: at the end of a segment, advancing changes nothing,
/// however often it is done.
pub proof fn law_settled_stays<T: Interpolate>(s: SmoothedView<T>, steps: Seq<nat>)
    requires
        s.wf(),
        s.settled(),
    ensures
        s.advanced_all(steps) == s,
        s.advanced_all(steps).current() == s.current(),
{
    law_advance_accumulates(s, steps);
}

} // verus!
