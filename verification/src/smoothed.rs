//! The smoothing engine: a value that ramps toward its latest target.

use crate::interpolate::Interpolate;
use crate::laws::law_no_jump;
use crate::progress::{clamp_unit, Progress, UNIT};
use vstd::prelude::*;
use vstd::std_specs::ops::{DivSpec, SubSpec};

verus! {

/// The state of a [`Smoothed`] as the contracts see it.
pub struct SmoothedView<T> {
    /// Where the running segment starts: the value at progress zero.
    pub prev: T,
    /// Where the running segment ends: the value most recently asked for.
    pub next: T,
    /// The raw step count of the position along the segment.
    pub progress: nat,
}

impl<T> SmoothedView<T> {
    /// The position lies within the segment.
    pub open spec fn wf(self) -> bool {
        self.progress <= UNIT
    }

    /// The state right after construction with `x`: at rest on `x`.
    pub open spec fn fresh(x: T) -> Self {
        SmoothedView { prev: x, next: x, progress: UNIT as nat }
    }

    /// The end of the segment has been reached.
    pub open spec fn settled(self) -> bool {
        self.progress >= UNIT
    }

    /// The state after one `advance` by `step` raw steps.
    pub open spec fn advanced(self, step: nat) -> Self {
        SmoothedView { progress: clamp_unit(self.progress + step), ..self }
    }

    /// The state after one `advance` for each entry of `steps`, in order.
    pub open spec fn advanced_all(self, steps: Seq<nat>) -> Self
        decreases steps.len(),
    {
        if steps.len() == 0 {
            self
        } else {
            self.advanced_all(steps.drop_last()).advanced(steps.last())
        }
    }
}

impl<T: Interpolate> SmoothedView<T> {
    /// The value that an observer reads.
    pub open spec fn current(self) -> T {
        self.prev.interpolated(self.next, self.progress)
    }

    /// Whether retargeting to `value` extends the running segment: the
    /// segment is unfinished, `value` differs from the current value, and it
    /// lies on the same side of the current value as of the segment's start.
    /// A `value` level with the start counts as above it.
    pub open spec fn extends(self, value: T) -> bool {
        let current = self.current();
        &&& self.progress < UNIT
        &&& value.level() != current.level()
        &&& (value.level() >= current.level()) == (value.level() >= self.prev.level())
    }

    /// The state after `set(value)`.
    pub open spec fn retargeted(self, value: T) -> Self {
        let current = self.current();
        if self.extends(value) {
            let ratio = current.sub_spec(self.prev).div_spec(value.sub_spec(current));
            SmoothedView { prev: self.prev, next: value, progress: ratio.as_progress() }
        } else {
            SmoothedView { prev: current, next: value, progress: 0 }
        }
    }
}

/// Helper to linearly ramp a parameter towards a target value.
///
/// Useful for filters with dynamic parameters, where applying a change at
/// once would cause artifacts such as popping. The owner retargets with
/// [`set`](Smoothed::set), moves time on with [`advance`](Smoothed::advance)
/// once per tick, and reads the value to apply with [`get`](Smoothed::get).
pub struct Smoothed<T> {
    prev: T,
    next: T,
    progress: Progress,
}

impl<T: Copy> Clone for Smoothed<T> {
    fn clone(&self) -> (r: Self)
        ensures
            r@ == self@,
    {
        *self
    }
}

impl<T: Copy> Copy for Smoothed<T> {

}

impl<T: Default + Copy> Default for Smoothed<T> {
    /// At the start of a segment that begins and ends on the default value.
    fn default() -> (r: Self)
        ensures
            r@.prev == r@.next,
            r@.progress == 0,
    {
        let x = T::default();
        Smoothed { prev: x, next: x, progress: Progress::zero() }
    }
}

impl<T> View for Smoothed<T> {
    type V = SmoothedView<T>;

    closed spec fn view(&self) -> SmoothedView<T> {
        SmoothedView { prev: self.prev, next: self.next, progress: self.progress@ }
    }
}

impl<T> Smoothed<T> {
    /// The position of every value of this type lies within its segment.
    #[verifier::type_invariant]
    pub open spec fn within_segment(self) -> bool {
        self@.wf()
    }

    /// Create with initial value `x`, at rest: nothing is pending.
    pub fn new(x: T) -> (r: Self) where T: Copy
        ensures
            r@ == SmoothedView::fresh(x),
    {
        Smoothed { prev: x, next: x, progress: Progress::one() }
    }

    /// Advance interpolation by `proportion`. For example, to advance at a
    /// fixed sample rate over a particular smoothing period, pass
    /// `sample_interval / smoothing_period`. Once the target is reached,
    /// further calls change nothing.
    pub fn advance(&mut self, proportion: Progress)
        ensures
            final(self)@ == old(self)@.advanced(proportion@),
            final(self)@.wf(),
    {
        self.progress = self.progress.saturating_add(proportion);
    }

    /// Progress from the previous towards the next value.
    pub fn progress(&self) -> (r: Progress)
        ensures
            r@ == self@.progress,
            self@.wf(),
    {
        proof {
            use_type_invariant(self);
        }
        self.progress
    }

    /// Get the value most recently passed to `set`.
    pub fn target(&self) -> (r: &T)
        ensures
            *r == self@.next,
    {
        &self.next
    }
}

impl<T: Interpolate> Smoothed<T> {
    /// Set the next value to `value`.
    ///
    /// Where the running segment is unfinished and `value` lies on the same
    /// side of the current value as of the segment's start, the segment keeps
    /// its start, ends at `value`, and the progress becomes the ratio of the
    /// distance covered to the distance left, held to `[0, 1]`. Otherwise a
    /// fresh segment starts at the current value. A `value` equal to the
    /// current value would make that ratio a division by zero: it starts a
    /// fresh segment too.
    ///
    /// A fresh segment, and one extended from its very start, leave the
    /// value read where it was at the moment of the call.
    pub fn set(&mut self, value: T)
        ensures
            final(self)@ == old(self)@.retargeted(value),
            final(self)@.wf(),
            final(self)@.next == value,
            !old(self)@.extends(value) || old(self)@.current() == old(self)@.prev
                ==> final(self)@.current() == old(self)@.current(),
    {
        let current = self.get();
        proof {
            if !self@.extends(value) || self@.current() == self@.prev {
                law_no_jump(self@, value);
            }
            use_type_invariant(&*self);
            T::law_delta_direction(value, current);
            T::law_delta_direction(value, self.prev);
            T::law_delta_direction(current, self.prev);
        }
        let toward = value - current;
        if !self.progress.is_complete() && !toward.is_zero() && toward.sign() == (value
            - self.prev).sign() {
            proof {
                T::law_ratio_defined(current.sub_spec(self.prev), toward);
            }
            let ratio = (current - self.prev) / toward;
            proof {
                T::law_progress_bounded(ratio);
            }
            self.next = value;
            self.progress = ratio.ratio_to_progress();
        } else {
            self.prev = current;
            self.next = value;
            self.progress = Progress::zero();
        }
    }

    /// Get the current value: exactly the target once it has been reached.
    pub fn get(&self) -> (r: T)
        ensures
            r == self@.current(),
            self@.progress == 0 ==> r == self@.prev,
            self@.settled() ==> r == self@.next,
    {
        proof {
            use_type_invariant(self);
            T::law_interpolate_ends(self.prev, self.next);
        }
        self.prev.interpolate(&self.next, self.progress)
    }
}

} // verus!
