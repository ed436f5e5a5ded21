//! The time-driven interpolator of one scalar property.
use vstd::prelude::*;
use crate::easing::{
    ease, eased, lemma_ease_reaches_target, lemma_ease_starts_at_source, lemma_ease_stays_between,
    EasingFunction,
};

verus! {

/// Drives one scalar property from `from` to `to` over `duration_ms` milliseconds.
///
/// The clock starts at the first step after [`PropertyAnimator::start`], not at the call
/// of `start` itself. Once the duration is exceeded the animator stops, and from then on
/// it reports `to`.
#[derive(Copy, Clone, Debug)]
pub struct PropertyAnimator {
    pub from: i32,
    pub to: i32,
    pub duration_ms: u64,
    pub easing: EasingFunction,
    pub running: bool,
    pub start_time: Option<u64>,
}

/// The finest division of a transition: no transition has more steps than this.
pub const TIME_RESOLUTION: i16 = 30000;

/// The number of steps that a transition of `duration` milliseconds has: one for each
/// millisecond, up to [`TIME_RESOLUTION`].
pub open spec fn steps_in(duration: int) -> int {
    if duration <= TIME_RESOLUTION {
        duration
    } else {
        TIME_RESOLUTION as int
    }
}

/// The number of steps done after `elapsed` of `duration` milliseconds: the elapsed
/// share of [`steps_in`], rounded down.
pub open spec fn steps_done(elapsed: int, duration: int) -> int {
    if duration <= TIME_RESOLUTION {
        elapsed
    } else {
        elapsed * (TIME_RESOLUTION as int) / duration
    }
}

impl PropertyAnimator {
    /// The animator at rest on the value 0.
    pub open spec fn at_rest() -> PropertyAnimator {
        PropertyAnimator {
            from: 0,
            to: 0,
            duration_ms: 0,
            easing: EasingFunction::Linear,
            running: false,
            start_time: None,
        }
    }

    /// An animator at rest on the value 0.
    pub fn new() -> (a: PropertyAnimator)
        ensures
            a == PropertyAnimator::at_rest(),
    {
        PropertyAnimator {
            from: 0,
            to: 0,
            duration_ms: 0,
            easing: EasingFunction::Linear,
            running: false,
            start_time: None,
        }
    }

    /// The moment from which a step at `now` counts: the recorded start, or `now` itself
    /// where none is recorded yet.
    pub open spec fn epoch(self, now: u64) -> u64 {
        match self.start_time {
            Some(s) => s,
            None => now,
        }
    }

    /// The milliseconds a step at `now` finds elapsed. A clock that ran backwards counts
    /// as no time elapsed.
    pub open spec fn elapsed(self, now: u64) -> int {
        if now >= self.epoch(now) {
            now - self.epoch(now)
        } else {
            0
        }
    }

    /// Whether a step at `now` finds the transition still under way: the animator is
    /// running, its duration is not zero, and no more than the duration has elapsed.
    pub open spec fn in_flight(self, now: u64) -> bool {
        self.running && self.duration_ms > 0 && self.elapsed(now) <= self.duration_ms
    }

    /// The animator after a step at `now`.
    pub open spec fn stepped(self, now: u64) -> PropertyAnimator {
        if !self.running {
            self
        } else if self.in_flight(now) {
            PropertyAnimator { start_time: Some(self.epoch(now)), ..self }
        } else {
            PropertyAnimator { running: false, start_time: None, ..self }
        }
    }

    /// The value that a step at `now` reports.
    pub open spec fn value_at(self, now: u64) -> int {
        if self.in_flight(now) {
            eased(
                self.easing,
                self.from as int,
                self.to as int,
                steps_done(self.elapsed(now), self.duration_ms as int),
                steps_in(self.duration_ms as int),
            )
        } else {
            self.to as int
        }
    }

    /// Arms the animator for a transition from `from` to `to` and returns the value the
    /// property takes at once, which is `from`. A transition under way is overwritten.
    pub fn start(&mut self, from: i32, to: i32, duration_ms: u64, easing: EasingFunction) -> (value: i32)
        ensures
            *final(self) == (PropertyAnimator {
                from,
                to,
                duration_ms,
                easing,
                running: true,
                start_time: None,
            }),
            value == from,
    {
        self.from = from;
        self.to = to;
        self.duration_ms = duration_ms;
        self.easing = easing;
        self.running = true;
        self.start_time = None;
        from
    }

    /// Advances the animator to `now` (in milliseconds) and returns the property's value.
    ///
    /// The first step of a transition records `now` as its start. While no more than the
    /// duration has elapsed the value is interpolated along the easing curve. After that,
    /// or at once where the duration is zero, the animator stops and the value is `to`
    /// exactly. An animator at rest reports `to` and does not change.
    pub fn step(&mut self, now: u64) -> (value: i32)
        ensures
            *final(self) == old(self).stepped(now),
            value == old(self).value_at(now),
    {
        if !self.running {
            return self.to;
        }
        let start: u64 = match self.start_time {
            Some(s) => s,
            None => now,
        };
        let elapsed: u64 = if now >= start {
            now - start
        } else {
            0
        };
        if self.duration_ms > 0 && elapsed <= self.duration_ms {
            self.start_time = Some(start);
            let (done, all) = normalized(elapsed, self.duration_ms);
            ease(self.easing, self.from, self.to, done, all)
        } else {
            self.running = false;
            self.start_time = None;
            self.to
        }
    }
}

/// The normalized time after `elapsed` of `duration` milliseconds: the steps done, and
/// the steps in all.
fn normalized(elapsed: u64, duration: u64) -> (t: (i16, i16))
    requires
        0 < duration,
        elapsed <= duration,
    ensures
        t.0 == steps_done(elapsed as int, duration as int),
        t.1 == steps_in(duration as int),
        0 <= t.0 <= t.1,
        0 < t.1,
{
    proof {
        lemma_steps_in_unit(elapsed as int, duration as int);
    }
    if duration <= 30000 {
        (elapsed as i16, duration as i16)
    } else {
        let scaled: u128 = (elapsed as u128) * 30000;
        let q: u128 = scaled / (duration as u128);
        (q as i16, 30000)
    }
}

/// Within the duration the steps done are between none and all; they are all when the
/// whole duration has elapsed, and none when nothing has.
pub proof fn lemma_steps_in_unit(elapsed: int, duration: int)
    requires
        0 < duration,
        0 <= elapsed <= duration,
    ensures
        0 < steps_in(duration) <= TIME_RESOLUTION,
        0 <= steps_done(elapsed, duration) <= steps_in(duration),
        steps_done(duration, duration) == steps_in(duration),
        steps_done(0, duration) == 0,
{
    let r = TIME_RESOLUTION as int;
    if duration > r {
        assert(0 <= elapsed * r <= duration * r) by (nonlinear_arith)
            requires
                0 <= elapsed <= duration,
                r == 30000,
        ;
        vstd::arithmetic::div_mod::lemma_div_by_multiple(r, duration);
        assert(duration * r == r * duration) by (nonlinear_arith);
        vstd::arithmetic::div_mod::lemma_div_is_ordered(elapsed * r, duration * r, duration);
        vstd::arithmetic::div_mod::lemma_div_pos_is_pos(elapsed * r, duration);
        assert(0 * r == 0);
        assert(0int / duration == 0) by (nonlinear_arith)
            requires
                duration > 0,
        ;
    }
}

/// Once an animator has stopped, every further step reports its target and leaves it
/// stopped and otherwise unchanged.
pub proof fn lemma_stopped_stays_stopped(a: PropertyAnimator, now: u64)
    requires
        !a.running,
    ensures
        a.stepped(now) == a,
        a.value_at(now) == a.to,
{
}

/// A step that finds more than the duration elapsed stops the animator on its target,
/// and any number of further steps, at whatever times, keep reporting that target.
pub proof fn lemma_completion_is_idempotent(a: PropertyAnimator, now: u64, later: Seq<u64>)
    requires
        a.running,
        a.elapsed(now) > a.duration_ms,
    ensures
        a.value_at(now) == a.to,
        !a.stepped(now).running,
        a.stepped(now).start_time.is_none(),
        stepped_through(a.stepped(now), later) == a.stepped(now),
        forall|i: int|
            0 <= i < later.len() ==> #[trigger] stepped_through(
                a.stepped(now),
                later.subrange(0, i),
            ).value_at(later[i]) == a.to,
{
    let done = a.stepped(now);
    lemma_rest_is_fixed(done, later);
    assert forall|i: int| 0 <= i < later.len() implies #[trigger] stepped_through(
        done,
        later.subrange(0, i),
    ).value_at(later[i]) == a.to by {
        lemma_rest_is_fixed(done, later.subrange(0, i));
    }
}

/// The animator after one step at each of `times`, in order.
pub open spec fn stepped_through(a: PropertyAnimator, times: Seq<u64>) -> PropertyAnimator
    decreases times.len(),
{
    if times.len() == 0 {
        a
    } else {
        stepped_through(a, times.drop_last()).stepped(times.last())
    }
}

/// No sequence of steps changes an animator at rest.
pub proof fn lemma_rest_is_fixed(a: PropertyAnimator, times: Seq<u64>)
    requires
        !a.running,
    ensures
        stepped_through(a, times) == a,
    decreases times.len(),
{
    if times.len() > 0 {
        lemma_rest_is_fixed(a, times.drop_last());
    }
}

/// A step taken exactly when the whole duration has elapsed reports the target itself,
/// whatever the easing curve, and leaves the animator running.
pub proof fn lemma_boundary_is_exact(a: PropertyAnimator, now: u64)
    requires
        a.running,
        a.duration_ms > 0,
        a.elapsed(now) == a.duration_ms,
    ensures
        a.value_at(now) == a.to,
        a.stepped(now).running,
{
    lemma_steps_in_unit(a.duration_ms as int, a.duration_ms as int);
    lemma_ease_reaches_target(a.easing, a.from, a.to, steps_in(a.duration_ms as int));
}

/// The first step after `start` reports the source itself, unless the duration is zero:
/// then it reports the target and stops.
pub proof fn lemma_first_step_is_source(a: PropertyAnimator, now: u64)
    requires
        a.running,
        a.start_time.is_none(),
    ensures
        a.duration_ms > 0 ==> a.value_at(now) == a.from && a.stepped(now).start_time == Some(now),
        a.duration_ms == 0 ==> a.value_at(now) == a.to && !a.stepped(now).running,
{
    if a.duration_ms > 0 {
        lemma_steps_in_unit(0, a.duration_ms as int);
        lemma_ease_starts_at_source(a.easing, a.from, a.to, steps_in(a.duration_ms as int));
    }
}

/// No step overshoots: the value reported lies between the source and the target.
pub proof fn lemma_value_stays_between(a: PropertyAnimator, now: u64)
    ensures
        a.from <= a.to ==> a.from <= a.value_at(now) <= a.to,
        a.to <= a.from ==> a.to <= a.value_at(now) <= a.from,
{
    if a.in_flight(now) {
        lemma_steps_in_unit(a.elapsed(now), a.duration_ms as int);
        lemma_ease_stays_between(
            a.easing,
            a.from,
            a.to,
            steps_done(a.elapsed(now), a.duration_ms as int),
            steps_in(a.duration_ms as int),
        );
    }
}

} // verus!
