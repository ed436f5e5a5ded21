//! A timed transition of a layer: up to five property animators that run together.
use vstd::prelude::*;
use crate::animator::PropertyAnimator;
use crate::easing::EasingFunction;

verus! {

/// The properties of a layer that an animation drives.
///
/// Scale and opacity are counted in parts of [`crate::UNIT`], rotation in degrees.
#[derive(Copy, Clone, Debug)]
pub struct Pose {
    pub x: i32,
    pub y: i32,
    pub rotation: i32,
    pub scale_x: i32,
    pub scale_y: i32,
    pub opacity: i32,
    pub animated: bool,
}

/// One timed transition: an animator for each of horizontal and vertical translation,
/// scale, rotation and opacity. The five run independently of one another.
///
/// `key_path` only describes the animation; it selects no animator. `duration_ms` and
/// `timing_function` are what the `set_to_value_*` methods arm an animator with.
#[derive(Clone, Debug)]
pub struct Animation {
    pub key_path: String,
    pub duration_ms: u64,
    pub timing_function: Option<EasingFunction>,
    pub translation_x: PropertyAnimator,
    pub translation_y: PropertyAnimator,
    pub scale: PropertyAnimator,
    pub rotation: PropertyAnimator,
    pub opacity: PropertyAnimator,
}

/// The value of a property after a step of its animator at `now`: the animator's value
/// where it was running, the property's own value where it was not.
pub open spec fn driven(a: PropertyAnimator, now: u64, current: i32) -> i32 {
    if a.running {
        a.value_at(now) as i32
    } else {
        current
    }
}

impl Animation {
    /// The curve that `set_to_value_*` arms an animator with: the timing function, or
    /// the linear curve where none is set.
    pub open spec fn timing(self) -> EasingFunction {
        match self.timing_function {
            Some(e) => e,
            None => EasingFunction::Linear,
        }
    }

    /// Whether any of the five animators is running.
    pub open spec fn spec_is_active(&self) -> bool {
        self.translation_x.running || self.translation_y.running || self.scale.running
            || self.rotation.running || self.opacity.running
    }

    /// The animation after a step of each of its animators at `now`.
    pub open spec fn ran(self, now: u64) -> Animation {
        Animation {
            translation_x: self.translation_x.stepped(now),
            translation_y: self.translation_y.stepped(now),
            scale: self.scale.stepped(now),
            rotation: self.rotation.stepped(now),
            opacity: self.opacity.stepped(now),
            ..self
        }
    }

    /// The pose that a run at `now` leaves of `pose`: each property whose animator was
    /// running takes that animator's value, scale on both axes, and `animated` tells
    /// whether any animator is still running after the step.
    pub open spec fn posed(self, now: u64, pose: Pose) -> Pose {
        Pose {
            x: driven(self.translation_x, now, pose.x),
            y: driven(self.translation_y, now, pose.y),
            rotation: driven(self.rotation, now, pose.rotation),
            scale_x: driven(self.scale, now, pose.scale_x),
            scale_y: driven(self.scale, now, pose.scale_y),
            opacity: driven(self.opacity, now, pose.opacity),
            animated: self.ran(now).spec_is_active(),
        }
    }

    /// An animation with an empty key path, a duration of one second, no timing function
    /// and all five animators at rest.
    pub fn new() -> (a: Animation)
        ensures
            a.key_path@ == Seq::<char>::empty(),
            a.duration_ms == 1000,
            a.timing_function.is_none(),
            a.translation_x == PropertyAnimator::at_rest(),
            a.translation_y == PropertyAnimator::at_rest(),
            a.scale == PropertyAnimator::at_rest(),
            a.rotation == PropertyAnimator::at_rest(),
            a.opacity == PropertyAnimator::at_rest(),
            !a.spec_is_active(),
    {
        Animation {
            key_path: String::new(),
            duration_ms: 1000,
            timing_function: None,
            translation_x: PropertyAnimator::new(),
            translation_y: PropertyAnimator::new(),
            scale: PropertyAnimator::new(),
            rotation: PropertyAnimator::new(),
            opacity: PropertyAnimator::new(),
        }
    }

    /// An animation like [`Animation::new`], described by `key_path`.
    pub fn with_key_path(key_path: &str) -> (a: Animation)
        ensures
            a.key_path@ == key_path@,
            a.duration_ms == 1000,
            a.timing_function.is_none(),
            a.translation_x == PropertyAnimator::at_rest(),
            a.translation_y == PropertyAnimator::at_rest(),
            a.scale == PropertyAnimator::at_rest(),
            a.rotation == PropertyAnimator::at_rest(),
            a.opacity == PropertyAnimator::at_rest(),
            !a.spec_is_active(),
    {
        Animation {
            key_path: key_path.to_owned(),
            duration_ms: 1000,
            timing_function: None,
            translation_x: PropertyAnimator::new(),
            translation_y: PropertyAnimator::new(),
            scale: PropertyAnimator::new(),
            rotation: PropertyAnimator::new(),
            opacity: PropertyAnimator::new(),
        }
    }

    /// Whether any of the five animators is running.
    #[verifier::when_used_as_spec(spec_is_active)]
    pub fn is_active(&self) -> (b: bool)
        ensures
            b == self.spec_is_active(),
    {
        self.translation_x.running || self.translation_y.running || self.scale.running
            || self.rotation.running || self.opacity.running
    }

    /// Arms the horizontal translation: `from_value` to `to_value` over `time_ms`.
    pub fn apply_translation_x(
        &mut self,
        from_value: i32,
        to_value: i32,
        time_ms: u64,
        easing: EasingFunction,
    )
        ensures
            *final(self) == (Animation {
                translation_x: PropertyAnimator {
                    from: from_value,
                    to: to_value,
                    duration_ms: time_ms,
                    easing,
                    running: true,
                    start_time: None,
                },
                ..*old(self)
            }),
    {
        self.translation_x.start(from_value, to_value, time_ms, easing);
    }

    /// Arms the vertical translation: `from_value` to `to_value` over `time_ms`.
    pub fn apply_translation_y(
        &mut self,
        from_value: i32,
        to_value: i32,
        time_ms: u64,
        easing: EasingFunction,
    )
        ensures
            *final(self) == (Animation {
                translation_y: PropertyAnimator {
                    from: from_value,
                    to: to_value,
                    duration_ms: time_ms,
                    easing,
                    running: true,
                    start_time: None,
                },
                ..*old(self)
            }),
    {
        self.translation_y.start(from_value, to_value, time_ms, easing);
    }

    /// Arms the rotation: `from_value` to `to_value` degrees over `time_ms`.
    pub fn apply_rotation(
        &mut self,
        from_value: i32,
        to_value: i32,
        time_ms: u64,
        easing: EasingFunction,
    )
        ensures
            *final(self) == (Animation {
                rotation: PropertyAnimator {
                    from: from_value,
                    to: to_value,
                    duration_ms: time_ms,
                    easing,
                    running: true,
                    start_time: None,
                },
                ..*old(self)
            }),
    {
        self.rotation.start(from_value, to_value, time_ms, easing);
    }

    /// Arms the scale, of both axes: `from_value` to `to_value` over `time_ms`.
    pub fn apply_scale(
        &mut self,
        from_value: i32,
        to_value: i32,
        time_ms: u64,
        easing: EasingFunction,
    )
        ensures
            *final(self) == (Animation {
                scale: PropertyAnimator {
                    from: from_value,
                    to: to_value,
                    duration_ms: time_ms,
                    easing,
                    running: true,
                    start_time: None,
                },
                ..*old(self)
            }),
    {
        self.scale.start(from_value, to_value, time_ms, easing);
    }

    /// Arms the opacity: `from_value` to `to_value` over `time_ms`.
    pub fn apply_opacity(
        &mut self,
        from_value: i32,
        to_value: i32,
        time_ms: u64,
        easing: EasingFunction,
    )
        ensures
            *final(self) == (Animation {
                opacity: PropertyAnimator {
                    from: from_value,
                    to: to_value,
                    duration_ms: time_ms,
                    easing,
                    running: true,
                    start_time: None,
                },
                ..*old(self)
            }),
    {
        self.opacity.start(from_value, to_value, time_ms, easing);
    }

    /// Stores the value the horizontal translation starts from. Arms nothing.
    pub fn set_from_value_position_x(&mut self, value: i32)
        ensures
            *final(self) == (Animation {
                translation_x: PropertyAnimator { from: value, ..old(self).translation_x },
                ..*old(self)
            }),
    {
        self.translation_x.from = value;
    }

    /// Sets the target of the horizontal translation and arms it with the animation's
    /// duration and timing.
    pub fn set_to_value_position_x(&mut self, value: i32)
        ensures
            *final(self) == (Animation {
                translation_x: old(self).armed(old(self).translation_x, value),
                ..*old(self)
            }),
    {
        let easing = self.timing_or_linear();
        let from = self.translation_x.from;
        self.translation_x.start(from, value, self.duration_ms, easing);
    }

    /// Stores the value the vertical translation starts from. Arms nothing.
    pub fn set_from_value_position_y(&mut self, value: i32)
        ensures
            *final(self) == (Animation {
                translation_y: PropertyAnimator { from: value, ..old(self).translation_y },
                ..*old(self)
            }),
    {
        self.translation_y.from = value;
    }

    /// Sets the target of the vertical translation and arms it with the animation's
    /// duration and timing.
    pub fn set_to_value_position_y(&mut self, value: i32)
        ensures
            *final(self) == (Animation {
                translation_y: old(self).armed(old(self).translation_y, value),
                ..*old(self)
            }),
    {
        let easing = self.timing_or_linear();
        let from = self.translation_y.from;
        self.translation_y.start(from, value, self.duration_ms, easing);
    }

    /// Stores the value the scale starts from. Arms nothing.
    pub fn set_from_value_scale(&mut self, value: i32)
        ensures
            *final(self) == (Animation {
                scale: PropertyAnimator { from: value, ..old(self).scale },
                ..*old(self)
            }),
    {
        self.scale.from = value;
    }

    /// Sets the target of the scale and arms it with the animation's duration and timing.
    pub fn set_to_value_scale(&mut self, value: i32)
        ensures
            *final(self) == (Animation {
                scale: old(self).armed(old(self).scale, value),
                ..*old(self)
            }),
    {
        let easing = self.timing_or_linear();
        let from = self.scale.from;
        self.scale.start(from, value, self.duration_ms, easing);
    }

    /// Stores the value the rotation starts from. Arms nothing.
    pub fn set_from_value_rotation(&mut self, value: i32)
        ensures
            *final(self) == (Animation {
                rotation: PropertyAnimator { from: value, ..old(self).rotation },
                ..*old(self)
            }),
    {
        self.rotation.from = value;
    }

    /// Sets the target of the rotation and arms it with the animation's duration and
    /// timing.
    pub fn set_to_value_rotation(&mut self, value: i32)
        ensures
            *final(self) == (Animation {
                rotation: old(self).armed(old(self).rotation, value),
                ..*old(self)
            }),
    {
        let easing = self.timing_or_linear();
        let from = self.rotation.from;
        self.rotation.start(from, value, self.duration_ms, easing);
    }

    /// Stores the value the opacity starts from. Arms nothing.
    pub fn set_from_value_opacity(&mut self, value: i32)
        ensures
            *final(self) == (Animation {
                opacity: PropertyAnimator { from: value, ..old(self).opacity },
                ..*old(self)
            }),
    {
        self.opacity.from = value;
    }

    /// Sets the target of the opacity and arms it with the animation's duration and
    /// timing.
    pub fn set_to_value_opacity(&mut self, value: i32)
        ensures
            *final(self) == (Animation {
                opacity: old(self).armed(old(self).opacity, value),
                ..*old(self)
            }),
    {
        let easing = self.timing_or_linear();
        let from = self.opacity.from;
        self.opacity.start(from, value, self.duration_ms, easing);
    }

    /// The animator `a` armed toward `to` with this animation's duration and timing,
    /// keeping the start value it holds.
    pub open spec fn armed(self, a: PropertyAnimator, to: i32) -> PropertyAnimator {
        PropertyAnimator {
            from: a.from,
            to,
            duration_ms: self.duration_ms,
            easing: self.timing(),
            running: true,
            start_time: None,
        }
    }

    fn timing_or_linear(&self) -> (e: EasingFunction)
        ensures
            e == self.timing(),
    {
        match self.timing_function {
            Some(e) => e,
            None => EasingFunction::Linear,
        }
    }

    /// Steps every running animator to `now` and writes its value into `pose`.
    ///
    /// An animator at rest leaves its property alone. `pose.animated` becomes whether
    /// any animator is still running after the step.
    pub fn advance(&mut self, pose: &mut Pose, now: u64)
        ensures
            *final(self) == old(self).ran(now),
            *final(pose) == old(self).posed(now, *old(pose)),
    {
        if self.translation_x.running {
            pose.x = self.translation_x.step(now);
        }
        if self.translation_y.running {
            pose.y = self.translation_y.step(now);
        }
        if self.rotation.running {
            pose.rotation = self.rotation.step(now);
        }
        if self.scale.running {
            let s: i32 = self.scale.step(now);
            pose.scale_x = s;
            pose.scale_y = s;
        }
        if self.opacity.running {
            pose.opacity = self.opacity.step(now);
        }
        pose.animated = self.is_active();
    }
}

/// An animation is active exactly when one of its animators is running, and a run never
/// starts an animator: one at rest before the run is at rest after it.
pub proof fn lemma_run_starts_nothing(a: Animation, now: u64)
    ensures
        a.ran(now).translation_x.running ==> a.translation_x.running,
        a.ran(now).translation_y.running ==> a.translation_y.running,
        a.ran(now).scale.running ==> a.scale.running,
        a.ran(now).rotation.running ==> a.rotation.running,
        a.ran(now).opacity.running ==> a.opacity.running,
        a.ran(now).spec_is_active() ==> a.spec_is_active(),
        !a.spec_is_active() ==> a.ran(now) == a,
{
}

/// The step that stops an animator leaves its property on the target: no property is
/// left part of the way once its animator is at rest.
pub proof fn lemma_stopping_snaps_to_target(a: crate::animator::PropertyAnimator, now: u64, current: i32)
    requires
        a.running,
        !a.stepped(now).running,
    ensures
        driven(a, now, current) == a.to,
{
}

} // verus!
