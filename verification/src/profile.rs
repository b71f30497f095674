//! Saturating publication profile counters and per-phase execution counts.

use vstd::prelude::*;

verus! {

/// Publication profile handed to tests: accumulated nanoseconds per stage and counts of
/// measurement callbacks and text layout decisions.
#[derive(Clone, Copy, Debug, Default, PartialEq, Eq, Structural)]
pub struct SurfacePublicationTestProfile {
    pub surface_plan_ns: u128,
    pub layout_ns: u128,
    pub paint_ns: u128,
    pub displayed_text_targets_ns: u128,
    pub semantic_candidate_ns: u128,
    pub semantic_plan_ns: u128,
    pub widget_measure_callback_ns: u128,
    pub text_request_prepare_ns: u128,
    pub text_layout_ns: u128,
    pub measure_calls: usize,
    pub reshaped: usize,
    pub relinebroken: usize,
    pub reused: usize,
    pub paint_text_run_items: usize,
}

/// `total + more`, saturated at the largest value.
pub open spec fn saturating_sum(total: int, more: int, max: int) -> int {
    if total + more > max {
        max
    } else {
        total + more
    }
}

/// Adds `nanos` to `target`, saturating.
pub fn add_duration(target: &mut u128, nanos: u128)
    ensures
        *final(target) == saturating_sum(*old(target) as int, nanos as int, u128::MAX as int),
{
    *target = target.saturating_add(nanos);
}

/// Decision of one text layout request.
#[derive(Clone, Copy, Debug, PartialEq, Eq, Structural)]
pub enum TextLayoutDecision {
    Reshaped,
    Relinebroken,
    Reused,
}

/// The profile with every counter at zero.
pub open spec fn zero_profile() -> SurfacePublicationTestProfile {
    SurfacePublicationTestProfile {
        surface_plan_ns: 0,
        layout_ns: 0,
        paint_ns: 0,
        displayed_text_targets_ns: 0,
        semantic_candidate_ns: 0,
        semantic_plan_ns: 0,
        widget_measure_callback_ns: 0,
        text_request_prepare_ns: 0,
        text_layout_ns: 0,
        measure_calls: 0,
        reshaped: 0,
        relinebroken: 0,
        reused: 0,
        paint_text_run_items: 0,
    }
}

/// Accumulates one publication's profile until it is taken.
#[derive(Clone, Copy, Debug)]
pub struct PublicationProfileRecorder {
    pub profile: SurfacePublicationTestProfile,
}

impl PublicationProfileRecorder {
    /// Recorder with every counter at zero.
    pub fn new() -> (recorder: PublicationProfileRecorder)
        ensures
            recorder.profile == zero_profile(),
    {
        PublicationProfileRecorder { profile: Self::zero() }
    }

    fn zero() -> (profile: SurfacePublicationTestProfile)
        ensures
            profile == zero_profile(),
    {
        SurfacePublicationTestProfile {
            surface_plan_ns: 0,
            layout_ns: 0,
            paint_ns: 0,
            displayed_text_targets_ns: 0,
            semantic_candidate_ns: 0,
            semantic_plan_ns: 0,
            widget_measure_callback_ns: 0,
            text_request_prepare_ns: 0,
            text_layout_ns: 0,
            measure_calls: 0,
            reshaped: 0,
            relinebroken: 0,
            reused: 0,
            paint_text_run_items: 0,
        }
    }

    /// Sets every counter back to zero.
    pub fn reset(&mut self)
        ensures
            final(self).profile == zero_profile(),
    {
        self.profile = Self::zero();
    }

    /// Returns the accumulated profile and starts over from zero.
    pub fn take(&mut self) -> (taken: SurfacePublicationTestProfile)
        ensures
            taken == old(self).profile,
            final(self).profile == zero_profile(),
    {
        let taken = self.profile;
        self.profile = Self::zero();
        taken
    }

    /// Adds surface planning time.
    pub fn record_surface_plan(&mut self, nanos: u128)
        ensures
            final(self).profile == (SurfacePublicationTestProfile {
                surface_plan_ns: saturating_sum(
                    old(self).profile.surface_plan_ns as int,
                    nanos as int,
                    u128::MAX as int,
                ) as u128,
                ..old(self).profile
            }),
    {
        add_duration(&mut self.profile.surface_plan_ns, nanos);
    }

    /// Adds layout time.
    pub fn record_layout(&mut self, nanos: u128)
        ensures
            final(self).profile == (SurfacePublicationTestProfile {
                layout_ns: saturating_sum(old(self).profile.layout_ns as int, nanos as int, u128::MAX as int)
                    as u128,
                ..old(self).profile
            }),
    {
        add_duration(&mut self.profile.layout_ns, nanos);
    }

    /// Adds paint time.
    pub fn record_paint(&mut self, nanos: u128)
        ensures
            final(self).profile == (SurfacePublicationTestProfile {
                paint_ns: saturating_sum(old(self).profile.paint_ns as int, nanos as int, u128::MAX as int)
                    as u128,
                ..old(self).profile
            }),
    {
        add_duration(&mut self.profile.paint_ns, nanos);
    }

    /// Adds displayed text target time.
    pub fn record_displayed_text_targets(&mut self, nanos: u128)
        ensures
            final(self).profile == (SurfacePublicationTestProfile {
                displayed_text_targets_ns: saturating_sum(
                    old(self).profile.displayed_text_targets_ns as int,
                    nanos as int,
                    u128::MAX as int,
                ) as u128,
                ..old(self).profile
            }),
    {
        add_duration(&mut self.profile.displayed_text_targets_ns, nanos);
    }

    /// Adds semantic candidate time.
    pub fn record_semantic_candidate(&mut self, nanos: u128)
        ensures
            final(self).profile == (SurfacePublicationTestProfile {
                semantic_candidate_ns: saturating_sum(
                    old(self).profile.semantic_candidate_ns as int,
                    nanos as int,
                    u128::MAX as int,
                ) as u128,
                ..old(self).profile
            }),
    {
        add_duration(&mut self.profile.semantic_candidate_ns, nanos);
    }

    /// Adds semantic plan time.
    pub fn record_semantic_plan(&mut self, nanos: u128)
        ensures
            final(self).profile == (SurfacePublicationTestProfile {
                semantic_plan_ns: saturating_sum(
                    old(self).profile.semantic_plan_ns as int,
                    nanos as int,
                    u128::MAX as int,
                ) as u128,
                ..old(self).profile
            }),
    {
        add_duration(&mut self.profile.semantic_plan_ns, nanos);
    }

    /// Adds one measurement callback and its time.
    pub fn record_measure_callback(&mut self, nanos: u128)
        ensures
            final(self).profile == (SurfacePublicationTestProfile {
                widget_measure_callback_ns: saturating_sum(
                    old(self).profile.widget_measure_callback_ns as int,
                    nanos as int,
                    u128::MAX as int,
                ) as u128,
                measure_calls: saturating_sum(
                    old(self).profile.measure_calls as int,
                    1,
                    usize::MAX as int,
                ) as usize,
                ..old(self).profile
            }),
    {
        add_duration(&mut self.profile.widget_measure_callback_ns, nanos);
        self.profile.measure_calls = self.profile.measure_calls.saturating_add(1);
    }

    /// Adds text request preparation time.
    pub fn record_request_prepare(&mut self, nanos: u128)
        ensures
            final(self).profile == (SurfacePublicationTestProfile {
                text_request_prepare_ns: saturating_sum(
                    old(self).profile.text_request_prepare_ns as int,
                    nanos as int,
                    u128::MAX as int,
                ) as u128,
                ..old(self).profile
            }),
    {
        add_duration(&mut self.profile.text_request_prepare_ns, nanos);
    }

    /// Adds text layout time.
    pub fn record_text_layout(&mut self, nanos: u128)
        ensures
            final(self).profile == (SurfacePublicationTestProfile {
                text_layout_ns: saturating_sum(
                    old(self).profile.text_layout_ns as int,
                    nanos as int,
                    u128::MAX as int,
                ) as u128,
                ..old(self).profile
            }),
    {
        add_duration(&mut self.profile.text_layout_ns, nanos);
    }

    /// Counts one text layout decision.
    pub fn record_text_layout_decision(&mut self, decision: TextLayoutDecision)
        ensures
            final(self).profile == match decision {
                TextLayoutDecision::Reshaped => SurfacePublicationTestProfile {
                    reshaped: saturating_sum(old(self).profile.reshaped as int, 1, usize::MAX as int)
                        as usize,
                    ..old(self).profile
                },
                TextLayoutDecision::Relinebroken => SurfacePublicationTestProfile {
                    relinebroken: saturating_sum(
                        old(self).profile.relinebroken as int,
                        1,
                        usize::MAX as int,
                    ) as usize,
                    ..old(self).profile
                },
                TextLayoutDecision::Reused => SurfacePublicationTestProfile {
                    reused: saturating_sum(old(self).profile.reused as int, 1, usize::MAX as int)
                        as usize,
                    ..old(self).profile
                },
            },
    {
        match decision {
            TextLayoutDecision::Reshaped => {
                self.profile.reshaped = self.profile.reshaped.saturating_add(1);
            },
            TextLayoutDecision::Relinebroken => {
                self.profile.relinebroken = self.profile.relinebroken.saturating_add(1);
            },
            TextLayoutDecision::Reused => {
                self.profile.reused = self.profile.reused.saturating_add(1);
            },
        }
    }

    /// Adds `count` painted text run items.
    pub fn record_paint_text_run_items(&mut self, count: usize)
        ensures
            final(self).profile == (SurfacePublicationTestProfile {
                paint_text_run_items: saturating_sum(
                    old(self).profile.paint_text_run_items as int,
                    count as int,
                    usize::MAX as int,
                ) as usize,
                ..old(self).profile
            }),
    {
        self.profile.paint_text_run_items = self.profile.paint_text_run_items.saturating_add(count);
    }
}

/// How many times each phase function ran: tree, style, layout, hit testing, paint,
/// semantics, diagnostics.
#[derive(Clone, Copy, Debug)]
pub struct PhaseFunctionCounts {
    pub counts: [usize; 7],
}

impl PhaseFunctionCounts {
    /// Counts all at zero.
    pub fn new() -> (counts: PhaseFunctionCounts)
        ensures
            forall|i: int| 0 <= i < 7 ==> #[trigger] counts.counts@[i] == 0,
    {
        PhaseFunctionCounts { counts: [0; 7] }
    }

    /// Counts one execution of phase function `index`.
    pub fn note_phase_function_execution(&mut self, index: usize)
        requires
            index < 7,
            old(self).counts@[index as int] < usize::MAX,
        ensures
            final(self).counts@ == old(self).counts@.update(
                index as int,
                (old(self).counts@[index as int] + 1) as usize,
            ),
    {
        let next = self.counts[index] + 1;
        self.counts.set(index, next);
    }

    /// Sets every count back to zero.
    pub fn reset_phase_function_counts(&mut self)
        ensures
            forall|i: int| 0 <= i < 7 ==> #[trigger] final(self).counts@[i] == 0,
    {
        self.counts = [0; 7];
    }

    /// The current counts.
    pub fn phase_function_counts(&self) -> (counts: [usize; 7])
        ensures
            counts@ == self.counts@,
    {
        self.counts
    }
}

} // verus!
