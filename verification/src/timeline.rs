//! Integer-nanosecond schedules of explicit motion timelines and transitions, their
//! sampling phase, and the motion activity a publication reports.

use vstd::prelude::*;

use crate::ids::MountedNodeId;

verus! {

/// Why motion planning failed.
#[derive(Clone, Copy, Debug, PartialEq, Eq, Structural)]
pub enum MotionPlanningError {
    /// Two timelines of one owner share an animation id.
    DuplicateAnimationId,
    /// Two timelines of one owner animate the same target.
    DuplicateTarget(u64),
    /// A deadline is beyond the representable instants.
    ScheduleOverflow,
    /// A target's values cannot be interpolated.
    Interpolation(u64),
}

/// How often an explicit timeline repeats.
#[derive(Clone, Copy, Debug, PartialEq, Eq, Structural)]
pub enum MotionRepeat {
    /// A positive number of iterations.
    Finite(u64),
    /// Without end.
    Forever,
}

/// Validated schedule of one explicit timeline, in nanoseconds.
#[derive(Clone, Copy, Debug, PartialEq, Eq, Structural)]
pub struct TimelineSchedule {
    pub delay_nanos: u64,
    pub duration_nanos: u64,
    pub repeat: MotionRepeat,
}

/// A validated schedule: a finite repetition is positive and its whole active span,
/// delay included, is representable.
pub open spec fn schedule_valid(schedule: TimelineSchedule) -> bool {
    match schedule.repeat {
        MotionRepeat::Finite(n) => n >= 1 && schedule.delay_nanos + schedule.duration_nanos * n
            <= u64::MAX,
        MotionRepeat::Forever => true,
    }
}

/// Instant `nanos` after `instant`, refusing one beyond the representable range.
pub fn checked_add_nanos(instant: u64, nanos: u64) -> (deadline: Result<u64, MotionPlanningError>)
    ensures
        match deadline {
            Ok(d) => d == instant + nanos,
            Err(e) => instant + nanos > u64::MAX && e == MotionPlanningError::ScheduleOverflow,
        },
{
    match instant.checked_add(nanos) {
        Some(deadline) => Ok(deadline),
        None => Err(MotionPlanningError::ScheduleOverflow),
    }
}

/// Whole nanoseconds of a duration known to fit in 64 bits.
pub fn nanos(duration_nanos: u128) -> (value: u64)
    requires
        duration_nanos <= u64::MAX,
    ensures
        value == duration_nanos,
{
    duration_nanos as u64
}

/// Nanoseconds from the start to the end of the last iteration of a finite schedule.
pub open spec fn spec_terminal_offset(schedule: TimelineSchedule) -> Option<int> {
    match schedule.repeat {
        MotionRepeat::Finite(n) => Some(schedule.delay_nanos + schedule.duration_nanos * n),
        MotionRepeat::Forever => None,
    }
}

/// Checks that a timeline started at `instant` has representable deadlines.
pub fn check_timeline_schedule(schedule: TimelineSchedule, instant: u64) -> (checked: Result<
    (),
    MotionPlanningError,
>)
    requires
        schedule_valid(schedule),
    ensures
        checked is Ok <==> match spec_terminal_offset(schedule) {
            Some(offset) => instant + offset <= u64::MAX,
            None => instant + schedule.delay_nanos <= u64::MAX,
        },
        checked matches Err(e) ==> e == MotionPlanningError::ScheduleOverflow,
{
    match schedule.repeat {
        MotionRepeat::Finite(iterations) => {
            proof {
                assert(schedule.duration_nanos * iterations <= u64::MAX) by (nonlinear_arith)
                    requires
                        schedule.delay_nanos + schedule.duration_nanos * iterations <= u64::MAX,
                        schedule.delay_nanos >= 0,
                ;
            }
            let active = schedule.duration_nanos * iterations;
            match checked_add_nanos(instant, schedule.delay_nanos + active) {
                Ok(_) => Ok(()),
                Err(e) => Err(e),
            }
        },
        MotionRepeat::Forever => match checked_add_nanos(instant, schedule.delay_nanos) {
            Ok(_) => Ok(()),
            Err(e) => Err(e),
        },
    }
}

/// Checks that a transition started at `instant` ends at a representable instant.
pub fn check_transition_schedule(delay_nanos: u64, duration_nanos: u64, instant: u64) -> (checked:
    Result<(), MotionPlanningError>)
    requires
        delay_nanos + duration_nanos <= u64::MAX,
    ensures
        checked is Ok <==> instant + delay_nanos + duration_nanos <= u64::MAX,
        checked matches Err(e) ==> e == MotionPlanningError::ScheduleOverflow,
{
    match checked_add_nanos(instant, delay_nanos + duration_nanos) {
        Ok(_) => Ok(()),
        Err(e) => Err(e),
    }
}

/// Phase of an explicit timeline at one instant.
#[derive(Clone, Copy, Debug, PartialEq, Eq, Structural)]
pub enum ExplicitPhase {
    /// Before the delay ends; the initial keyframe holds until `deadline`.
    Delayed { deadline: u64 },
    /// After the last iteration ends, or a zero-length timeline; the terminal keyframe
    /// holds.
    Completed,
    /// Within iteration time `iteration_nanos` of `duration_nanos`.
    Running { iteration_nanos: u64, duration_nanos: u64 },
}

/// Keyframe source of a sampled value.
#[derive(Clone, Copy, Debug, PartialEq, Eq, Structural)]
pub enum SampledKeyframe {
    /// The initial keyframe holds.
    Initial,
    /// The terminal keyframe holds.
    Terminal,
    /// The value is interpolated between keyframes at the phase's progress.
    Interpolated,
}

impl ExplicitPhase {
    /// Progress through the timeline as the ratio `(numerator, denominator)`: zero while
    /// delayed, one once completed, and the elapsed part of the iteration while running.
    pub fn progress_ratio(self) -> (ratio: (u64, u64))
        ensures
            ratio == match self {
                ExplicitPhase::Delayed { .. } => (0u64, 1u64),
                ExplicitPhase::Completed => (1u64, 1u64),
                ExplicitPhase::Running { iteration_nanos, duration_nanos } => (
                    iteration_nanos,
                    duration_nanos,
                ),
            },
    {
        match self {
            ExplicitPhase::Delayed { .. } => (0, 1),
            ExplicitPhase::Completed => (1, 1),
            ExplicitPhase::Running { iteration_nanos, duration_nanos } => (iteration_nanos, duration_nanos),
        }
    }

    /// Which keyframe the sampled value comes from: the initial one while delayed, the
    /// terminal one once completed, an interpolation while running.
    pub fn keyframe(self) -> (keyframe: SampledKeyframe)
        ensures
            keyframe == match self {
                ExplicitPhase::Delayed { .. } => SampledKeyframe::Initial,
                ExplicitPhase::Completed => SampledKeyframe::Terminal,
                ExplicitPhase::Running { .. } => SampledKeyframe::Interpolated,
            },
    {
        match self {
            ExplicitPhase::Delayed { .. } => SampledKeyframe::Initial,
            ExplicitPhase::Completed => SampledKeyframe::Terminal,
            ExplicitPhase::Running { .. } => SampledKeyframe::Interpolated,
        }
    }
}

/// Phase and terminal deadline of a timeline sampled at one instant.
#[derive(Clone, Copy, Debug, PartialEq, Eq, Structural)]
pub struct ExplicitSample {
    pub phase: ExplicitPhase,
    pub terminal_deadline: Option<u64>,
}

/// The sample of a timeline started at `start`, taken at `instant`.
pub open spec fn spec_explicit_sample(schedule: TimelineSchedule, start: u64, instant: u64) -> Result<
    ExplicitSample,
    MotionPlanningError,
> {
    let delay_deadline = start + schedule.delay_nanos;
    let terminal = match spec_terminal_offset(schedule) {
        Some(offset) => Some(start + offset),
        None => None,
    };
    if delay_deadline > u64::MAX || (terminal matches Some(t) && t > u64::MAX) {
        Err(MotionPlanningError::ScheduleOverflow)
    } else {
        let terminal_deadline = match terminal {
            Some(t) => Some(t as u64),
            None => None,
        };
        let phase = if instant < delay_deadline {
            ExplicitPhase::Delayed { deadline: delay_deadline as u64 }
        } else if (terminal matches Some(t) && instant >= t) || schedule.duration_nanos == 0 {
            ExplicitPhase::Completed
        } else {
            ExplicitPhase::Running {
                iteration_nanos: ((instant - delay_deadline) % (schedule.duration_nanos as int)) as u64,
                duration_nanos: schedule.duration_nanos,
            }
        };
        Ok(ExplicitSample { phase, terminal_deadline })
    }
}

/// Samples the phase of a timeline started at `start` at `instant`: delayed before the
/// delay ends, completed at or after the end of the last iteration (or when its duration
/// is zero), and otherwise running at the elapsed time within the current iteration.
pub fn sample_explicit(schedule: TimelineSchedule, start: u64, instant: u64) -> (sample: Result<
    ExplicitSample,
    MotionPlanningError,
>)
    requires
        schedule_valid(schedule),
    ensures
        sample == spec_explicit_sample(schedule, start, instant),
{
    let delay_deadline = match checked_add_nanos(start, schedule.delay_nanos) {
        Ok(d) => d,
        Err(e) => {
            return Err(e);
        },
    };
    let terminal_deadline = match schedule.repeat {
        MotionRepeat::Finite(iterations) => {
            proof {
                assert(schedule.duration_nanos * iterations <= u64::MAX) by (nonlinear_arith)
                    requires
                        schedule.delay_nanos + schedule.duration_nanos * iterations <= u64::MAX,
                        schedule.delay_nanos >= 0,
                ;
            }
            let active = schedule.duration_nanos * iterations;
            match checked_add_nanos(start, schedule.delay_nanos + active) {
                Ok(d) => Some(d),
                Err(e) => {
                    return Err(e);
                },
            }
        },
        MotionRepeat::Forever => None,
    };
    if instant < delay_deadline {
        return Ok(
            ExplicitSample {
                phase: ExplicitPhase::Delayed { deadline: delay_deadline },
                terminal_deadline,
            },
        );
    }
    let finished = match terminal_deadline {
        Some(deadline) => instant >= deadline,
        None => false,
    };
    if finished || schedule.duration_nanos == 0 {
        return Ok(ExplicitSample { phase: ExplicitPhase::Completed, terminal_deadline });
    }
    let active_nanos = instant - delay_deadline;
    let iteration_nanos = active_nanos % schedule.duration_nanos;
    Ok(
        ExplicitSample {
            phase: ExplicitPhase::Running { iteration_nanos, duration_nanos: schedule.duration_nanos },
            terminal_deadline,
        },
    )
}

/// A running sample lies strictly inside its iteration, and a sample's phase moves only
/// forward in time: once completed, every later instant is completed too.
pub proof fn lemma_explicit_phase_is_monotone(
    schedule: TimelineSchedule,
    start: u64,
    earlier: u64,
    later: u64,
)
    requires
        schedule_valid(schedule),
        earlier <= later,
    ensures
        spec_explicit_sample(schedule, start, earlier) matches Ok(s) ==> match s.phase {
            ExplicitPhase::Running { iteration_nanos, duration_nanos } => iteration_nanos
                < duration_nanos,
            _ => true,
        },
        spec_explicit_sample(schedule, start, earlier) matches Ok(s) ==> (s.phase
            == ExplicitPhase::Completed ==> (spec_explicit_sample(schedule, start, later) matches Ok(
            t,
        ) && t.phase == ExplicitPhase::Completed)),
        spec_explicit_sample(schedule, start, later) matches Ok(t) ==> (t.phase is Delayed ==> (
        spec_explicit_sample(schedule, start, earlier) matches Ok(s) && s.phase is Delayed)),
{
}

/// Motion activity of one publication: whether motion needs continuous redraw, whether
/// a follow-up publication is needed, and the earliest motion deadline.
#[derive(Clone, Copy, Debug, PartialEq, Eq, Structural)]
pub struct MotionActivity {
    pub continuous_redraw: bool,
    pub followup_publication: bool,
    pub next_deadline: Option<u64>,
}

impl MotionActivity {
    /// Activity with no motion.
    pub fn idle() -> (activity: MotionActivity)
        ensures
            !activity.continuous_redraw,
            !activity.followup_publication,
            activity.next_deadline is None,
    {
        MotionActivity { continuous_redraw: false, followup_publication: false, next_deadline: None }
    }

    /// Whether motion needs continuous redraw.
    pub fn continuous_redraw(self) -> (redraw: bool)
        ensures
            redraw == self.continuous_redraw,
    {
        self.continuous_redraw
    }

    /// Whether a follow-up publication is needed.
    pub fn followup_publication(self) -> (followup: bool)
        ensures
            followup == self.followup_publication,
    {
        self.followup_publication
    }

    /// The earliest motion deadline, if any.
    pub fn next_deadline(self) -> (deadline: Option<u64>)
        ensures
            deadline == self.next_deadline,
    {
        self.next_deadline
    }

    /// Keeps the earlier of the current deadline and `deadline`.
    pub fn note_deadline(&mut self, deadline: u64)
        ensures
            final(self).next_deadline == Some(
                match old(self).next_deadline {
                    Some(current) => if deadline < current {
                        deadline
                    } else {
                        current
                    },
                    None => deadline,
                },
            ),
            final(self).continuous_redraw == old(self).continuous_redraw,
            final(self).followup_publication == old(self).followup_publication,
    {
        self.next_deadline = Some(
            match self.next_deadline {
                Some(current) => if deadline < current {
                    deadline
                } else {
                    current
                },
                None => deadline,
            },
        );
    }
}

/// Phase of a live motion sample, as activity sees it.
#[derive(Clone, Copy, Debug, PartialEq, Eq, Structural)]
pub enum LivePhase {
    Delayed { deadline: u64 },
    Running,
    HeldInitial,
    Completed,
}

/// Notes the activity of one live sample: a delayed sample wakes at its delay deadline
/// and a running one needs continuous redraw; a suppressed sample only wakes at its
/// terminal deadline; finished or held samples need nothing.
pub fn note_live_activity(
    phase: LivePhase,
    terminal_deadline: Option<u64>,
    suppressed: bool,
    activity: &mut MotionActivity,
)
    ensures
        final(activity).followup_publication == old(activity).followup_publication,
        final(activity).continuous_redraw == (old(activity).continuous_redraw || (!suppressed
            && phase == LivePhase::Running)),
        final(activity).next_deadline == match (suppressed, phase) {
            (false, LivePhase::Delayed { deadline }) => Some(
                match old(activity).next_deadline {
                    Some(c) => if deadline < c {
                        deadline
                    } else {
                        c
                    },
                    None => deadline,
                },
            ),
            (true, LivePhase::Delayed { .. }) | (true, LivePhase::Running) => match terminal_deadline {
                Some(t) => Some(
                    match old(activity).next_deadline {
                        Some(c) => if t < c {
                            t
                        } else {
                            c
                        },
                        None => t,
                    },
                ),
                None => old(activity).next_deadline,
            },
            _ => old(activity).next_deadline,
        },
{
    match (suppressed, phase) {
        (_, LivePhase::Completed) | (_, LivePhase::HeldInitial) => {},
        (false, LivePhase::Delayed { deadline }) => activity.note_deadline(deadline),
        (false, LivePhase::Running) => activity.continuous_redraw = true,
        (true, LivePhase::Delayed { .. }) | (true, LivePhase::Running) => {
            if let Some(deadline) = terminal_deadline {
                activity.note_deadline(deadline);
            }
        },
    }
}

/// One explicit timeline declaration of an owner: its animation id and target.
#[derive(Clone, Copy, Debug, PartialEq, Eq, Structural)]
pub struct TimelineDeclaration {
    pub id: u64,
    pub target: u64,
}

/// Whether declaration `i` conflicts with an earlier one.
pub open spec fn spec_conflicts_earlier(declarations: Seq<TimelineDeclaration>, i: int) -> bool {
    exists|p: int|
        0 <= p < i && (#[trigger] declarations[p].id == declarations[i].id || declarations[p].target
            == declarations[i].target)
}

/// Whether `p` is the earliest declaration before `i` that `i` conflicts with, and `i`
/// is the earliest declaration that conflicts with an earlier one.
pub open spec fn spec_first_conflict(declarations: Seq<TimelineDeclaration>, i: int, p: int) -> bool {
    &&& 0 <= p < i < declarations.len()
    &&& (declarations[p].id == declarations[i].id || declarations[p].target == declarations[i].target)
    &&& forall|q: int|
        0 <= q < p ==> #[trigger] declarations[q].id != declarations[i].id && declarations[q].target
            != declarations[i].target
    &&& forall|j: int| 0 <= j < i ==> !#[trigger] spec_conflicts_earlier(declarations, j)
}

/// Refuses an owner's timelines when two share an animation id or a target, reporting
/// the first conflicting declaration against the earliest earlier one it conflicts with:
/// a shared id before a shared target.
pub fn validate_owner_declarations(declarations: &Vec<TimelineDeclaration>) -> (result: Result<
    (),
    MotionPlanningError,
>)
    ensures
        result is Ok <==> forall|i: int|
            0 <= i < declarations@.len() ==> !#[trigger] spec_conflicts_earlier(declarations@, i),
        result matches Err(e) ==> exists|i: int, p: int|
            #[trigger] spec_first_conflict(declarations@, i, p) && e == if declarations@[p].id
                == declarations@[i].id {
                MotionPlanningError::DuplicateAnimationId
            } else {
                MotionPlanningError::DuplicateTarget(declarations@[i].target)
            },
{
    let mut index: usize = 0;
    while index < declarations.len()
        invariant
            index <= declarations@.len(),
            forall|i: int| 0 <= i < index ==> !#[trigger] spec_conflicts_earlier(declarations@, i),
        decreases declarations.len() - index,
    {
        let declaration = declarations[index];
        let mut previous: usize = 0;
        while previous < index
            invariant
                index < declarations@.len(),
                previous <= index,
                declaration == declarations@[index as int],
                forall|i: int| 0 <= i < index ==> !#[trigger] spec_conflicts_earlier(declarations@, i),
                forall|q: int|
                    0 <= q < previous ==> #[trigger] declarations@[q].id != declaration.id
                        && declarations@[q].target != declaration.target,
            decreases index - previous,
        {
            let earlier = declarations[previous];
            if earlier.id == declaration.id || earlier.target == declaration.target {
                proof {
                    assert(spec_first_conflict(declarations@, index as int, previous as int));
                    assert(spec_conflicts_earlier(declarations@, index as int));
                }
                if earlier.id == declaration.id {
                    return Err(MotionPlanningError::DuplicateAnimationId);
                }
                return Err(MotionPlanningError::DuplicateTarget(declaration.target));
            }
            proof {
                assert forall|q: int| 0 <= q < previous + 1 implies #[trigger] declarations@[q].id
                    != declaration.id && declarations@[q].target != declaration.target by {
                    if q == previous as int {
                        assert(declarations@[q] == earlier);
                    }
                }
            }
            previous = previous + 1;
        }
        proof {
            assert(!spec_conflicts_earlier(declarations@, index as int)) by {
                if spec_conflicts_earlier(declarations@, index as int) {
                    let p = choose|p: int|
                        0 <= p < index && (#[trigger] declarations@[p].id == declarations@[index as int].id
                            || declarations@[p].target == declarations@[index as int].target);
                    assert(declarations@[p].id != declaration.id);
                }
            }
        }
        index = index + 1;
    }
    Ok(())
}

/// How reduced-motion preferences shape motion.
#[derive(Clone, Copy, Debug, PartialEq, Eq, Structural)]
pub enum MotionPreferenceMode {
    Normal,
    SnapToEnd,
    HoldInitial,
    PreserveEssential,
}

/// Reduced-motion strategy a declaration asks for.
#[derive(Clone, Copy, Debug, PartialEq, Eq, Structural)]
pub enum ReducedMotionStrategy {
    SnapToEnd,
    HoldInitial,
    PreserveEssential,
}

/// Preference decision, as traced.
#[derive(Clone, Copy, Debug, PartialEq, Eq, Structural)]
pub enum TraceMotionPreferenceDecision {
    Normal,
    SnapToEnd,
    HoldInitial,
    PreserveEssential,
}

/// Motion runs normally unless reduced motion is preferred; then the declared strategy
/// decides.
pub fn motion_preference_mode(reduced_motion: bool, strategy: ReducedMotionStrategy) -> (mode:
    MotionPreferenceMode)
    ensures
        mode == if !reduced_motion {
            MotionPreferenceMode::Normal
        } else {
            match strategy {
                ReducedMotionStrategy::SnapToEnd => MotionPreferenceMode::SnapToEnd,
                ReducedMotionStrategy::HoldInitial => MotionPreferenceMode::HoldInitial,
                ReducedMotionStrategy::PreserveEssential => MotionPreferenceMode::PreserveEssential,
            }
        },
{
    if !reduced_motion {
        return MotionPreferenceMode::Normal;
    }
    match strategy {
        ReducedMotionStrategy::SnapToEnd => MotionPreferenceMode::SnapToEnd,
        ReducedMotionStrategy::HoldInitial => MotionPreferenceMode::HoldInitial,
        ReducedMotionStrategy::PreserveEssential => MotionPreferenceMode::PreserveEssential,
    }
}

/// The traced form of a preference mode.
pub fn trace_preference_decision(mode: MotionPreferenceMode) -> (decision: TraceMotionPreferenceDecision)
    ensures
        decision == match mode {
            MotionPreferenceMode::Normal => TraceMotionPreferenceDecision::Normal,
            MotionPreferenceMode::SnapToEnd => TraceMotionPreferenceDecision::SnapToEnd,
            MotionPreferenceMode::HoldInitial => TraceMotionPreferenceDecision::HoldInitial,
            MotionPreferenceMode::PreserveEssential => TraceMotionPreferenceDecision::PreserveEssential,
        },
{
    match mode {
        MotionPreferenceMode::Normal => TraceMotionPreferenceDecision::Normal,
        MotionPreferenceMode::SnapToEnd => TraceMotionPreferenceDecision::SnapToEnd,
        MotionPreferenceMode::HoldInitial => TraceMotionPreferenceDecision::HoldInitial,
        MotionPreferenceMode::PreserveEssential => TraceMotionPreferenceDecision::PreserveEssential,
    }
}

/// Lifecycle of one explicit timeline record.
#[derive(Clone, Copy, Debug, PartialEq, Eq, Structural)]
pub enum ExplicitLifecycle {
    /// The initial keyframe holds until the timeline is released.
    HoldInitial,
    /// The timeline runs since instant `start`.
    Active { start: u64 },
    /// The terminal keyframe holds.
    Completed,
}

/// Traced lifecycle transition of an explicit timeline.
#[derive(Clone, Copy, Debug, PartialEq, Eq, Structural)]
pub enum TraceMotionLifecycle {
    Started,
    HoldInitialEntered,
    HoldInitialReleased,
    Restarted,
    Completed,
    CompletedRetained,
}

/// Lifecycle transitions traced for one explicit timeline entry, in order. `prior` is the
/// retained record's lifecycle, which counts only when it has the same declaration;
/// `started_at_candidate` says whether the timeline starts at this candidate and
/// `terminal_commit` whether this candidate commits its terminal sample.
pub open spec fn spec_explicit_trace_lifecycle(
    prior: Option<ExplicitLifecycle>,
    same_declaration: bool,
    current: ExplicitLifecycle,
    started_at_candidate: bool,
    terminal_commit: bool,
) -> Seq<TraceMotionLifecycle> {
    match prior {
        Some(before) if same_declaration => match (before, current) {
            (ExplicitLifecycle::Completed, ExplicitLifecycle::Completed) => seq![
                TraceMotionLifecycle::CompletedRetained,
            ],
            (ExplicitLifecycle::HoldInitial, ExplicitLifecycle::Active { .. }) => seq![
                TraceMotionLifecycle::HoldInitialReleased,
                TraceMotionLifecycle::Restarted,
            ],
            (ExplicitLifecycle::HoldInitial, ExplicitLifecycle::Completed) => if terminal_commit {
                seq![
                    TraceMotionLifecycle::HoldInitialReleased,
                    TraceMotionLifecycle::Restarted,
                    TraceMotionLifecycle::Completed,
                ]
            } else {
                Seq::empty()
            },
            (ExplicitLifecycle::Active { .. }, ExplicitLifecycle::HoldInitial) => seq![
                TraceMotionLifecycle::HoldInitialEntered,
            ],
            (ExplicitLifecycle::Active { .. }, ExplicitLifecycle::Completed) => if terminal_commit {
                seq![TraceMotionLifecycle::Completed]
            } else {
                Seq::empty()
            },
            _ => Seq::empty(),
        },
        _ => {
            let started: Seq<TraceMotionLifecycle> = if started_at_candidate {
                seq![TraceMotionLifecycle::Started]
            } else {
                Seq::empty()
            };
            started + match current {
                ExplicitLifecycle::HoldInitial => seq![TraceMotionLifecycle::HoldInitialEntered],
                ExplicitLifecycle::Completed => if terminal_commit {
                    seq![TraceMotionLifecycle::Completed]
                } else {
                    Seq::empty()
                },
                ExplicitLifecycle::Active { .. } => Seq::empty(),
            }
        },
    }
}

/// The lifecycle transitions traced for one explicit timeline entry.
pub fn explicit_trace_lifecycle(
    prior: Option<ExplicitLifecycle>,
    same_declaration: bool,
    current: ExplicitLifecycle,
    started_at_candidate: bool,
    terminal_commit: bool,
) -> (facts: Vec<TraceMotionLifecycle>)
    ensures
        facts@ == spec_explicit_trace_lifecycle(
            prior,
            same_declaration,
            current,
            started_at_candidate,
            terminal_commit,
        ),
{
    let mut facts: Vec<TraceMotionLifecycle> = Vec::new();
    let retained = match prior {
        Some(before) => if same_declaration {
            Some(before)
        } else {
            None
        },
        None => None,
    };
    match retained {
        None => {
            if started_at_candidate {
                facts.push(TraceMotionLifecycle::Started);
            }
            match current {
                ExplicitLifecycle::HoldInitial => facts.push(TraceMotionLifecycle::HoldInitialEntered),
                ExplicitLifecycle::Completed => if terminal_commit {
                    facts.push(TraceMotionLifecycle::Completed);
                },
                ExplicitLifecycle::Active { .. } => {},
            }
        },
        Some(before) => match (before, current) {
            (ExplicitLifecycle::Completed, ExplicitLifecycle::Completed) => {
                facts.push(TraceMotionLifecycle::CompletedRetained);
            },
            (ExplicitLifecycle::HoldInitial, ExplicitLifecycle::Active { .. }) => {
                facts.push(TraceMotionLifecycle::HoldInitialReleased);
                facts.push(TraceMotionLifecycle::Restarted);
            },
            (ExplicitLifecycle::HoldInitial, ExplicitLifecycle::Completed) => if terminal_commit {
                facts.push(TraceMotionLifecycle::HoldInitialReleased);
                facts.push(TraceMotionLifecycle::Restarted);
                facts.push(TraceMotionLifecycle::Completed);
            },
            (ExplicitLifecycle::Active { .. }, ExplicitLifecycle::HoldInitial) => {
                facts.push(TraceMotionLifecycle::HoldInitialEntered);
            },
            (ExplicitLifecycle::Active { .. }, ExplicitLifecycle::Completed) => if terminal_commit {
                facts.push(TraceMotionLifecycle::Completed);
            },
            _ => {},
        },
    }
    proof {
        let expected = spec_explicit_trace_lifecycle(
            prior,
            same_declaration,
            current,
            started_at_candidate,
            terminal_commit,
        );
        assert(facts@ =~= expected);
    }
    facts
}

/// One owner's explicit timeline record: the owner, the declaration it animates, the
/// declaration's schedule, and where its lifecycle stands.
#[derive(Clone, Copy, Debug, PartialEq, Eq, Structural)]
pub struct ExplicitMotionRecord {
    pub owner: MountedNodeId,
    pub declaration: TimelineDeclaration,
    pub schedule: TimelineSchedule,
    pub lifecycle: ExplicitLifecycle,
}

} // verus!

