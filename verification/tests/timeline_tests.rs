use runenui_runtime::ids::MountedNodeId;
use runenui_runtime::timeline::{
    ExplicitMotionRecord,
    explicit_trace_lifecycle, ExplicitLifecycle, SampledKeyframe, TraceMotionLifecycle,
    check_timeline_schedule, check_transition_schedule, motion_preference_mode, nanos,
    note_live_activity, sample_explicit, trace_preference_decision, validate_owner_declarations,
    ExplicitPhase, LivePhase, MotionActivity, MotionPlanningError, MotionPreferenceMode, MotionRepeat,
    ReducedMotionStrategy, TimelineDeclaration, TimelineSchedule, TraceMotionPreferenceDecision,
};

const OPACITY: u64 = 1;

fn once(duration: u64) -> TimelineSchedule {
    TimelineSchedule { delay_nanos: 0, duration_nanos: duration, repeat: MotionRepeat::Finite(1) }
}

#[test]
fn duplicate_declarations_reject_without_order_arbitration() {
    let first = TimelineDeclaration { id: 100, target: OPACITY };
    assert_eq!(validate_owner_declarations(&vec![first, first]), Err(MotionPlanningError::DuplicateAnimationId));
    let second = TimelineDeclaration { id: 200, target: OPACITY };
    assert_eq!(
        validate_owner_declarations(&vec![first, second]),
        Err(MotionPlanningError::DuplicateTarget(OPACITY))
    );
    assert_eq!(validate_owner_declarations(&vec![first, TimelineDeclaration { id: 200, target: 2 }]), Ok(()));
}

#[test]
fn exact_final_boundary_commits_terminal_sample() {
    let sample = sample_explicit(once(100), 10, 110).expect("valid sample is representable");
    assert_eq!(sample.phase.keyframe(), SampledKeyframe::Terminal);
    assert_eq!(sample.phase.progress_ratio(), (1, 1));
    assert_eq!(sample.phase, ExplicitPhase::Completed);
    assert_eq!(sample.terminal_deadline, Some(110));
}

#[test]
fn sampling_moves_from_delay_through_running_to_completion() {
    let schedule = TimelineSchedule { delay_nanos: 50, duration_nanos: 100, repeat: MotionRepeat::Finite(2) };
    assert_eq!(sample_explicit(schedule, 0, 10).unwrap().phase, ExplicitPhase::Delayed { deadline: 50 });
    assert_eq!(
        sample_explicit(schedule, 0, 175).unwrap().phase,
        ExplicitPhase::Running { iteration_nanos: 25, duration_nanos: 100 }
    );
    assert_eq!(sample_explicit(schedule, 0, 250).unwrap().phase, ExplicitPhase::Completed);
    let forever = TimelineSchedule { delay_nanos: 0, duration_nanos: 100, repeat: MotionRepeat::Forever };
    let sample = sample_explicit(forever, 0, 1_234).unwrap();
    assert_eq!(sample.phase, ExplicitPhase::Running { iteration_nanos: 34, duration_nanos: 100 });
    assert_eq!(sample.terminal_deadline, None);
    assert_eq!(sample_explicit(once(0), 0, 0).unwrap().phase, ExplicitPhase::Completed);
    assert_eq!(sample_explicit(once(10), u64::MAX, u64::MAX), Err(MotionPlanningError::ScheduleOverflow));
}

#[test]
fn schedules_must_end_at_representable_instants() {
    assert_eq!(check_timeline_schedule(once(10), 5), Ok(()));
    assert_eq!(check_timeline_schedule(once(10), u64::MAX - 5), Err(MotionPlanningError::ScheduleOverflow));
    let forever = TimelineSchedule { delay_nanos: 3, duration_nanos: 10, repeat: MotionRepeat::Forever };
    assert_eq!(check_timeline_schedule(forever, u64::MAX - 3), Ok(()));
    assert_eq!(check_transition_schedule(2, 3, u64::MAX - 5), Ok(()));
    assert_eq!(check_transition_schedule(2, 3, u64::MAX - 4), Err(MotionPlanningError::ScheduleOverflow));
    assert_eq!(nanos(1_500), 1_500);
}

#[test]
fn activity_keeps_the_earliest_deadline() {
    let mut activity = MotionActivity::idle();
    note_live_activity(LivePhase::Delayed { deadline: 40 }, Some(90), false, &mut activity);
    note_live_activity(LivePhase::Delayed { deadline: 30 }, None, false, &mut activity);
    assert_eq!(activity.next_deadline(), Some(30));
    assert!(!activity.continuous_redraw());
    note_live_activity(LivePhase::Running, Some(20), true, &mut activity);
    assert_eq!(activity.next_deadline(), Some(20));
    assert!(!activity.continuous_redraw());
    note_live_activity(LivePhase::Running, None, false, &mut activity);
    assert!(activity.continuous_redraw());
    note_live_activity(LivePhase::Completed, Some(1), false, &mut activity);
    assert_eq!(activity.next_deadline(), Some(20));
    assert!(!activity.followup_publication());
}

#[test]
fn reduced_motion_preferences_choose_the_declared_strategy() {
    assert_eq!(motion_preference_mode(false, ReducedMotionStrategy::SnapToEnd), MotionPreferenceMode::Normal);
    assert_eq!(motion_preference_mode(true, ReducedMotionStrategy::HoldInitial), MotionPreferenceMode::HoldInitial);
    assert_eq!(trace_preference_decision(MotionPreferenceMode::SnapToEnd), TraceMotionPreferenceDecision::SnapToEnd);
}

#[test]
fn delayed_and_running_samples_report_their_progress() {
    let schedule = TimelineSchedule { delay_nanos: 50, duration_nanos: 100, repeat: MotionRepeat::Finite(2) };
    let delayed = sample_explicit(schedule, 0, 10).unwrap().phase;
    assert_eq!(delayed.progress_ratio(), (0, 1));
    assert_eq!(delayed.keyframe(), SampledKeyframe::Initial);
    let running = sample_explicit(schedule, 0, 175).unwrap().phase;
    assert_eq!(running.progress_ratio(), (25, 100));
    assert_eq!(running.keyframe(), SampledKeyframe::Interpolated);
}

#[test]
fn new_timelines_trace_their_start_and_entry() {
    assert_eq!(
        explicit_trace_lifecycle(None, false, ExplicitLifecycle::HoldInitial, true, false),
        vec![TraceMotionLifecycle::Started, TraceMotionLifecycle::HoldInitialEntered]
    );
    assert_eq!(
        explicit_trace_lifecycle(Some(ExplicitLifecycle::Active { start: 0 }), false, ExplicitLifecycle::Completed, false, true),
        vec![TraceMotionLifecycle::Completed]
    );
    assert_eq!(explicit_trace_lifecycle(None, false, ExplicitLifecycle::Active { start: 0 }, false, false), Vec::new());
}

#[test]
fn retained_timelines_trace_their_transitions() {
    assert_eq!(
        explicit_trace_lifecycle(Some(ExplicitLifecycle::HoldInitial), true, ExplicitLifecycle::Completed, true, true),
        vec![
            TraceMotionLifecycle::HoldInitialReleased,
            TraceMotionLifecycle::Restarted,
            TraceMotionLifecycle::Completed,
        ]
    );
    assert_eq!(
        explicit_trace_lifecycle(Some(ExplicitLifecycle::Completed), true, ExplicitLifecycle::Completed, false, false),
        vec![TraceMotionLifecycle::CompletedRetained]
    );
    assert_eq!(
        explicit_trace_lifecycle(Some(ExplicitLifecycle::Active { start: 0 }), true, ExplicitLifecycle::Completed, false, false),
        Vec::new()
    );
    assert_eq!(
        explicit_trace_lifecycle(Some(ExplicitLifecycle::Active { start: 0 }), true, ExplicitLifecycle::HoldInitial, false, false),
        vec![TraceMotionLifecycle::HoldInitialEntered]
    );
}

#[test]
fn completed_record_owns_no_future_sample_authority() {
    let record = ExplicitMotionRecord {
        owner: MountedNodeId { namespace: 1, slot: 0, generation: 1 },
        declaration: TimelineDeclaration { id: 100, target: OPACITY },
        schedule: once(100),
        lifecycle: ExplicitLifecycle::Completed,
    };
    assert!(matches!(record.lifecycle, ExplicitLifecycle::Completed));
}
