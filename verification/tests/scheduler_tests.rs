use runenui_runtime::ids::MountedNodeId;
use runenui_runtime::routed::WorkFamily;
use runenui_runtime::routed::RuntimeTerminalReason;
use runenui_runtime::scheduler::{
    completion_admission, completion_import_step, CompletionAdmission, CompletionFacts, CompletionImportStep,
    effect_start_step, EffectStartReport, EffectStartStep, StartNote,
    reconcile_admission, remove_pending_owner,
    completion_family, derive_subscription_diff, due_timer_order, record_subscription_duplicates,
    scheduler_observation, select_next_local_work, send_task_start_refusal, subscription_owner_kind,
    subscription_start_refusal, subscription_trace_records, timer_start_refusal,
    timer_terminal_outcome, CompletionKind, LiveSubscriptionEntry, LocalWorkEntry,
    SendSubscriptionStartOutcome, SendTaskStartErrorKind, SendTaskStartFailure, SendTaskStartOutcome,
    SubscriptionDeclaration, SubscriptionDiagnostic, SubscriptionOwnerKind, TimerEntry,
    TimerFireOutcome, TimerStartError, TimerStartOutcome, TraceTimerTerminalOutcome,
    TraceWorkStartRefusal, WorkOwner,
};

fn owner() -> WorkOwner {
    WorkOwner::Mounted(MountedNodeId { namespace: 1, slot: 1, generation: 1 })
}

fn declared(key: u64, revision: u64) -> SubscriptionDeclaration {
    SubscriptionDeclaration { key, source_type: 9, revision }
}

fn live(generation: u64, owner: WorkOwner, key: u64, revision: u64) -> LiveSubscriptionEntry {
    LiveSubscriptionEntry { generation, owner, key, source_type: 9, revision }
}

#[test]
fn subscription_diff_keeps_exact_matches_and_restarts_changes() {
    let live = vec![
        live(10, owner(), 1, 1),
        live(11, owner(), 2, 1),
        live(12, WorkOwner::Application, 2, 1),
        live(13, owner(), 3, 1),
    ];
    let declarations = vec![declared(1, 1), declared(2, 2), declared(4, 1), declared(5, 1), declared(5, 1)];
    let diff = derive_subscription_diff(&live, owner(), &declarations);
    assert_eq!(diff.invalidated, vec![11, 13]);
    assert_eq!(diff.starts, vec![1, 2]);
    assert_eq!(diff.duplicate_keys, vec![5]);
}

#[test]
fn duplicate_keys_neither_start_nor_keep_and_come_out_ascending() {
    let live = vec![live(20, owner(), 7, 1)];
    let declarations = vec![declared(9, 1), declared(7, 1), declared(9, 1), declared(7, 1), declared(3, 1)];
    let diff = derive_subscription_diff(&live, owner(), &declarations);
    assert_eq!(diff.invalidated, vec![20]);
    assert_eq!(diff.starts, vec![4]);
    assert_eq!(diff.duplicate_keys, vec![7, 9]);
}

#[test]
fn subscription_trace_records_saturate() {
    assert_eq!(subscription_trace_records(2, 3), 14);
    assert_eq!(subscription_trace_records(0, 0), 1);
    assert_eq!(subscription_trace_records(usize::MAX, 0), usize::MAX);
}

#[test]
fn duplicate_diagnostics_keep_the_newest_within_the_limit() {
    let kind = subscription_owner_kind(&owner());
    assert_eq!(kind, SubscriptionOwnerKind::Mounted);
    let mut diagnostics = vec![SubscriptionDiagnostic::DuplicateKey { owner: SubscriptionOwnerKind::Application, key: 1 }];
    record_subscription_duplicates(&mut diagnostics, kind, &vec![4, 5], 2);
    assert_eq!(
        diagnostics,
        vec![
            SubscriptionDiagnostic::DuplicateKey { owner: kind, key: 4 },
            SubscriptionDiagnostic::DuplicateKey { owner: kind, key: 5 },
        ]
    );
    record_subscription_duplicates(&mut diagnostics, kind, &vec![6], 0);
    assert_eq!(diagnostics.len(), 2);
}

#[test]
fn local_polling_picks_the_smallest_unvisited_eligible_generation() {
    let tasks = vec![
        LocalWorkEntry { generation: 8, eligible: true },
        LocalWorkEntry { generation: 3, eligible: false },
    ];
    let subscriptions = vec![LocalWorkEntry { generation: 5, eligible: true }];
    assert_eq!(select_next_local_work(&tasks, &subscriptions, &vec![]), Some((5, WorkFamily::Subscription)));
    assert_eq!(select_next_local_work(&tasks, &subscriptions, &vec![5]), Some((8, WorkFamily::LocalTask)));
    assert_eq!(select_next_local_work(&tasks, &subscriptions, &vec![5, 8]), None);
}

#[test]
fn due_timers_promote_by_deadline_then_generation() {
    let timers = vec![
        TimerEntry { deadline: 30, generation: 4, running: true, due: true },
        TimerEntry { deadline: 10, generation: 9, running: true, due: true },
        TimerEntry { deadline: 10, generation: 2, running: true, due: true },
        TimerEntry { deadline: 5, generation: 1, running: false, due: true },
        TimerEntry { deadline: 40, generation: 3, running: true, due: false },
    ];
    assert_eq!(due_timer_order(&timers), vec![(10, 2), (10, 9), (30, 4)]);
}

#[test]
fn observation_reports_pending_work_and_next_deadline() {
    let timers = vec![
        TimerEntry { deadline: 30, generation: 4, running: true, due: false },
        TimerEntry { deadline: 10, generation: 9, running: false, due: true },
        TimerEntry { deadline: 20, generation: 2, running: true, due: false },
    ];
    let observation = scheduler_observation(0, &timers, &vec![], &vec![LocalWorkEntry { generation: 1, eligible: true }], 2, true);
    assert!(!observation.completion_imports_pending);
    assert!(!observation.due_timers_pending);
    assert!(observation.local_polls_pending);
    assert!(observation.mandatory_derived_work_pending);
    assert_eq!(observation.next_deadline, Some(20));
    assert!(observation.publication_dirty);
    let idle = scheduler_observation(1, &vec![], &vec![], &vec![], 0, false);
    assert!(idle.completion_imports_pending && !idle.local_polls_pending && idle.next_deadline.is_none());
}

#[test]
fn completion_and_start_outcome_mappings() {
    assert_eq!(completion_family(CompletionKind::HostResponse), WorkFamily::HostRequest);
    assert_eq!(completion_family(CompletionKind::Subscription), WorkFamily::Subscription);
    assert_eq!(timer_terminal_outcome(TimerFireOutcome::Rescheduled), None);
    assert_eq!(
        timer_terminal_outcome(TimerFireOutcome::RepeatDeadlineOverflow),
        Some(TraceTimerTerminalOutcome::RepeatDeadlineOverflow)
    );
    assert_eq!(
        timer_start_refusal(TimerStartError::ZeroInterval),
        (TimerStartOutcome::ZeroInterval, TraceWorkStartRefusal::TimerZeroInterval)
    );
    assert_eq!(
        send_task_start_refusal(SendTaskStartErrorKind::Full),
        (SendTaskStartOutcome::Full, SendTaskStartFailure::Full, TraceWorkStartRefusal::ExecutorFull)
    );
    assert_eq!(
        subscription_start_refusal(SendSubscriptionStartOutcome::Closed),
        TraceWorkStartRefusal::SubscriptionClosed
    );
}

#[test]
fn reconciling_removes_every_pending_entry_of_the_owner() {
    let a = MountedNodeId { namespace: 1, slot: 1, generation: 1 };
    let b = MountedNodeId { namespace: 1, slot: 2, generation: 1 };
    let mut pending = vec![a, b, a, b];
    remove_pending_owner(&mut pending, &a);
    assert_eq!(pending, vec![b, b]);
}

#[test]
fn reconcile_admission_poisons_or_exhausts() {
    assert_eq!(reconcile_admission(true, 1, 2, true, true, true), Ok(()));
    assert_eq!(reconcile_admission(false, 1, 2, true, true, true), Err(RuntimeTerminalReason::Poisoned));
    assert_eq!(reconcile_admission(true, usize::MAX, 1, true, true, true), Err(RuntimeTerminalReason::Poisoned));
    assert_eq!(reconcile_admission(true, 1, 2, false, true, true), Err(RuntimeTerminalReason::Poisoned));
    assert_eq!(reconcile_admission(true, 1, 2, true, true, false), Err(RuntimeTerminalReason::TraceSequenceExhausted));
}

#[test]
fn exhausted_trace_refuses_every_effect_start() {
    assert_eq!(
        effect_start_step(false, EffectStartReport::HostRequest { marked_running: true }),
        EffectStartStep::Terminal(RuntimeTerminalReason::TraceSequenceExhausted)
    );
    assert_eq!(
        effect_start_step(true, EffectStartReport::EffectMismatch),
        EffectStartStep::Terminal(RuntimeTerminalReason::Poisoned)
    );
}

#[test]
fn accepted_host_request_is_exposed() {
    assert_eq!(
        effect_start_step(true, EffectStartReport::HostRequest { marked_running: true }),
        EffectStartStep::Accepted {
            note: StartNote::Unchanged,
            release_subscription: false,
            expose_host_request: true,
        }
    );
    assert_eq!(
        effect_start_step(true, EffectStartReport::LocalTask { marked_running: false }),
        EffectStartStep::Abandoned { release_subscription: false }
    );
}

#[test]
fn refused_timer_and_send_task_starts_are_recorded() {
    assert_eq!(
        effect_start_step(
            true,
            EffectStartReport::Timer { refused: Some(TimerStartError::DeadlineOverflow), marked_running: true }
        ),
        EffectStartStep::Refused {
            refusal: TraceWorkStartRefusal::TimerDeadlineOverflow,
            note: StartNote::Timer(TimerStartOutcome::DeadlineOverflow),
            release_subscription: false,
            failure: None,
        }
    );
    assert_eq!(
        effect_start_step(
            true,
            EffectStartReport::SendTask {
                refused: Some(SendTaskStartErrorKind::Closed),
                promoted: false,
                marked_running: false,
                has_failure_mapper: true,
                failure_output_admitted: true,
            }
        ),
        EffectStartStep::Refused {
            refusal: TraceWorkStartRefusal::ExecutorClosed,
            note: StartNote::SendTask(SendTaskStartOutcome::Closed),
            release_subscription: false,
            failure: Some(SendTaskStartFailure::Closed),
        }
    );
    assert_eq!(
        effect_start_step(
            true,
            EffectStartReport::SendTask {
                refused: None,
                promoted: false,
                marked_running: true,
                has_failure_mapper: false,
                failure_output_admitted: false,
            }
        ),
        EffectStartStep::Revoked
    );
}

#[test]
fn subscription_start_outcomes_release_or_keep_the_sink() {
    assert_eq!(
        effect_start_step(
            true,
            EffectStartReport::Subscription { outcome: None, promoted: false, marked_running: true }
        ),
        EffectStartStep::Accepted {
            note: StartNote::Unchanged,
            release_subscription: true,
            expose_host_request: false,
        }
    );
    assert_eq!(
        effect_start_step(
            true,
            EffectStartReport::Subscription {
                outcome: Some(SendSubscriptionStartOutcome::Started),
                promoted: true,
                marked_running: true,
            }
        ),
        EffectStartStep::Accepted {
            note: StartNote::Unchanged,
            release_subscription: false,
            expose_host_request: false,
        }
    );
    assert_eq!(
        effect_start_step(
            true,
            EffectStartReport::Subscription {
                outcome: Some(SendSubscriptionStartOutcome::Full),
                promoted: false,
                marked_running: false,
            }
        ),
        EffectStartStep::Refused {
            refusal: TraceWorkStartRefusal::SubscriptionFull,
            note: StartNote::Unchanged,
            release_subscription: true,
            failure: None,
        }
    );
}

#[test]
fn completions_wait_for_preflight_or_exhaust_the_trace() {
    assert_eq!(completion_admission(true, true, false), CompletionAdmission::Import);
    assert_eq!(completion_admission(true, false, true), CompletionAdmission::Stop);
    assert_eq!(completion_admission(false, false, true), CompletionAdmission::Import);
    assert_eq!(
        completion_admission(false, true, false),
        CompletionAdmission::Terminal(RuntimeTerminalReason::TraceSequenceExhausted)
    );
}

#[test]
fn stale_completions_are_rejected_and_live_ones_mapped() {
    assert_eq!(
        completion_import_step(false, CompletionFacts::HostResponse { typed: true, request_live: true, kind_matches: true }),
        CompletionImportStep::RejectStale { release_host_response: true }
    );
    assert_eq!(
        completion_import_step(false, CompletionFacts::SendTask { mapper_found: true }),
        CompletionImportStep::RejectStale { release_host_response: false }
    );
    assert_eq!(
        completion_import_step(true, CompletionFacts::HostResponse { typed: true, request_live: true, kind_matches: false }),
        CompletionImportStep::Drop { release_host_response: true }
    );
    assert_eq!(
        completion_import_step(true, CompletionFacts::HostResponse { typed: true, request_live: true, kind_matches: true }),
        CompletionImportStep::AcceptHostResponse
    );
    assert_eq!(
        completion_import_step(true, CompletionFacts::Subscription { started: true }),
        CompletionImportStep::MapSubscription
    );
    assert_eq!(
        completion_import_step(true, CompletionFacts::SendTask { mapper_found: false }),
        CompletionImportStep::Drop { release_host_response: false }
    );
}

#[test]
fn refused_send_task_maps_its_failure_only_when_the_output_is_admitted() {
    assert_eq!(
        effect_start_step(
            true,
            EffectStartReport::SendTask {
                refused: Some(SendTaskStartErrorKind::Full),
                promoted: false,
                marked_running: false,
                has_failure_mapper: true,
                failure_output_admitted: false,
            }
        ),
        EffectStartStep::Refused {
            refusal: TraceWorkStartRefusal::ExecutorFull,
            note: StartNote::SendTask(SendTaskStartOutcome::Full),
            release_subscription: false,
            failure: None,
        }
    );
}
