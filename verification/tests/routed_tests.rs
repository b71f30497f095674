use runenui_runtime::ids::MountedNodeId;
use runenui_runtime::routed::{routed_commit_plan, routed_commit_run, routed_presentation_changed, step_can_fail, RoutedCommitRun, RoutedCommitStep};
use runenui_runtime::routed::{activation_applies, edit_prepare_failure, editing_default_plan, EditPrepareError, EditingCommand, EditingDefaultPlan};
use runenui_runtime::routed::{control_changes, record_subscription_mutation, routed_invocations, EventPhase, SubscriptionMutation};
use runenui_runtime::routed::{
    admission_rejection_terminal, clipboard_default_request, clipboard_write_payload_is_bounded,
    consume_mandatory_default_command, is_focus_command, modality_for_source, ordinary_invocation_count,
    output_allowance, processing_target_rejection, routed_invalidation_steps, routed_invocation_counts,
    semantic_default_step, subscription_credit, ClipboardEditingContext, ClipboardRequest, EventSource,
    InputModality, MandatoryTracePlan, MountedCallbackPreflightError, QueueCommitError,
    RoutedFailureLineage, RoutedTransactionAdmissionPlan, RuntimeTerminalReason, SemanticCommand,
    SemanticDefaultStep, TargetRejectionRecord, TargetStatus, TraceRoutedAdmissionRejection,
    TraceRoutedIntegrityFailure, TraceSequence, TraceTargetRejection, WorkFamily, MAX_CLIPBOARD_BYTES,
};

#[test]
fn native_clipboard_writes_are_bounded_before_host_work_is_staged() {
    let within_limit = "x".repeat(MAX_CLIPBOARD_BYTES);
    let over_limit = "x".repeat(MAX_CLIPBOARD_BYTES + 1);

    assert!(clipboard_write_payload_is_bounded(&within_limit));
    assert!(!clipboard_write_payload_is_bounded(&over_limit));
}

#[test]
fn admission_plan_reserves_two_queue_slots_per_output() {
    let trace = MandatoryTracePlan { records: 9 };
    let plan = RoutedTransactionAdmissionPlan::checked(3, 4, Some(trace)).unwrap();
    assert_eq!(plan.route_invocations, 3);
    assert_eq!(plan.max_outputs, 4);
    assert_eq!(plan.queue_slots, 8);
    assert_eq!(plan.trace, trace);
    assert_eq!(
        RoutedTransactionAdmissionPlan::checked(3, usize::MAX, Some(trace)),
        Err(TraceRoutedAdmissionRejection::CheckedArithmeticOverflow)
    );
    assert_eq!(
        RoutedTransactionAdmissionPlan::checked(3, 4, None),
        Err(TraceRoutedAdmissionRejection::CheckedArithmeticOverflow)
    );
}

#[test]
fn preflight_reports_the_first_exhausted_capacity() {
    let plan = RoutedTransactionAdmissionPlan::checked(1, 2, Some(MandatoryTracePlan::none())).unwrap();
    let zero = RoutedTransactionAdmissionPlan::checked(1, 0, Some(MandatoryTracePlan::none())).unwrap();
    assert_eq!(zero.preflight(true, Ok(()), Ok(())), Err(TraceRoutedAdmissionRejection::TransactionOutputs));
    assert_eq!(
        plan.preflight(false, Err(QueueCommitError::Full), Ok(())),
        Err(TraceRoutedAdmissionRejection::ReconciliationGenerationExhausted)
    );
    assert_eq!(plan.preflight(true, Err(QueueCommitError::Full), Ok(())), Err(TraceRoutedAdmissionRejection::WaitingEnvelopes));
    assert_eq!(
        plan.preflight(true, Err(QueueCommitError::SequenceExhausted), Ok(())),
        Err(TraceRoutedAdmissionRejection::WorkSequenceExhausted)
    );
    assert_eq!(
        plan.preflight(true, Ok(()), Err(MountedCallbackPreflightError::FamilyFull(WorkFamily::LocalTask))),
        Err(TraceRoutedAdmissionRejection::LocalTasks)
    );
    assert_eq!(
        plan.preflight(true, Ok(()), Err(MountedCallbackPreflightError::FamilyFull(WorkFamily::SendTask))),
        Err(TraceRoutedAdmissionRejection::SendTasks)
    );
    assert_eq!(
        plan.preflight(true, Ok(()), Err(MountedCallbackPreflightError::FamilyFull(WorkFamily::Timer))),
        Err(TraceRoutedAdmissionRejection::Timers)
    );
    assert_eq!(
        plan.preflight(true, Ok(()), Err(MountedCallbackPreflightError::GenerationExhausted)),
        Err(TraceRoutedAdmissionRejection::WorkGenerationExhausted)
    );
    assert_eq!(plan.preflight(true, Ok(()), Ok(())), Ok(()));
}

#[test]
fn ordinary_route_visits_each_node_twice_sharing_the_target() {
    assert_eq!(ordinary_invocation_count(false, 5), Some(0));
    assert_eq!(ordinary_invocation_count(true, 3), Some(5));
    assert_eq!(ordinary_invocation_count(true, 1), Some(1));
    assert_eq!(ordinary_invocation_count(true, 0), None);
    assert_eq!(ordinary_invocation_count(true, usize::MAX), None);
    assert_eq!(routed_invocation_counts(true, 3, 2, 4), Ok((7, 11)));
    assert_eq!(routed_invocation_counts(false, 0, 2, 1), Ok((2, 3)));
    assert_eq!(
        routed_invocation_counts(true, 0, 2, 1),
        Err(TraceRoutedAdmissionRejection::CheckedArithmeticOverflow)
    );
    assert_eq!(
        routed_invocation_counts(false, 0, usize::MAX, 1),
        Err(TraceRoutedAdmissionRejection::CheckedArithmeticOverflow)
    );
}

#[test]
fn exhausted_counters_end_the_runtime_and_full_capacities_only_refuse() {
    assert_eq!(
        admission_rejection_terminal(TraceRoutedAdmissionRejection::CheckedArithmeticOverflow),
        Some(RuntimeTerminalReason::Poisoned)
    );
    assert_eq!(
        admission_rejection_terminal(TraceRoutedAdmissionRejection::TraceSequenceExhausted),
        Some(RuntimeTerminalReason::TraceSequenceExhausted)
    );
    assert_eq!(admission_rejection_terminal(TraceRoutedAdmissionRejection::Timers), None);
    assert_eq!(admission_rejection_terminal(TraceRoutedAdmissionRejection::WaitingEnvelopes), None);
}

#[test]
fn stale_automation_targets_are_recorded_as_stale_after_resolution() {
    assert_eq!(processing_target_rejection(TargetStatus::Live, EventSource::Pointer), None);
    assert_eq!(
        processing_target_rejection(TargetStatus::Stale, EventSource::Automation),
        Some(TargetRejectionRecord::AutomationTargetStaleAfterResolution)
    );
    assert_eq!(
        processing_target_rejection(TargetStatus::Stale, EventSource::Keyboard),
        Some(TargetRejectionRecord::CommandProcessingRejected { outcome: TraceTargetRejection::Stale })
    );
    assert_eq!(
        processing_target_rejection(TargetStatus::Missing, EventSource::Automation),
        Some(TargetRejectionRecord::CommandProcessingRejected { outcome: TraceTargetRejection::Missing })
    );
}

#[test]
fn failure_lineage_keeps_its_causal_parent() {
    let parent = Some(TraceSequence { value: 12 });
    assert_eq!(RoutedFailureLineage::new(parent).causal_parent(), parent);
    assert_eq!(RoutedFailureLineage::new(None).causal_parent(), None);
}

#[test]
fn dirtied_subscriptions_grant_one_output_credit() {
    let owner = MountedNodeId { namespace: 1, slot: 3, generation: 1 };
    let other = MountedNodeId { namespace: 1, slot: 4, generation: 1 };
    let dirty = vec![owner];
    assert_eq!(subscription_credit(&dirty, &owner), 1);
    assert_eq!(subscription_credit(&dirty, &other), 0);
    assert_eq!(output_allowance(5, &dirty, &owner), 6);
    assert_eq!(output_allowance(5, &dirty, &other), 5);
}

#[test]
fn mandatory_default_commands_are_spent_once() {
    let mut remaining = 1usize;
    assert_eq!(consume_mandatory_default_command(&mut remaining), Ok(()));
    assert_eq!(remaining, 0);
    assert_eq!(
        consume_mandatory_default_command(&mut remaining),
        Err(TraceRoutedIntegrityFailure::OutputAllowanceExceeded)
    );
    assert_eq!(remaining, 0);
}

#[test]
fn focus_commands_and_modalities() {
    assert!(is_focus_command(SemanticCommand::FocusNext));
    assert!(is_focus_command(SemanticCommand::RestoreFocus));
    assert!(!is_focus_command(SemanticCommand::Activate));
    assert_eq!(modality_for_source(EventSource::Pointer), InputModality::Pointer);
    assert_eq!(modality_for_source(EventSource::Automation), InputModality::Automation);
    assert_eq!(modality_for_source(EventSource::Host), InputModality::Programmatic);
}

fn editing(text: &str) -> ClipboardEditingContext {
    ClipboardEditingContext {
        public: true,
        selection_collapsed: false,
        selected_text: text.to_owned(),
        read_only: false,
        disabled: false,
    }
}

#[test]
fn clipboard_defaults_require_focus_and_a_public_bounded_selection() {
    let context = editing("hello");
    assert_eq!(clipboard_default_request(SemanticCommand::Copy, true, Some(&context), true, &mut 1), Some(ClipboardRequest::WriteCopy));
    assert_eq!(clipboard_default_request(SemanticCommand::Cut, true, Some(&context), true, &mut 1), Some(ClipboardRequest::WriteCut));
    assert_eq!(
        clipboard_default_request(SemanticCommand::Paste, true, Some(&context), true, &mut 1),
        Some(ClipboardRequest::ReadText { max_bytes: MAX_CLIPBOARD_BYTES })
    );
    assert_eq!(clipboard_default_request(SemanticCommand::Copy, false, Some(&context), true, &mut 1), None);
    assert_eq!(clipboard_default_request(SemanticCommand::Copy, true, None, true, &mut 1), None);
    assert_eq!(clipboard_default_request(SemanticCommand::Copy, true, Some(&context), false, &mut 1), None);
    let secret = ClipboardEditingContext { public: false, ..editing("pw") };
    assert_eq!(clipboard_default_request(SemanticCommand::Copy, true, Some(&secret), true, &mut 1), None);
    assert_eq!(
        clipboard_default_request(SemanticCommand::Paste, true, Some(&secret), true, &mut 1),
        Some(ClipboardRequest::ReadText { max_bytes: MAX_CLIPBOARD_BYTES })
    );
    let read_only = ClipboardEditingContext { read_only: true, ..editing("x") };
    assert_eq!(clipboard_default_request(SemanticCommand::Cut, true, Some(&read_only), true, &mut 1), None);
    assert_eq!(clipboard_default_request(SemanticCommand::Copy, true, Some(&read_only), true, &mut 1), Some(ClipboardRequest::WriteCopy));
    let oversized = editing(&"y".repeat(MAX_CLIPBOARD_BYTES + 1));
    assert_eq!(clipboard_default_request(SemanticCommand::Copy, true, Some(&oversized), true, &mut 1), None);
    assert_eq!(clipboard_default_request(SemanticCommand::Activate, true, Some(&context), true, &mut 1), None);
}

#[test]
fn semantic_defaults_follow_precedence() {
    assert_eq!(semantic_default_step(true, true, SemanticCommand::Copy), SemanticDefaultStep::Suppressed);
    assert_eq!(semantic_default_step(false, true, SemanticCommand::Copy), SemanticDefaultStep::TargetInvalidated);
    assert_eq!(semantic_default_step(false, false, SemanticCommand::Paste), SemanticDefaultStep::Clipboard);
    assert_eq!(semantic_default_step(false, false, SemanticCommand::LogicalScroll), SemanticDefaultStep::LogicalScroll);
    assert_eq!(semantic_default_step(false, false, SemanticCommand::Edit), SemanticDefaultStep::Editing);
    assert_eq!(semantic_default_step(false, false, SemanticCommand::Activate), SemanticDefaultStep::Activation);
    assert_eq!(semantic_default_step(false, false, SemanticCommand::FocusUp), SemanticDefaultStep::Focus);
}

#[test]
fn focus_changes_redraw_and_cancel_stale_services() {
    let steps = routed_invalidation_steps(false, true, false, false);
    assert!(steps.mark_semantic_product_dirty && steps.request_redraw && steps.cancel_stale_framework_services);
    assert!(!steps.finish_focus_validation);
    let quiet = routed_invalidation_steps(true, false, false, false);
    assert!(quiet.finish_focus_validation && !quiet.request_redraw);
    assert!(routed_invalidation_steps(false, false, true, false).request_redraw);
    assert!(routed_invalidation_steps(false, false, false, true).request_redraw);
}

#[test]
fn routed_invocations_capture_target_then_bubble() {
    let root = MountedNodeId { namespace: 1, slot: 0, generation: 1 };
    let middle = MountedNodeId { namespace: 1, slot: 1, generation: 1 };
    let target = MountedNodeId { namespace: 1, slot: 2, generation: 1 };
    let plan = routed_invocations(&vec![root, middle, target], target);
    assert_eq!(
        plan,
        vec![
            (EventPhase::Capture, root),
            (EventPhase::Capture, middle),
            (EventPhase::Target, target),
            (EventPhase::Bubble, middle),
            (EventPhase::Bubble, root),
        ]
    );
    assert_eq!(Some(plan.len()), ordinary_invocation_count(true, 3));
    assert_eq!(routed_invocations(&vec![target], target), vec![(EventPhase::Target, target)]);
}

#[test]
fn subscription_mutations_mark_once_or_release_credit() {
    let owner = MountedNodeId { namespace: 1, slot: 5, generation: 1 };
    let mut dirty = Vec::new();
    let mut remaining = 3usize;
    assert_eq!(record_subscription_mutation(&mut dirty, &mut remaining, owner, true, 0), SubscriptionMutation::MarkDirty);
    assert_eq!(dirty, vec![owner]);
    assert_eq!(record_subscription_mutation(&mut dirty, &mut remaining, owner, true, 1), SubscriptionMutation::Unchanged);
    assert_eq!(record_subscription_mutation(&mut dirty, &mut remaining, owner, false, 1), SubscriptionMutation::ReleaseCredit);
    assert_eq!(remaining, 2);
    assert_eq!(dirty.len(), 1);
    assert_eq!(control_changes(false, true, true, true), (true, false));
}

#[test]
fn editing_default_needs_a_focused_editing_owner() {
    assert_eq!(editing_default_plan(true, false, EditingCommand::Undo), EditingDefaultPlan::NotApplicable);
    assert_eq!(editing_default_plan(false, true, EditingCommand::Undo), EditingDefaultPlan::NotApplicable);
    assert_eq!(editing_default_plan(true, true, EditingCommand::SetSelection), EditingDefaultPlan::SetSelection);
    assert_eq!(
        editing_default_plan(true, true, EditingCommand::ReplaceSelection),
        EditingDefaultPlan::ReplaceSelection
    );
}

#[test]
fn editing_commands_spend_defaults_and_read_caret_maps_as_they_need() {
    assert_eq!(
        editing_default_plan(true, true, EditingCommand::DeleteBackward),
        EditingDefaultPlan::Command { consumes_default_command: true, needs_caret_map: true }
    );
    assert_eq!(
        editing_default_plan(true, true, EditingCommand::Redo),
        EditingDefaultPlan::Command { consumes_default_command: true, needs_caret_map: false }
    );
    assert_eq!(
        editing_default_plan(true, true, EditingCommand::ExtendUp),
        EditingDefaultPlan::Command { consumes_default_command: false, needs_caret_map: true }
    );
}

#[test]
fn exhausted_edit_capacity_breaks_the_commit() {
    assert_eq!(edit_prepare_failure(EditPrepareError::Unavailable), Ok(()));
    assert_eq!(
        edit_prepare_failure(EditPrepareError::RequestExhausted),
        Err(TraceRoutedIntegrityFailure::CommitInvariantFailure)
    );
}

#[test]
fn activation_needs_an_enabled_and_actionable_primary_target() {
    assert!(activation_applies(true, true, None));
    assert!(!activation_applies(true, false, None));
    assert!(!activation_applies(true, false, Some(true)));
    assert!(activation_applies(true, false, Some(false)));
    assert!(!activation_applies(false, true, Some(false)));
}

#[test]
fn clipboard_default_spends_one_default_command_and_needs_one_left() {
    let context = editing("hello");
    let mut remaining: usize = 2;
    assert_eq!(
        clipboard_default_request(SemanticCommand::Copy, true, Some(&context), true, &mut remaining),
        Some(ClipboardRequest::WriteCopy)
    );
    assert_eq!(remaining, 1);
    assert_eq!(clipboard_default_request(SemanticCommand::Copy, false, Some(&context), true, &mut remaining), None);
    assert_eq!(remaining, 1);
    let mut none_left: usize = 0;
    assert_eq!(clipboard_default_request(SemanticCommand::Paste, true, Some(&context), true, &mut none_left), None);
    assert_eq!(none_left, 0);
}

#[test]
fn routed_commit_refuses_application_outputs() {
    assert_eq!(routed_commit_plan(true, false, 0, false, false, 0, false), None);
    assert_eq!(routed_commit_plan(false, true, 0, false, false, 0, false), None);
}

#[test]
fn routed_commit_orders_outputs_before_records() {
    let steps = routed_commit_plan(false, false, 2, true, false, 1, true).expect("routed commit is planned");
    assert_eq!(
        steps,
        vec![
            RoutedCommitStep::CommitApplicationStarts,
            RoutedCommitStep::QueueSubscriptionReconcile,
            RoutedCommitStep::QueueSubscriptionReconcile,
            RoutedCommitStep::AppendNotificationOutputs,
            RoutedCommitStep::AppendRoutedOutputs,
            RoutedCommitStep::AppendDefaultOutputs,
            RoutedCommitStep::AppendCancellations,
            RoutedCommitStep::AppendMountedOutputs,
            RoutedCommitStep::ApplyPointerSelection,
            RoutedCommitStep::CommitScrollOffsets,
            RoutedCommitStep::RecordScrollConsumption,
            RoutedCommitStep::RecordScrollChainCompleted,
            RoutedCommitStep::RecordCommitted,
            RoutedCommitStep::FinishInvalidation,
        ]
    );
}

#[test]
fn any_changed_scroll_offset_changes_the_presentation() {
    assert!(!routed_presentation_changed(false, &vec![false, false], false));
    assert!(routed_presentation_changed(false, &vec![false, true], false));
    assert!(routed_presentation_changed(true, &Vec::new(), false));
    assert!(routed_presentation_changed(false, &Vec::new(), true));
}

#[test]
fn routed_commit_stops_at_its_first_failing_step() {
    let steps = routed_commit_plan(false, false, 1, true, false, 0, false).expect("routed commit is planned");
    let all_ok = vec![true; steps.len()];
    assert_eq!(routed_commit_run(&steps, &all_ok), RoutedCommitRun { executed: steps.len(), committed: true });
    let mut outcomes = all_ok.clone();
    outcomes[3] = false;
    assert_eq!(steps[3], RoutedCommitStep::AppendRoutedOutputs);
    assert_eq!(routed_commit_run(&steps, &outcomes), RoutedCommitRun { executed: 4, committed: false });
    let mut infallible = all_ok.clone();
    infallible[0] = false;
    assert!(!step_can_fail(RoutedCommitStep::CommitApplicationStarts));
    assert_eq!(routed_commit_run(&steps, &infallible), RoutedCommitRun { executed: steps.len(), committed: true });
}
