//! Admission, accounting, and default decisions of routed event transactions.

use vstd::prelude::*;
use vstd::string::StringSliceAdditionalSpecFns;
use vstd::utf8::encode_utf8;

use crate::ids::MountedNodeId;

verus! {

/// Position of one record in the runtime trace.
#[derive(Clone, Copy, Debug, PartialEq, Eq, Hash, Structural)]
pub struct TraceSequence {
    pub value: u64,
}

/// Why the runtime stopped accepting work for good.
#[derive(Clone, Copy, Debug, PartialEq, Eq, Structural)]
pub enum RuntimeTerminalReason {
    WorkSequenceExhausted,
    WorkGenerationExhausted,
    ReconciliationGenerationExhausted,
    TraceSequenceExhausted,
    Poisoned,
}

/// Capacity that refused a routed event before any callback ran.
#[derive(Clone, Copy, Debug, PartialEq, Eq, Structural)]
pub enum TraceRoutedAdmissionRejection {
    TransactionOutputs,
    WaitingEnvelopes,
    LocalTasks,
    SendTasks,
    Timers,
    WorkSequenceExhausted,
    WorkGenerationExhausted,
    ReconciliationGenerationExhausted,
    TraceSequenceExhausted,
    CheckedArithmeticOverflow,
}

/// Integrity failure that poisons a routed transaction.
#[derive(Clone, Copy, Debug, PartialEq, Eq, Structural)]
pub enum TraceRoutedIntegrityFailure {
    OutputAllowanceExceeded,
    BrokenTopology,
    EventBridgeMismatch,
    CommitInvariantFailure,
    SemanticDefaultFailure,
}

/// Liveness of a mounted target.
#[derive(Clone, Copy, Debug, PartialEq, Eq, Structural)]
pub enum TargetStatus {
    Live,
    Foreign,
    Stale,
    Missing,
}

/// Why a command could not be processed at its target.
#[derive(Clone, Copy, Debug, PartialEq, Eq, Structural)]
pub enum TraceTargetRejection {
    Foreign,
    Stale,
    Missing,
}

/// Trace record kind of a target rejection during processing.
#[derive(Clone, Copy, Debug, PartialEq, Eq, Structural)]
pub enum TargetRejectionRecord {
    /// An automation target went stale after it was resolved.
    AutomationTargetStaleAfterResolution,
    /// The command was refused at its target.
    CommandProcessingRejected { outcome: TraceTargetRejection },
}

/// Source device or agent of an input event.
#[derive(Clone, Copy, Debug, PartialEq, Eq, Structural)]
pub enum EventSource {
    Pointer,
    Keyboard,
    Controller,
    Accessibility,
    Automation,
    Host,
    Programmatic,
}

/// Input modality that an event establishes.
#[derive(Clone, Copy, Debug, PartialEq, Eq, Structural)]
pub enum InputModality {
    Pointer,
    Keyboard,
    Controller,
    Accessibility,
    Automation,
    Programmatic,
}

/// Semantic command routed to a target, by the default it selects.
#[derive(Clone, Copy, Debug, PartialEq, Eq, Structural)]
pub enum SemanticCommand {
    Activate,
    Copy,
    Cut,
    Paste,
    LogicalScroll,
    LogicalFocusScroll,
    ScrollIntoView,
    FocusNext,
    FocusPrevious,
    FocusLeft,
    FocusRight,
    FocusUp,
    FocusDown,
    RequestFocus,
    RestoreFocus,
    /// A text editing command.
    Edit,
    /// Any other command.
    Other,
}

/// Failure of a waiting-queue commit preflight.
#[derive(Clone, Copy, Debug, PartialEq, Eq, Structural)]
pub enum QueueCommitError {
    Full,
    SequenceExhausted,
}

/// Family of runtime-owned work.
#[derive(Clone, Copy, Debug, PartialEq, Eq, Structural)]
pub enum WorkFamily {
    LocalTask,
    SendTask,
    Timer,
    Subscription,
    HostRequest,
}

/// Failure of a mounted-callback work preflight.
#[derive(Clone, Copy, Debug, PartialEq, Eq, Structural)]
pub enum MountedCallbackPreflightError {
    FamilyFull(WorkFamily),
    GenerationExhausted,
}

/// Mandatory trace records reserved by one admission.
#[derive(Clone, Copy, Debug, PartialEq, Eq, Structural)]
pub struct MandatoryTracePlan {
    pub records: u64,
}

impl MandatoryTracePlan {
    /// A plan that reserves nothing.
    pub fn none() -> (plan: MandatoryTracePlan)
        ensures
            plan.records == 0,
    {
        MandatoryTracePlan { records: 0 }
    }

    /// Both plans together, refusing an overflowing total.
    pub fn checked_add(self, other: MandatoryTracePlan) -> (plan: Option<MandatoryTracePlan>)
        ensures
            match plan {
                Some(p) => self.records + other.records <= u64::MAX && p.records == self.records
                    + other.records,
                None => self.records + other.records > u64::MAX,
            },
    {
        match self.records.checked_add(other.records) {
            Some(records) => Some(MandatoryTracePlan { records }),
            None => None,
        }
    }
}

/// Checked capacities of one routed transaction.
#[derive(Clone, Copy, Debug, PartialEq, Eq, Structural)]
pub struct RoutedTransactionAdmissionPlan {
    pub route_invocations: usize,
    pub max_outputs: usize,
    pub queue_slots: usize,
    pub trace: MandatoryTracePlan,
}

impl RoutedTransactionAdmissionPlan {
    /// Checks the capacities of a transaction of `route_invocations` callbacks with at most
    /// `max_outputs` outputs: each output may take two queue slots, and the routed-event
    /// trace plan (absent when its own arithmetic overflowed) must exist.
    pub fn checked(
        route_invocations: usize,
        max_outputs: usize,
        routed_event_trace: Option<MandatoryTracePlan>,
    ) -> (plan: Result<RoutedTransactionAdmissionPlan, TraceRoutedAdmissionRejection>)
        ensures
            if max_outputs * 2 > usize::MAX || routed_event_trace is None {
                plan == Err::<RoutedTransactionAdmissionPlan, TraceRoutedAdmissionRejection>(
                    TraceRoutedAdmissionRejection::CheckedArithmeticOverflow,
                )
            } else {
                plan == Ok::<RoutedTransactionAdmissionPlan, TraceRoutedAdmissionRejection>(
                    RoutedTransactionAdmissionPlan {
                        route_invocations,
                        max_outputs,
                        queue_slots: (max_outputs * 2) as usize,
                        trace: routed_event_trace->0,
                    },
                )
            },
    {
        let queue_slots = match max_outputs.checked_mul(2) {
            Some(slots) => slots,
            None => {
                return Err(TraceRoutedAdmissionRejection::CheckedArithmeticOverflow);
            },
        };
        let trace = match routed_event_trace {
            Some(trace) => trace,
            None => {
                return Err(TraceRoutedAdmissionRejection::CheckedArithmeticOverflow);
            },
        };
        Ok(RoutedTransactionAdmissionPlan { route_invocations, max_outputs, queue_slots, trace })
    }

    /// Checks the runtime's capacities for this plan, in order: outputs allowed at all, a
    /// reconciliation generation left, room in the waiting queue, then room for the
    /// mounted callbacks' work.
    pub fn preflight(
        &self,
        next_generation_available: bool,
        queue: Result<(), QueueCommitError>,
        work: Result<(), MountedCallbackPreflightError>,
    ) -> (result: Result<(), TraceRoutedAdmissionRejection>)
        requires
            !(work matches Err(MountedCallbackPreflightError::FamilyFull(f)) && (f
                == WorkFamily::Subscription || f == WorkFamily::HostRequest)),
        ensures
            result == if self.max_outputs == 0 {
                Err::<(), TraceRoutedAdmissionRejection>(TraceRoutedAdmissionRejection::TransactionOutputs)
            } else if !next_generation_available {
                Err(TraceRoutedAdmissionRejection::ReconciliationGenerationExhausted)
            } else if queue == Err::<(), QueueCommitError>(QueueCommitError::Full) {
                Err(TraceRoutedAdmissionRejection::WaitingEnvelopes)
            } else if queue == Err::<(), QueueCommitError>(QueueCommitError::SequenceExhausted) {
                Err(TraceRoutedAdmissionRejection::WorkSequenceExhausted)
            } else {
                match work {
                    Ok(()) => Ok(()),
                    Err(MountedCallbackPreflightError::FamilyFull(WorkFamily::LocalTask)) => Err(
                        TraceRoutedAdmissionRejection::LocalTasks,
                    ),
                    Err(MountedCallbackPreflightError::FamilyFull(WorkFamily::SendTask)) => Err(
                        TraceRoutedAdmissionRejection::SendTasks,
                    ),
                    Err(MountedCallbackPreflightError::GenerationExhausted) => Err(
                        TraceRoutedAdmissionRejection::WorkGenerationExhausted,
                    ),
                    Err(_) => Err(TraceRoutedAdmissionRejection::Timers),
                }
            },
    {
        if self.max_outputs == 0 {
            return Err(TraceRoutedAdmissionRejection::TransactionOutputs);
        }
        if !next_generation_available {
            return Err(TraceRoutedAdmissionRejection::ReconciliationGenerationExhausted);
        }
        match queue {
            Err(QueueCommitError::Full) => {
                return Err(TraceRoutedAdmissionRejection::WaitingEnvelopes);
            },
            Err(QueueCommitError::SequenceExhausted) => {
                return Err(TraceRoutedAdmissionRejection::WorkSequenceExhausted);
            },
            Ok(()) => {},
        }
        match work {
            Ok(()) => Ok(()),
            Err(MountedCallbackPreflightError::FamilyFull(WorkFamily::LocalTask)) => Err(
                TraceRoutedAdmissionRejection::LocalTasks,
            ),
            Err(MountedCallbackPreflightError::FamilyFull(WorkFamily::SendTask)) => Err(
                TraceRoutedAdmissionRejection::SendTasks,
            ),
            Err(MountedCallbackPreflightError::FamilyFull(_)) => Err(
                TraceRoutedAdmissionRejection::Timers,
            ),
            Err(MountedCallbackPreflightError::GenerationExhausted) => Err(
                TraceRoutedAdmissionRejection::WorkGenerationExhausted,
            ),
        }
    }
}

/// Callback invocations of the ordinary route of `route_len` nodes: a capture and a
/// bubble visit per node, sharing the target's visit. `None` when the count cannot be
/// formed (an empty route, or overflow).
pub fn ordinary_invocation_count(include_ordinary_route: bool, route_len: usize) -> (count: Option<usize>)
    ensures
        if !include_ordinary_route {
            count == Some(0usize)
        } else if route_len * 2 > usize::MAX || route_len == 0 {
            count is None
        } else {
            count == Some((route_len * 2 - 1) as usize)
        },
{
    if !include_ordinary_route {
        return Some(0);
    }
    match route_len.checked_mul(2) {
        Some(doubled) => doubled.checked_sub(1),
        None => None,
    }
}

/// Invocations of the route and of target-only callbacks, and those plus deferred ones.
pub fn routed_invocation_counts(
    include_ordinary_route: bool,
    route_len: usize,
    target_only: usize,
    deferred_invocations: usize,
) -> (counts: Result<(usize, usize), TraceRoutedAdmissionRejection>)
    ensures
        match (if !include_ordinary_route {
            Some(0int)
        } else if route_len == 0 {
            None
        } else {
            Some(route_len * 2 - 1)
        }) {
            Some(ordinary) => if ordinary + target_only > usize::MAX || ordinary + target_only
                + deferred_invocations > usize::MAX || (include_ordinary_route && route_len * 2
                > usize::MAX) {
                counts == Err::<(usize, usize), TraceRoutedAdmissionRejection>(
                    TraceRoutedAdmissionRejection::CheckedArithmeticOverflow,
                )
            } else {
                counts == Ok::<(usize, usize), TraceRoutedAdmissionRejection>(
                    (
                        (ordinary + target_only) as usize,
                        (ordinary + target_only + deferred_invocations) as usize,
                    ),
                )
            },
            None => counts == Err::<(usize, usize), TraceRoutedAdmissionRejection>(
                TraceRoutedAdmissionRejection::CheckedArithmeticOverflow,
            ),
        },
{
    let ordinary = match ordinary_invocation_count(include_ordinary_route, route_len) {
        Some(count) => count,
        None => {
            return Err(TraceRoutedAdmissionRejection::CheckedArithmeticOverflow);
        },
    };
    let route_invocations = match ordinary.checked_add(target_only) {
        Some(count) => count,
        None => {
            return Err(TraceRoutedAdmissionRejection::CheckedArithmeticOverflow);
        },
    };
    match route_invocations.checked_add(deferred_invocations) {
        Some(admitted) => Ok((route_invocations, admitted)),
        None => Err(TraceRoutedAdmissionRejection::CheckedArithmeticOverflow),
    }
}

/// The terminal state that an admission rejection forces, if any: exhausted sequences
/// and generations end the runtime, checked arithmetic overflow poisons it, and a full
/// capacity only refuses the event.
pub fn admission_rejection_terminal(capacity: TraceRoutedAdmissionRejection) -> (terminal: Option<
    RuntimeTerminalReason,
>)
    ensures
        terminal == match capacity {
            TraceRoutedAdmissionRejection::WorkSequenceExhausted => Some(
                RuntimeTerminalReason::WorkSequenceExhausted,
            ),
            TraceRoutedAdmissionRejection::WorkGenerationExhausted => Some(
                RuntimeTerminalReason::WorkGenerationExhausted,
            ),
            TraceRoutedAdmissionRejection::ReconciliationGenerationExhausted => Some(
                RuntimeTerminalReason::ReconciliationGenerationExhausted,
            ),
            TraceRoutedAdmissionRejection::TraceSequenceExhausted => Some(
                RuntimeTerminalReason::TraceSequenceExhausted,
            ),
            TraceRoutedAdmissionRejection::CheckedArithmeticOverflow => Some(
                RuntimeTerminalReason::Poisoned,
            ),
            _ => None::<RuntimeTerminalReason>,
        },
{
    match capacity {
        TraceRoutedAdmissionRejection::WorkSequenceExhausted => Some(
            RuntimeTerminalReason::WorkSequenceExhausted,
        ),
        TraceRoutedAdmissionRejection::WorkGenerationExhausted => Some(
            RuntimeTerminalReason::WorkGenerationExhausted,
        ),
        TraceRoutedAdmissionRejection::ReconciliationGenerationExhausted => Some(
            RuntimeTerminalReason::ReconciliationGenerationExhausted,
        ),
        TraceRoutedAdmissionRejection::TraceSequenceExhausted => Some(
            RuntimeTerminalReason::TraceSequenceExhausted,
        ),
        TraceRoutedAdmissionRejection::CheckedArithmeticOverflow => Some(
            RuntimeTerminalReason::Poisoned,
        ),
        TraceRoutedAdmissionRejection::TransactionOutputs
        | TraceRoutedAdmissionRejection::WaitingEnvelopes
        | TraceRoutedAdmissionRejection::LocalTasks
        | TraceRoutedAdmissionRejection::SendTasks
        | TraceRoutedAdmissionRejection::Timers => None,
    }
}

/// The trace record of a target that is not live during processing, or `None` for a
/// live target. A stale automation target is recorded as stale after resolution.
pub fn processing_target_rejection(status: TargetStatus, source: EventSource) -> (record: Option<
    TargetRejectionRecord,
>)
    ensures
        record == match status {
            TargetStatus::Live => None::<TargetRejectionRecord>,
            TargetStatus::Stale => if source == EventSource::Automation {
                Some(TargetRejectionRecord::AutomationTargetStaleAfterResolution)
            } else {
                Some(
                    TargetRejectionRecord::CommandProcessingRejected {
                        outcome: TraceTargetRejection::Stale,
                    },
                )
            },
            TargetStatus::Foreign => Some(
                TargetRejectionRecord::CommandProcessingRejected {
                    outcome: TraceTargetRejection::Foreign,
                },
            ),
            TargetStatus::Missing => Some(
                TargetRejectionRecord::CommandProcessingRejected {
                    outcome: TraceTargetRejection::Missing,
                },
            ),
        },
{
    let outcome = match status {
        TargetStatus::Foreign => TraceTargetRejection::Foreign,
        TargetStatus::Stale => TraceTargetRejection::Stale,
        TargetStatus::Missing => TraceTargetRejection::Missing,
        TargetStatus::Live => {
            return None;
        },
    };
    if outcome == TraceTargetRejection::Stale && source == EventSource::Automation {
        Some(TargetRejectionRecord::AutomationTargetStaleAfterResolution)
    } else {
        Some(TargetRejectionRecord::CommandProcessingRejected { outcome })
    }
}

/// Causal lineage kept when a routed transaction could not begin.
#[derive(Clone, Copy, Debug, PartialEq, Eq, Structural)]
pub struct RoutedFailureLineage {
    causal_parent: Option<TraceSequence>,
}

impl RoutedFailureLineage {
    /// Lineage under `causal_parent`.
    pub fn new(causal_parent: Option<TraceSequence>) -> (lineage: RoutedFailureLineage)
        ensures
            lineage.spec_causal_parent() == causal_parent,
    {
        RoutedFailureLineage { causal_parent }
    }

    /// The causal parent of the failed transaction.
    pub closed spec fn spec_causal_parent(self) -> Option<TraceSequence> {
        self.causal_parent
    }

    /// The causal parent of the failed transaction.
    pub fn causal_parent(self) -> (parent: Option<TraceSequence>)
        ensures
            parent == self.spec_causal_parent(),
    {
        self.causal_parent
    }
}

/// One coalescing output credit for an owner whose subscriptions the transaction dirtied.
pub fn subscription_credit(subscription_dirty: &Vec<MountedNodeId>, owner: &MountedNodeId) -> (credit:
    usize)
    ensures
        credit == if subscription_dirty@.contains(*owner) {
            1usize
        } else {
            0usize
        },
{
    let mut k: usize = 0;
    while k < subscription_dirty.len()
        invariant
            k <= subscription_dirty@.len(),
            forall|j: int| 0 <= j < k ==> subscription_dirty@[j] != *owner,
        decreases subscription_dirty.len() - k,
    {
        if subscription_dirty[k] == *owner {
            return 1;
        }
        k = k + 1;
    }
    0
}

/// Outputs an owner may still emit: the transaction's remaining outputs plus its credit.
pub fn output_allowance(
    remaining_outputs: usize,
    subscription_dirty: &Vec<MountedNodeId>,
    owner: &MountedNodeId,
) -> (allowance: usize)
    requires
        remaining_outputs < usize::MAX || !subscription_dirty@.contains(*owner),
    ensures
        allowance == remaining_outputs + if subscription_dirty@.contains(*owner) {
            1int
        } else {
            0int
        },
{
    remaining_outputs + subscription_credit(subscription_dirty, owner)
}

/// Spends one of the transaction's mandatory default commands, refusing when none is
/// left.
pub fn consume_mandatory_default_command(remaining_default_commands: &mut usize) -> (result: Result<
    (),
    TraceRoutedIntegrityFailure,
>)
    ensures
        if *old(remaining_default_commands) == 0 {
            result == Err::<(), TraceRoutedIntegrityFailure>(
                TraceRoutedIntegrityFailure::OutputAllowanceExceeded,
            ) && *final(remaining_default_commands) == 0
        } else {
            result == Ok::<(), TraceRoutedIntegrityFailure>(()) && *final(remaining_default_commands)
                == *old(remaining_default_commands) - 1
        },
{
    match remaining_default_commands.checked_sub(1) {
        Some(remaining) => {
            *remaining_default_commands = remaining;
            Ok(())
        },
        None => Err(TraceRoutedIntegrityFailure::OutputAllowanceExceeded),
    }
}

/// Whether the command moves or restores focus.
pub fn is_focus_command(command: SemanticCommand) -> (focus: bool)
    ensures
        focus == (command == SemanticCommand::FocusNext || command == SemanticCommand::FocusPrevious
            || command == SemanticCommand::FocusLeft || command == SemanticCommand::FocusRight
            || command == SemanticCommand::FocusUp || command == SemanticCommand::FocusDown
            || command == SemanticCommand::RequestFocus || command == SemanticCommand::RestoreFocus),
{
    match command {
        SemanticCommand::FocusNext
        | SemanticCommand::FocusPrevious
        | SemanticCommand::FocusLeft
        | SemanticCommand::FocusRight
        | SemanticCommand::FocusUp
        | SemanticCommand::FocusDown
        | SemanticCommand::RequestFocus
        | SemanticCommand::RestoreFocus => true,
        _ => false,
    }
}

/// Input modality established by an event of `source`.
pub fn modality_for_source(source: EventSource) -> (modality: InputModality)
    ensures
        modality == match source {
            EventSource::Pointer => InputModality::Pointer,
            EventSource::Keyboard => InputModality::Keyboard,
            EventSource::Controller => InputModality::Controller,
            EventSource::Accessibility => InputModality::Accessibility,
            EventSource::Automation => InputModality::Automation,
            _ => InputModality::Programmatic,
        },
{
    match source {
        EventSource::Pointer => InputModality::Pointer,
        EventSource::Keyboard => InputModality::Keyboard,
        EventSource::Controller => InputModality::Controller,
        EventSource::Accessibility => InputModality::Accessibility,
        EventSource::Automation => InputModality::Automation,
        _ => InputModality::Programmatic,
    }
}

/// Largest clipboard text payload, in bytes, that a native default reads or writes.
pub const MAX_CLIPBOARD_BYTES: usize = 1_048_576;

/// Whether the UTF-8 encoding of `text` fits the native clipboard payload bound.
pub fn clipboard_write_payload_is_bounded(text: &str) -> (bounded: bool)
    requires
        text.spec_bytes().len() <= usize::MAX,
    ensures
        bounded == (text.spec_bytes().len() <= MAX_CLIPBOARD_BYTES),
{
    text.len() <= MAX_CLIPBOARD_BYTES
}

/// Clipboard host request that a native clipboard default stages.
#[derive(Clone, Copy, Debug, PartialEq, Eq, Structural)]
pub enum ClipboardRequest {
    /// Write the selected text for a copy.
    WriteCopy,
    /// Write the selected text for a cut.
    WriteCut,
    /// Read at most `max_bytes` of text for a paste.
    ReadText { max_bytes: usize },
}

/// Editing facts of the focused owner that a clipboard default reads.
#[derive(Clone, Debug)]
pub struct ClipboardEditingContext {
    /// The text is not sensitive.
    pub public: bool,
    /// The selection is empty.
    pub selection_collapsed: bool,
    /// The selected text.
    pub selected_text: String,
    /// The owner refuses edits.
    pub read_only: bool,
    /// The owner is disabled.
    pub disabled: bool,
}

/// The clipboard request that a clipboard command would stage at its target, or `None`
/// when the default is unavailable: the target is not focused, has no editing context,
/// would write sensitive, empty, or oversized text, would cut from a read-only or disabled
/// owner, no surface is displayed, or the command is no clipboard command.
pub open spec fn spec_clipboard_request(
    command: SemanticCommand,
    owner_is_focused: bool,
    context: Option<&ClipboardEditingContext>,
    has_surface_context: bool,
) -> Option<ClipboardRequest> {
    if !owner_is_focused || context is None {
        None::<ClipboardRequest>
    } else if (command == SemanticCommand::Copy || command == SemanticCommand::Cut) && (
    !context->0.public || context->0.selection_collapsed
        || encode_utf8(context->0.selected_text@).len() > MAX_CLIPBOARD_BYTES || (command
        == SemanticCommand::Cut && (context->0.read_only || context->0.disabled))) {
        None
    } else if !has_surface_context {
        None
    } else {
        match command {
            SemanticCommand::Copy => Some(ClipboardRequest::WriteCopy),
            SemanticCommand::Cut => Some(ClipboardRequest::WriteCut),
            SemanticCommand::Paste => Some(ClipboardRequest::ReadText { max_bytes: MAX_CLIPBOARD_BYTES }),
            _ => None,
        }
    }
}

/// The clipboard request that a clipboard command stages at its target. A staged request
/// spends one of the transaction's mandatory default commands; when the default is
/// unavailable (see `spec_clipboard_request`) or none is left, nothing is staged and
/// nothing is spent.
pub fn clipboard_default_request(
    command: SemanticCommand,
    owner_is_focused: bool,
    context: Option<&ClipboardEditingContext>,
    has_surface_context: bool,
    remaining_default_commands: &mut usize,
) -> (request: Option<ClipboardRequest>)
    requires
        context matches Some(c) ==> encode_utf8(c.selected_text@).len() <= usize::MAX,
    ensures
        request == if *old(remaining_default_commands) > 0 {
            spec_clipboard_request(command, owner_is_focused, context, has_surface_context)
        } else {
            None::<ClipboardRequest>
        },
        *final(remaining_default_commands) == if request is Some {
            *old(remaining_default_commands) - 1
        } else {
            *old(remaining_default_commands) as int
        },
{
    if !owner_is_focused {
        return None;
    }
    let context = match context {
        Some(context) => context,
        None => {
            return None;
        },
    };
    let is_write = command == SemanticCommand::Copy || command == SemanticCommand::Cut;
    if is_write && (!context.public || context.selection_collapsed
        || !clipboard_write_payload_is_bounded(context.selected_text.as_str()) || (command
        == SemanticCommand::Cut && (context.read_only || context.disabled))) {
        return None;
    }
    if !has_surface_context {
        return None;
    }
    let request = match command {
        SemanticCommand::Copy => ClipboardRequest::WriteCopy,
        SemanticCommand::Cut => ClipboardRequest::WriteCut,
        SemanticCommand::Paste => ClipboardRequest::ReadText { max_bytes: MAX_CLIPBOARD_BYTES },
        _ => {
            return None;
        },
    };
    match consume_mandatory_default_command(remaining_default_commands) {
        Ok(()) => Some(request),
        Err(_) => None,
    }
}

/// The default behaviour that a semantic command selects after its routed callbacks.
#[derive(Clone, Copy, Debug, PartialEq, Eq, Structural)]
pub enum SemanticDefaultStep {
    /// A callback prevented the default.
    Suppressed,
    /// The semantic target no longer names the routed target.
    TargetInvalidated,
    /// Stage a clipboard request.
    Clipboard,
    /// Scroll by a logical delta.
    LogicalScroll,
    /// Scroll to follow focus.
    LogicalFocusScroll,
    /// Reveal the target.
    ScrollIntoView,
    /// Apply a text editing default.
    Editing,
    /// Apply a focus default.
    Focus,
    /// Activate the target.
    Activation,
}

/// Selects the default of `command`, in precedence order: suppression, target
/// invalidation, clipboard, scrolling, editing, activation, and focus for the rest.
pub fn semantic_default_step(
    default_prevented: bool,
    target_rejected: bool,
    command: SemanticCommand,
) -> (step: SemanticDefaultStep)
    ensures
        step == if default_prevented {
            SemanticDefaultStep::Suppressed
        } else if target_rejected {
            SemanticDefaultStep::TargetInvalidated
        } else {
            match command {
                SemanticCommand::Copy | SemanticCommand::Cut | SemanticCommand::Paste =>
                    SemanticDefaultStep::Clipboard,
                SemanticCommand::LogicalScroll => SemanticDefaultStep::LogicalScroll,
                SemanticCommand::LogicalFocusScroll => SemanticDefaultStep::LogicalFocusScroll,
                SemanticCommand::ScrollIntoView => SemanticDefaultStep::ScrollIntoView,
                SemanticCommand::Edit => SemanticDefaultStep::Editing,
                SemanticCommand::Activate => SemanticDefaultStep::Activation,
                _ => SemanticDefaultStep::Focus,
            }
        },
{
    if default_prevented {
        return SemanticDefaultStep::Suppressed;
    }
    if target_rejected {
        return SemanticDefaultStep::TargetInvalidated;
    }
    match command {
        SemanticCommand::Copy | SemanticCommand::Cut | SemanticCommand::Paste =>
            SemanticDefaultStep::Clipboard,
        SemanticCommand::LogicalScroll => SemanticDefaultStep::LogicalScroll,
        SemanticCommand::LogicalFocusScroll => SemanticDefaultStep::LogicalFocusScroll,
        SemanticCommand::ScrollIntoView => SemanticDefaultStep::ScrollIntoView,
        SemanticCommand::Edit => SemanticDefaultStep::Editing,
        SemanticCommand::Activate => SemanticDefaultStep::Activation,
        _ => SemanticDefaultStep::Focus,
    }
}

/// Follow-up work after a routed transaction committed its invalidation.
#[derive(Clone, Copy, Debug, PartialEq, Eq, Structural)]
pub struct RoutedInvalidationSteps {
    /// Close the pending focus validation of the mounted tree.
    pub finish_focus_validation: bool,
    /// Mark the runtime semantic product dirty.
    pub mark_semantic_product_dirty: bool,
    /// Request a redraw.
    pub request_redraw: bool,
    /// Cancel framework services that the focus change made stale.
    pub cancel_stale_framework_services: bool,
}

/// Follow-up work of a committed routed invalidation: an interaction invalidation closes
/// focus validation; a focus change dirties semantics, requests a redraw, and cancels
/// stale services; a pointer presentation change or a publication-dirtying invalidation
/// requests a redraw.
pub fn routed_invalidation_steps(
    interaction_invalidated: bool,
    focus_changed: bool,
    pointer_presentation_changed: bool,
    publication_dirty: bool,
) -> (steps: RoutedInvalidationSteps)
    ensures
        steps == (RoutedInvalidationSteps {
            finish_focus_validation: interaction_invalidated,
            mark_semantic_product_dirty: focus_changed,
            request_redraw: focus_changed || pointer_presentation_changed || publication_dirty,
            cancel_stale_framework_services: focus_changed,
        }),
{
    RoutedInvalidationSteps {
        finish_focus_validation: interaction_invalidated,
        mark_semantic_product_dirty: focus_changed,
        request_redraw: focus_changed || pointer_presentation_changed || publication_dirty,
        cancel_stale_framework_services: focus_changed,
    }
}

/// Phase of one routed callback invocation.
#[derive(Clone, Copy, Debug, PartialEq, Eq, Structural)]
pub enum EventPhase {
    Capture,
    Target,
    Bubble,
}

/// Invocation plan of a route ending at its target: capture from the outermost
/// ancestor inwards, the target, then bubble back outwards.
pub open spec fn spec_invocations(route: Seq<MountedNodeId>, target: MountedNodeId) -> Seq<(EventPhase, MountedNodeId)> {
    let ancestors = route.len() - 1;
    Seq::new(
        (2 * ancestors + 1) as nat,
        |i: int|
            if i < ancestors {
                (EventPhase::Capture, route[i])
            } else if i == ancestors {
                (EventPhase::Target, target)
            } else {
                (EventPhase::Bubble, route[2 * ancestors - i])
            },
    )
}

/// Plans the callback invocations of a routed event over a non-empty route.
pub fn routed_invocations(route: &Vec<MountedNodeId>, target: MountedNodeId) -> (plan: Vec<(EventPhase, MountedNodeId)>)
    requires
        route@.len() >= 1,
        route@.len() * 2 <= usize::MAX,
    ensures
        plan@ == spec_invocations(route@, target),
{
    let ancestors = route.len() - 1;
    let mut plan: Vec<(EventPhase, MountedNodeId)> = Vec::new();
    let ghost expected = spec_invocations(route@, target);
    let mut k: usize = 0;
    while k < ancestors
        invariant
            ancestors == route@.len() - 1,
            k <= ancestors,
            expected == spec_invocations(route@, target),
            plan@ == expected.take(k as int),
        decreases ancestors - k,
    {
        plan.push((EventPhase::Capture, route[k]));
        proof {
            assert(plan@ =~= expected.take(k as int + 1));
        }
        k = k + 1;
    }
    plan.push((EventPhase::Target, target));
    proof {
        assert(plan@ =~= expected.take(ancestors as int + 1));
    }
    let mut j: usize = ancestors;
    while j > 0
        invariant
            ancestors == route@.len() - 1,
            j <= ancestors,
            expected == spec_invocations(route@, target),
            plan@ == expected.take(2 * ancestors - j + 1),
        decreases j,
    {
        plan.push((EventPhase::Bubble, route[j - 1]));
        proof {
            assert(plan@ =~= expected.take(2 * ancestors - j + 2));
        }
        j = j - 1;
    }
    proof {
        assert(plan@ =~= expected);
    }
    plan
}

/// The invocation plan of a route has exactly as many invocations as admission counted
/// for it, and every ancestor is visited once while capturing and once while bubbling.
pub proof fn lemma_invocation_plan_matches_admission(route: Seq<MountedNodeId>, target: MountedNodeId)
    requires
        route.len() >= 1,
        route.len() * 2 <= usize::MAX,
    ensures
        spec_invocations(route, target).len() == route.len() * 2 - 1,
        forall|i: int|
            0 <= i < route.len() - 1 ==> #[trigger] spec_invocations(route, target)[i] == (
            EventPhase::Capture,
            route[i],
        ) && spec_invocations(route, target)[2 * (route.len() - 1) - i] == (
            EventPhase::Bubble,
            route[i],
        ),
{
}

/// What a callback's subscription invalidation does to the transaction.
#[derive(Clone, Copy, Debug, PartialEq, Eq, Structural)]
pub enum SubscriptionMutation {
    /// The owner's subscriptions become dirty, once.
    MarkDirty,
    /// The owner's unused coalescing credit is returned by spending one output.
    ReleaseCredit,
    /// Nothing changes.
    Unchanged,
}

/// Applies a callback's subscription invalidation: a first invalidation marks the owner
/// dirty; an owner that held a credit and did not invalidate gives the credit back.
pub fn record_subscription_mutation(
    subscription_dirty: &mut Vec<MountedNodeId>,
    remaining_outputs: &mut usize,
    current: MountedNodeId,
    subscription_invalidation: bool,
    subscription_credit: usize,
) -> (mutation: SubscriptionMutation)
    requires
        !subscription_invalidation && subscription_credit == 1 ==> *old(remaining_outputs) >= 1,
    ensures
        mutation == if subscription_invalidation && subscription_credit == 0 {
            SubscriptionMutation::MarkDirty
        } else if !subscription_invalidation && subscription_credit == 1 {
            SubscriptionMutation::ReleaseCredit
        } else {
            SubscriptionMutation::Unchanged
        },
        final(subscription_dirty)@ == if mutation == SubscriptionMutation::MarkDirty {
            old(subscription_dirty)@.push(current)
        } else {
            old(subscription_dirty)@
        },
        *final(remaining_outputs) == if mutation == SubscriptionMutation::ReleaseCredit {
            *old(remaining_outputs) - 1
        } else {
            *old(remaining_outputs) as int
        },
{
    if subscription_invalidation && subscription_credit == 0 {
        subscription_dirty.push(current);
        SubscriptionMutation::MarkDirty
    } else if !subscription_invalidation && subscription_credit == 1 {
        *remaining_outputs = *remaining_outputs - 1;
        SubscriptionMutation::ReleaseCredit
    } else {
        SubscriptionMutation::Unchanged
    }
}

/// Which control changes a callback made: propagation newly stopped, default newly
/// prevented.
pub fn control_changes(was_stopped: bool, stopped: bool, was_prevented: bool, prevented: bool) -> (changes: (
    bool,
    bool,
))
    ensures
        changes == (!was_stopped && stopped, !was_prevented && prevented),
{
    (!was_stopped && stopped, !was_prevented && prevented)
}

/// A text editing command routed to a focused editing owner.
#[derive(Clone, Copy, Debug, PartialEq, Eq, Structural)]
pub enum EditingCommand {
    SetSelection,
    ReplaceSelection,
    DeleteBackward,
    DeleteForward,
    Undo,
    Redo,
    MoveBackward,
    MoveForward,
    MoveUp,
    MoveDown,
    ExtendBackward,
    ExtendForward,
    ExtendUp,
    ExtendDown,
    SelectAll,
}

/// How the editing default handles one command.
#[derive(Clone, Copy, Debug, PartialEq, Eq, Structural)]
pub enum EditingDefaultPlan {
    /// The target is not the focused editing owner: the default does nothing.
    NotApplicable,
    /// Apply the selection that the action data carries, through the caret map.
    SetSelection,
    /// Spend a mandatory default command, then prepare a replacement of the selection
    /// with the text that the action data carries.
    ReplaceSelection,
    /// Prepare the command: first spending a mandatory default command when
    /// `consumes_default_command`, and with the target's caret map when `needs_caret_map`.
    Command { consumes_default_command: bool, needs_caret_map: bool },
}

/// Whether an editing command changes the text or its history, and so spends one of the
/// transaction's mandatory default commands.
pub open spec fn spec_consumes_default_command(command: EditingCommand) -> bool {
    match command {
        EditingCommand::DeleteBackward | EditingCommand::DeleteForward | EditingCommand::Undo
        | EditingCommand::Redo | EditingCommand::ReplaceSelection => true,
        _ => false,
    }
}

/// Whether an editing command moves through text positions, and so needs the caret map.
pub open spec fn spec_needs_caret_map(command: EditingCommand) -> bool {
    match command {
        EditingCommand::MoveBackward | EditingCommand::MoveForward | EditingCommand::MoveUp
        | EditingCommand::MoveDown | EditingCommand::ExtendBackward | EditingCommand::ExtendForward
        | EditingCommand::ExtendUp | EditingCommand::ExtendDown | EditingCommand::SelectAll
        | EditingCommand::DeleteBackward | EditingCommand::DeleteForward => true,
        _ => false,
    }
}

/// Plans the editing default of `command` for a target that is (`editing_owner`) an
/// editing owner and is (`focused`) the focused node.
pub fn editing_default_plan(editing_owner: bool, focused: bool, command: EditingCommand) -> (plan:
    EditingDefaultPlan)
    ensures
        plan == if !editing_owner || !focused {
            EditingDefaultPlan::NotApplicable
        } else {
            match command {
                EditingCommand::SetSelection => EditingDefaultPlan::SetSelection,
                EditingCommand::ReplaceSelection => EditingDefaultPlan::ReplaceSelection,
                _ => EditingDefaultPlan::Command {
                    consumes_default_command: spec_consumes_default_command(command),
                    needs_caret_map: spec_needs_caret_map(command),
                },
            }
        },
{
    if !editing_owner || !focused {
        return EditingDefaultPlan::NotApplicable;
    }
    match command {
        EditingCommand::SetSelection => EditingDefaultPlan::SetSelection,
        EditingCommand::ReplaceSelection => EditingDefaultPlan::ReplaceSelection,
        _ => {
            let consumes_default_command = match command {
                EditingCommand::DeleteBackward | EditingCommand::DeleteForward | EditingCommand::Undo
                | EditingCommand::Redo => true,
                _ => false,
            };
            let needs_caret_map = match command {
                EditingCommand::Undo | EditingCommand::Redo => false,
                _ => true,
            };
            EditingDefaultPlan::Command { consumes_default_command, needs_caret_map }
        },
    }
}

/// Why preparing an edit failed.
#[derive(Clone, Copy, Debug, PartialEq, Eq, Structural)]
pub enum EditPrepareError {
    MissingOwner,
    Unavailable,
    InvalidCoordinates,
    PendingCapacity,
    RequestExhausted,
}

/// What a failed edit preparation means for the routed transaction: an owner that cannot
/// edit now leaves the default without effect, while exhausted edit capacity breaks the
/// commit.
pub fn edit_prepare_failure(error: EditPrepareError) -> (result: Result<(), TraceRoutedIntegrityFailure>)
    ensures
        result == match error {
            EditPrepareError::MissingOwner | EditPrepareError::Unavailable
            | EditPrepareError::InvalidCoordinates => Ok::<(), TraceRoutedIntegrityFailure>(()),
            EditPrepareError::PendingCapacity | EditPrepareError::RequestExhausted => Err(
                TraceRoutedIntegrityFailure::CommitInvariantFailure,
            ),
        },
{
    match error {
        EditPrepareError::MissingOwner | EditPrepareError::Unavailable
        | EditPrepareError::InvalidCoordinates => Ok(()),
        EditPrepareError::PendingCapacity | EditPrepareError::RequestExhausted => Err(
            TraceRoutedIntegrityFailure::CommitInvariantFailure,
        ),
    }
}

/// Whether the activation default runs: the target must be enabled, and actionable too
/// unless the command names a non-primary semantic node of it. `semantic_key_is_primary`
/// is `None` when the command names no semantic node.
pub fn activation_applies(enabled: bool, actionable: bool, semantic_key_is_primary: Option<bool>) -> (applies:
    bool)
    ensures
        applies == (enabled && (actionable || semantic_key_is_primary == Some(false))),
{
    let requires_actionable = match semantic_key_is_primary {
        None => true,
        Some(primary) => primary,
    };
    enabled && (!requires_actionable || actionable)
}

/// One step of committing a routed transaction, in commit order.
#[derive(Clone, Copy, Debug, PartialEq, Eq, Structural)]
pub enum RoutedCommitStep {
    /// Commit the application's work starts and invalidations.
    CommitApplicationStarts,
    /// Queue the reconciliation of one owner's dirty mounted subscriptions.
    QueueSubscriptionReconcile,
    /// Append the outputs collected while notifying.
    AppendNotificationOutputs,
    /// Append the outputs collected from routed callbacks.
    AppendRoutedOutputs,
    /// Append the outputs collected from defaults.
    AppendDefaultOutputs,
    /// Append the cancellation envelopes of invalidated work.
    AppendCancellations,
    /// Append the planned mounted outputs.
    AppendMountedOutputs,
    /// Apply the pointer's text selection update.
    ApplyPointerSelection,
    /// Record the pointer text-selection transition.
    RecordPointerSelectionTransition,
    /// Commit the scroll offset updates.
    CommitScrollOffsets,
    /// Record one owner's consumption of a logical scroll.
    RecordScrollConsumption,
    /// Record the remainder of a logical scroll chain.
    RecordScrollChainCompleted,
    /// Record that the routed event committed.
    RecordCommitted,
    /// Finish the transaction's invalidation.
    FinishInvalidation,
}

/// `count` repetitions of `step`.
pub open spec fn repeated(step: RoutedCommitStep, count: nat) -> Seq<RoutedCommitStep> {
    Seq::new(count, |i: int| step)
}

/// The steps that commit a routed transaction, or `None` when the plan carries
/// application outputs or application subscription starts, which a routed transaction
/// never commits.
pub open spec fn spec_routed_commit(
    has_application_outputs: bool,
    has_application_subscription_starts: bool,
    dirty_subscription_owners: nat,
    has_pointer_selection_update: bool,
    has_pointer_selection_transition: bool,
    scroll_consumptions: nat,
    has_scroll_chain_remainder: bool,
) -> Option<Seq<RoutedCommitStep>> {
    if has_application_outputs || has_application_subscription_starts {
        None
    } else {
        Some(
            seq![RoutedCommitStep::CommitApplicationStarts]
                + repeated(RoutedCommitStep::QueueSubscriptionReconcile, dirty_subscription_owners)
                + seq![
                RoutedCommitStep::AppendNotificationOutputs,
                RoutedCommitStep::AppendRoutedOutputs,
                RoutedCommitStep::AppendDefaultOutputs,
                RoutedCommitStep::AppendCancellations,
                RoutedCommitStep::AppendMountedOutputs,
            ] + (if has_pointer_selection_update {
                seq![RoutedCommitStep::ApplyPointerSelection]
            } else {
                Seq::empty()
            }) + (if has_pointer_selection_transition {
                seq![RoutedCommitStep::RecordPointerSelectionTransition]
            } else {
                Seq::empty()
            }) + seq![RoutedCommitStep::CommitScrollOffsets] + repeated(
                RoutedCommitStep::RecordScrollConsumption,
                scroll_consumptions,
            ) + (if has_scroll_chain_remainder {
                seq![RoutedCommitStep::RecordScrollChainCompleted]
            } else {
                Seq::empty()
            }) + seq![RoutedCommitStep::RecordCommitted, RoutedCommitStep::FinishInvalidation],
        )
    }
}

fn push_repeated(steps: &mut Vec<RoutedCommitStep>, step: RoutedCommitStep, count: usize)
    ensures
        final(steps)@ == old(steps)@ + repeated(step, count as nat),
{
    let ghost start = steps@;
    let mut k: usize = 0;
    while k < count
        invariant
            k <= count,
            steps@ == start + repeated(step, k as nat),
        decreases count - k,
    {
        steps.push(step);
        k = k + 1;
        assert(steps@ =~= start + repeated(step, k as nat));
    }
}

/// Plans the commit of a routed transaction: the refusal of application outputs, then
/// the application starts, the subscription reconciliations, the collected outputs in
/// notification, routed, default order, the cancellations and mounted outputs, the pointer
/// selection, the scroll commits and their records, and finally the committed record and
/// the invalidation.
pub fn routed_commit_plan(
    has_application_outputs: bool,
    has_application_subscription_starts: bool,
    dirty_subscription_owners: usize,
    has_pointer_selection_update: bool,
    has_pointer_selection_transition: bool,
    scroll_consumptions: usize,
    has_scroll_chain_remainder: bool,
) -> (steps: Option<Vec<RoutedCommitStep>>)
    ensures
        match spec_routed_commit(
            has_application_outputs,
            has_application_subscription_starts,
            dirty_subscription_owners as nat,
            has_pointer_selection_update,
            has_pointer_selection_transition,
            scroll_consumptions as nat,
            has_scroll_chain_remainder,
        ) {
            Some(expected) => steps matches Some(v) && v@ == expected,
            None => steps is None,
        },
{
    if has_application_outputs || has_application_subscription_starts {
        return None;
    }
    let mut steps: Vec<RoutedCommitStep> = Vec::new();
    steps.push(RoutedCommitStep::CommitApplicationStarts);
    push_repeated(&mut steps, RoutedCommitStep::QueueSubscriptionReconcile, dirty_subscription_owners);
    steps.push(RoutedCommitStep::AppendNotificationOutputs);
    steps.push(RoutedCommitStep::AppendRoutedOutputs);
    steps.push(RoutedCommitStep::AppendDefaultOutputs);
    steps.push(RoutedCommitStep::AppendCancellations);
    steps.push(RoutedCommitStep::AppendMountedOutputs);
    let ghost outputs = steps@;
    if has_pointer_selection_update {
        steps.push(RoutedCommitStep::ApplyPointerSelection);
    }
    let ghost selection = steps@;
    if has_pointer_selection_transition {
        steps.push(RoutedCommitStep::RecordPointerSelectionTransition);
    }
    let ghost transition = steps@;
    steps.push(RoutedCommitStep::CommitScrollOffsets);
    push_repeated(&mut steps, RoutedCommitStep::RecordScrollConsumption, scroll_consumptions);
    let ghost consumed = steps@;
    if has_scroll_chain_remainder {
        steps.push(RoutedCommitStep::RecordScrollChainCompleted);
    }
    let ghost chained = steps@;
    steps.push(RoutedCommitStep::RecordCommitted);
    steps.push(RoutedCommitStep::FinishInvalidation);
    proof {
        let sel: Seq<RoutedCommitStep> = if has_pointer_selection_update {
            seq![RoutedCommitStep::ApplyPointerSelection]
        } else {
            Seq::empty()
        };
        let tr: Seq<RoutedCommitStep> = if has_pointer_selection_transition {
            seq![RoutedCommitStep::RecordPointerSelectionTransition]
        } else {
            Seq::empty()
        };
        let ch: Seq<RoutedCommitStep> = if has_scroll_chain_remainder {
            seq![RoutedCommitStep::RecordScrollChainCompleted]
        } else {
            Seq::empty()
        };
        assert(selection =~= outputs + sel);
        assert(transition =~= selection + tr);
        assert(chained =~= consumed + ch);
        let expected = spec_routed_commit(
            has_application_outputs,
            has_application_subscription_starts,
            dirty_subscription_owners as nat,
            has_pointer_selection_update,
            has_pointer_selection_transition,
            scroll_consumptions as nat,
            has_scroll_chain_remainder,
        )->0;
        assert(steps@ =~= expected);
    }
    Some(steps)
}

/// Whether a committed routed transaction changed what the pointer presents: its pointer
/// style changed, any scroll offset commit changed an offset, or the pointer's selection
/// changed.
pub fn routed_presentation_changed(
    pointer_style_changed: bool,
    scroll_offsets_changed: &Vec<bool>,
    pointer_selection_changed: bool,
) -> (changed: bool)
    ensures
        changed == (pointer_style_changed || pointer_selection_changed || exists|i: int|
            0 <= i < scroll_offsets_changed@.len() && #[trigger] scroll_offsets_changed@[i]),
{
    let mut scroll_changed = false;
    let mut i: usize = 0;
    while i < scroll_offsets_changed.len()
        invariant
            i <= scroll_offsets_changed@.len(),
            scroll_changed == exists|j: int| 0 <= j < i && #[trigger] scroll_offsets_changed@[j],
        decreases scroll_offsets_changed.len() - i,
    {
        scroll_changed = scroll_changed || scroll_offsets_changed[i];
        i = i + 1;
    }
    pointer_style_changed || scroll_changed || pointer_selection_changed
}

/// Whether a commit step can fail part-way through a commit: queueing a subscription
/// reconciliation, appending collected or planned outputs, and applying the pointer's
/// selection. Every other step always succeeds.
pub open spec fn spec_step_can_fail(step: RoutedCommitStep) -> bool {
    match step {
        RoutedCommitStep::QueueSubscriptionReconcile | RoutedCommitStep::AppendNotificationOutputs
        | RoutedCommitStep::AppendRoutedOutputs | RoutedCommitStep::AppendDefaultOutputs
        | RoutedCommitStep::AppendMountedOutputs | RoutedCommitStep::ApplyPointerSelection => true,
        _ => false,
    }
}

/// Whether a commit step can fail part-way through a commit.
pub fn step_can_fail(step: RoutedCommitStep) -> (fallible: bool)
    ensures
        fallible == spec_step_can_fail(step),
{
    match step {
        RoutedCommitStep::QueueSubscriptionReconcile | RoutedCommitStep::AppendNotificationOutputs
        | RoutedCommitStep::AppendRoutedOutputs | RoutedCommitStep::AppendDefaultOutputs
        | RoutedCommitStep::AppendMountedOutputs | RoutedCommitStep::ApplyPointerSelection => true,
        _ => false,
    }
}

/// Whether step `i` of a commit fails: it can fail and it reported failure.
pub open spec fn spec_step_fails(steps: Seq<RoutedCommitStep>, succeeded: Seq<bool>, i: int) -> bool {
    spec_step_can_fail(steps[i]) && !succeeded[i]
}

/// How far a routed commit ran.
#[derive(Clone, Copy, Debug, PartialEq, Eq, Structural)]
pub struct RoutedCommitRun {
    /// Number of steps that ran, in order, the failing one included.
    pub executed: usize,
    /// Every step ran and none failed: the transaction committed.
    pub committed: bool,
}

/// Runs a commit's steps in order, where `succeeded` reports each step's outcome: the
/// commit stops at the first step that can fail and did, running none after it, and
/// commits only when no step failed.
pub fn routed_commit_run(steps: &Vec<RoutedCommitStep>, succeeded: &Vec<bool>) -> (run: RoutedCommitRun)
    requires
        steps@.len() == succeeded@.len(),
    ensures
        run.committed <==> forall|i: int|
            0 <= i < steps@.len() ==> !#[trigger] spec_step_fails(steps@, succeeded@, i),
        run.committed ==> run.executed == steps@.len(),
        !run.committed ==> {
            &&& 1 <= run.executed <= steps@.len()
            &&& spec_step_fails(steps@, succeeded@, run.executed - 1)
            &&& forall|j: int| 0 <= j < run.executed - 1 ==> !#[trigger] spec_step_fails(steps@, succeeded@, j)
        },
{
    let mut i: usize = 0;
    while i < steps.len()
        invariant
            i <= steps@.len(),
            steps@.len() == succeeded@.len(),
            forall|j: int| 0 <= j < i ==> !#[trigger] spec_step_fails(steps@, succeeded@, j),
        decreases steps.len() - i,
    {
        if step_can_fail(steps[i]) && !succeeded[i] {
            assert(spec_step_fails(steps@, succeeded@, i as int));
            return RoutedCommitRun { executed: i + 1, committed: false };
        }
        i = i + 1;
    }
    RoutedCommitRun { executed: steps.len(), committed: true }
}

/// A planned routed commit that fails part-way never records its commit nor finishes its
/// invalidation: those two steps close every plan and cannot fail, so a failing step comes
/// before them.
pub proof fn lemma_failed_commit_is_never_recorded(
    steps: Seq<RoutedCommitStep>,
    succeeded: Seq<bool>,
    failing: int,
    has_application_outputs: bool,
    has_application_subscription_starts: bool,
    dirty_subscription_owners: nat,
    has_pointer_selection_update: bool,
    has_pointer_selection_transition: bool,
    scroll_consumptions: nat,
    has_scroll_chain_remainder: bool,
)
    requires
        spec_routed_commit(
            has_application_outputs,
            has_application_subscription_starts,
            dirty_subscription_owners,
            has_pointer_selection_update,
            has_pointer_selection_transition,
            scroll_consumptions,
            has_scroll_chain_remainder,
        ) == Some(steps),
        steps.len() == succeeded.len(),
        0 <= failing < steps.len(),
        spec_step_fails(steps, succeeded, failing),
    ensures
        steps.len() >= 2,
        steps[steps.len() - 2] == RoutedCommitStep::RecordCommitted,
        steps[steps.len() - 1] == RoutedCommitStep::FinishInvalidation,
        failing + 1 <= steps.len() - 2,
{
    let n = steps.len();
    assert(steps[n - 2] == RoutedCommitStep::RecordCommitted);
    assert(steps[n - 1] == RoutedCommitStep::FinishInvalidation);
}

} // verus!

