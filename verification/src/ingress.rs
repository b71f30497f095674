//! Screening of externally delivered responses and cancellations of host requests and
//! framework services, before the runtime commits anything for them.

use vstd::prelude::*;

use crate::routed::{QueueCommitError, RuntimeTerminalReason};

verus! {

/// Lifecycle status of a runtime.
#[derive(Clone, Copy, Debug, PartialEq, Eq, Structural)]
pub enum RuntimeStatus {
    Running,
    Closed,
    Terminal(RuntimeTerminalReason),
}

/// Why a delivered response was not accepted.
#[derive(Clone, Copy, Debug, PartialEq, Eq, Structural)]
pub enum ResponseRejection {
    Closed,
    Terminal(RuntimeTerminalReason),
    ForeignRuntime,
    Stale,
    MismatchedKind,
    Full,
}

/// What the runtime does with a delivered response after screening it.
#[derive(Clone, Copy, Debug, PartialEq, Eq, Structural)]
pub enum ResponseScreen {
    /// Go on to the output preflight.
    Proceed,
    /// Refuse the response; optionally record the rejection in the trace first, and
    /// optionally enter the given terminal state.
    Reject {
        rejection: ResponseRejection,
        record_rejected: bool,
        enter_terminal: Option<RuntimeTerminalReason>,
    },
}

/// The screening outcome of a response, in order: a closed or terminal runtime, a token
/// of another runtime, no live request for the token, then a response of the wrong kind
/// (recorded when the trace can admit one fact, otherwise the runtime turns terminal).
pub open spec fn spec_screen_response(
    status: RuntimeStatus,
    same_namespace: bool,
    request_live: bool,
    kind_matches: bool,
    trace_admits_fact: bool,
) -> ResponseScreen {
    match status {
        RuntimeStatus::Closed => ResponseScreen::Reject {
            rejection: ResponseRejection::Closed,
            record_rejected: false,
            enter_terminal: None,
        },
        RuntimeStatus::Terminal(reason) => ResponseScreen::Reject {
            rejection: ResponseRejection::Terminal(reason),
            record_rejected: false,
            enter_terminal: None,
        },
        RuntimeStatus::Running => if !same_namespace {
            ResponseScreen::Reject {
                rejection: ResponseRejection::ForeignRuntime,
                record_rejected: false,
                enter_terminal: None,
            }
        } else if !request_live {
            ResponseScreen::Reject {
                rejection: ResponseRejection::Stale,
                record_rejected: false,
                enter_terminal: None,
            }
        } else if !kind_matches {
            if trace_admits_fact {
                ResponseScreen::Reject {
                    rejection: ResponseRejection::MismatchedKind,
                    record_rejected: true,
                    enter_terminal: None,
                }
            } else {
                ResponseScreen::Reject {
                    rejection: ResponseRejection::Terminal(
                        RuntimeTerminalReason::TraceSequenceExhausted,
                    ),
                    record_rejected: false,
                    enter_terminal: Some(RuntimeTerminalReason::TraceSequenceExhausted),
                }
            }
        } else {
            ResponseScreen::Proceed
        },
    }
}

/// Screens a host response or framework service response delivered for a token.
pub fn screen_response(
    status: RuntimeStatus,
    same_namespace: bool,
    request_live: bool,
    kind_matches: bool,
    trace_admits_fact: bool,
) -> (screen: ResponseScreen)
    ensures
        screen == spec_screen_response(
            status,
            same_namespace,
            request_live,
            kind_matches,
            trace_admits_fact,
        ),
{
    match status {
        RuntimeStatus::Closed => {
            return ResponseScreen::Reject {
                rejection: ResponseRejection::Closed,
                record_rejected: false,
                enter_terminal: None,
            };
        },
        RuntimeStatus::Terminal(reason) => {
            return ResponseScreen::Reject {
                rejection: ResponseRejection::Terminal(reason),
                record_rejected: false,
                enter_terminal: None,
            };
        },
        RuntimeStatus::Running => {},
    }
    if !same_namespace {
        return ResponseScreen::Reject {
            rejection: ResponseRejection::ForeignRuntime,
            record_rejected: false,
            enter_terminal: None,
        };
    }
    if !request_live {
        return ResponseScreen::Reject {
            rejection: ResponseRejection::Stale,
            record_rejected: false,
            enter_terminal: None,
        };
    }
    if !kind_matches {
        if trace_admits_fact {
            return ResponseScreen::Reject {
                rejection: ResponseRejection::MismatchedKind,
                record_rejected: true,
                enter_terminal: None,
            };
        }
        let reason = RuntimeTerminalReason::TraceSequenceExhausted;
        return ResponseScreen::Reject {
            rejection: ResponseRejection::Terminal(reason),
            record_rejected: false,
            enter_terminal: Some(reason),
        };
    }
    ResponseScreen::Proceed
}

/// The rejection after a refused output preflight: a runtime still running is full;
/// one that the preflight turned terminal reports its reason.
pub fn preflight_rejection(status_after: RuntimeStatus) -> (rejection: ResponseRejection)
    requires
        status_after != RuntimeStatus::Closed,
    ensures
        rejection == match status_after {
            RuntimeStatus::Terminal(reason) => ResponseRejection::Terminal(reason),
            _ => ResponseRejection::Full,
        },
{
    match status_after {
        RuntimeStatus::Terminal(reason) => ResponseRejection::Terminal(reason),
        _ => ResponseRejection::Full,
    }
}

/// Why a cancellation was refused.
#[derive(Clone, Copy, Debug, PartialEq, Eq, Structural)]
pub enum CancelRejection {
    Closed,
    Terminal(RuntimeTerminalReason),
    ForeignRuntime,
    Stale,
    Full,
}

/// The outcome of screening a cancellation, and the terminal state it enters, if any:
/// a closed or terminal runtime, a foreign token, work no longer running, a full queue,
/// an exhausted work sequence, then an exhausted trace.
pub open spec fn spec_screen_cancellation(
    status: RuntimeStatus,
    same_namespace: bool,
    running: bool,
    queue: Result<(), QueueCommitError>,
    trace_admits_cancellation: bool,
) -> (Result<(), CancelRejection>, Option<RuntimeTerminalReason>) {
    match status {
        RuntimeStatus::Closed => (Err(CancelRejection::Closed), None),
        RuntimeStatus::Terminal(reason) => (Err(CancelRejection::Terminal(reason)), None),
        RuntimeStatus::Running => if !same_namespace {
            (Err(CancelRejection::ForeignRuntime), None)
        } else if !running {
            (Err(CancelRejection::Stale), None)
        } else {
            match queue {
                Err(QueueCommitError::Full) => (Err(CancelRejection::Full), None),
                Err(QueueCommitError::SequenceExhausted) => (
                    Err(CancelRejection::Terminal(RuntimeTerminalReason::WorkSequenceExhausted)),
                    Some(RuntimeTerminalReason::WorkSequenceExhausted),
                ),
                Ok(()) => if !trace_admits_cancellation {
                    (
                        Err(CancelRejection::Terminal(RuntimeTerminalReason::TraceSequenceExhausted)),
                        Some(RuntimeTerminalReason::TraceSequenceExhausted),
                    )
                } else {
                    (Ok(()), None)
                },
            }
        },
    }
}

/// Screens the cancellation of a host request or framework service.
pub fn screen_cancellation(
    status: RuntimeStatus,
    same_namespace: bool,
    running: bool,
    queue: Result<(), QueueCommitError>,
    trace_admits_cancellation: bool,
) -> (screen: (Result<(), CancelRejection>, Option<RuntimeTerminalReason>))
    ensures
        screen == spec_screen_cancellation(
            status,
            same_namespace,
            running,
            queue,
            trace_admits_cancellation,
        ),
{
    match status {
        RuntimeStatus::Closed => {
            return (Err(CancelRejection::Closed), None);
        },
        RuntimeStatus::Terminal(reason) => {
            return (Err(CancelRejection::Terminal(reason)), None);
        },
        RuntimeStatus::Running => {},
    }
    if !same_namespace {
        return (Err(CancelRejection::ForeignRuntime), None);
    }
    if !running {
        return (Err(CancelRejection::Stale), None);
    }
    match queue {
        Err(QueueCommitError::Full) => {
            return (Err(CancelRejection::Full), None);
        },
        Err(QueueCommitError::SequenceExhausted) => {
            let reason = RuntimeTerminalReason::WorkSequenceExhausted;
            return (Err(CancelRejection::Terminal(reason)), Some(reason));
        },
        Ok(()) => {},
    }
    if !trace_admits_cancellation {
        let reason = RuntimeTerminalReason::TraceSequenceExhausted;
        return (Err(CancelRejection::Terminal(reason)), Some(reason));
    }
    (Ok(()), None)
}

/// A runtime that is not running refuses every response and cancellation without
/// entering a new terminal state; a runtime that enters one names it in the refusal.
pub proof fn lemma_refusals_name_their_terminal_state(
    status: RuntimeStatus,
    same_namespace: bool,
    live: bool,
    kind_matches: bool,
    trace_admits: bool,
    queue: Result<(), QueueCommitError>,
)
    ensures
        status != RuntimeStatus::Running ==> spec_screen_response(
            status,
            same_namespace,
            live,
            kind_matches,
            trace_admits,
        ) matches ResponseScreen::Reject { enter_terminal: None, .. },
        status != RuntimeStatus::Running ==> spec_screen_cancellation(
            status,
            same_namespace,
            live,
            queue,
            trace_admits,
        ).1 is None && spec_screen_cancellation(status, same_namespace, live, queue, trace_admits).0 is Err,
        spec_screen_response(status, same_namespace, live, kind_matches, trace_admits) matches ResponseScreen::Reject {
            rejection,
            enter_terminal: Some(reason),
            ..
        } ==> rejection == ResponseRejection::Terminal(reason),
        spec_screen_cancellation(status, same_namespace, live, queue, trace_admits).1 matches Some(reason)
            ==> spec_screen_cancellation(status, same_namespace, live, queue, trace_admits).0 == Err::<
            (),
            CancelRejection,
        >(CancelRejection::Terminal(reason)),
        spec_screen_response(status, same_namespace, live, kind_matches, trace_admits)
            == ResponseScreen::Proceed <==> (status == RuntimeStatus::Running && same_namespace && live
            && kind_matches),
{
}

/// What becomes of a queued framework service response when its envelope is processed.
#[derive(Clone, Copy, Debug, PartialEq, Eq, Structural)]
pub enum ServiceResponseStep {
    /// The service no longer runs: record a stale rejection and release the response.
    RejectStale,
    /// The service is gone, of another kind, or its binding is no longer current:
    /// record the rejection and revoke the service.
    RejectAndRevoke,
    /// Accept the response.
    Accept,
}

/// Decides the processing of a queued framework service response.
pub fn service_response_step(
    running: bool,
    request_found: bool,
    kind_matches: bool,
    binding_current: bool,
) -> (step: ServiceResponseStep)
    ensures
        step == if !running {
            ServiceResponseStep::RejectStale
        } else if !request_found || !kind_matches || !binding_current {
            ServiceResponseStep::RejectAndRevoke
        } else {
            ServiceResponseStep::Accept
        },
{
    if !running {
        ServiceResponseStep::RejectStale
    } else if !request_found || !kind_matches || !binding_current {
        ServiceResponseStep::RejectAndRevoke
    } else {
        ServiceResponseStep::Accept
    }
}

/// Provenance classification of clipboard text.
#[derive(Clone, Copy, Debug, PartialEq, Eq, Structural)]
pub enum ClipboardClassification {
    Public,
    Sensitive,
    Unknown,
}

/// Sensitivity of the document text receives.
#[derive(Clone, Copy, Debug, PartialEq, Eq, Structural)]
pub enum TextSensitivity {
    Public,
    Secret,
}

/// Whether pasted clipboard text may enter a document: public text enters any known
/// document, sensitive text only a secret one, and text of unknown provenance never.
pub open spec fn spec_clipboard_admitted(
    classification: ClipboardClassification,
    sensitivity: Option<TextSensitivity>,
) -> bool {
    match (classification, sensitivity) {
        (ClipboardClassification::Public, Some(_)) => true,
        (ClipboardClassification::Sensitive, Some(TextSensitivity::Secret)) => true,
        _ => false,
    }
}

/// Decides whether pasted clipboard text may enter a document.
pub fn clipboard_classification_admitted(
    classification: ClipboardClassification,
    sensitivity: Option<TextSensitivity>,
) -> (admitted: bool)
    ensures
        admitted == spec_clipboard_admitted(classification, sensitivity),
{
    match (classification, sensitivity) {
        (ClipboardClassification::Public, Some(_)) => true,
        (ClipboardClassification::Sensitive, Some(TextSensitivity::Secret)) => true,
        _ => false,
    }
}

/// Sensitive clipboard text never reaches a public document, and unknown text never
/// reaches any.
pub proof fn lemma_sensitive_text_stays_secret(
    classification: ClipboardClassification,
    sensitivity: Option<TextSensitivity>,
)
    ensures
        (classification == ClipboardClassification::Sensitive && sensitivity != Some(
            TextSensitivity::Secret,
        )) ==> !spec_clipboard_admitted(classification, sensitivity),
        classification == ClipboardClassification::Unknown ==> !spec_clipboard_admitted(
            classification,
            sensitivity,
        ),
        sensitivity is None ==> !spec_clipboard_admitted(classification, sensitivity),
{
}

/// Edit that a completed clipboard service applies to its bound document.
#[derive(Clone, Copy, Debug, PartialEq, Eq, Structural)]
pub enum ServiceEditKind {
    /// Replace the selection with nothing.
    Cut,
    /// Replace the selection with the text that was read.
    Paste,
}

/// A completed framework service response, as the clipboard edit reads it.
#[derive(Clone, Copy, Debug, PartialEq, Eq, Structural)]
pub enum ClipboardServiceResponse {
    /// The clipboard write of a cut succeeded.
    CutWritten,
    /// The clipboard read of a paste, bounded to `max_bytes`, returned `text_bytes` bytes of
    /// text classified `classification`.
    PasteRead { text_bytes: usize, max_bytes: usize, classification: ClipboardClassification },
    /// Any other response.
    Other,
}

/// The edit that a completed clipboard service applies, if any: a successful cut write
/// removes the selection, and a paste read replaces it when the text fits the requested
/// bound and may enter a document of the owner's `sensitivity`. Both need the trace to admit
/// the completion and its application action (`trace_admits`); the runtime turns terminal
/// when it does not.
pub fn service_edit(
    response: ClipboardServiceResponse,
    trace_admits: bool,
    sensitivity: Option<TextSensitivity>,
) -> (edit: Result<Option<ServiceEditKind>, RuntimeTerminalReason>)
    ensures
        edit == match response {
            ClipboardServiceResponse::Other => Ok(None),
            _ => if !trace_admits {
                Err(RuntimeTerminalReason::TraceSequenceExhausted)
            } else {
                match response {
                    ClipboardServiceResponse::PasteRead { text_bytes, max_bytes, classification } =>
                        if text_bytes <= max_bytes && spec_clipboard_admitted(classification, sensitivity) {
                        Ok(Some(ServiceEditKind::Paste))
                    } else {
                        Ok(None)
                    },
                    _ => Ok(Some(ServiceEditKind::Cut)),
                }
            },
        },
{
    match response {
        ClipboardServiceResponse::Other => Ok(None),
        ClipboardServiceResponse::CutWritten => if trace_admits {
            Ok(Some(ServiceEditKind::Cut))
        } else {
            Err(RuntimeTerminalReason::TraceSequenceExhausted)
        },
        ClipboardServiceResponse::PasteRead { text_bytes, max_bytes, classification } => {
            if !trace_admits {
                return Err(RuntimeTerminalReason::TraceSequenceExhausted);
            }
            if text_bytes <= max_bytes && clipboard_classification_admitted(classification, sensitivity) {
                Ok(Some(ServiceEditKind::Paste))
            } else {
                Ok(None)
            }
        },
    }
}

} // verus!
