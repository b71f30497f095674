use runenui_runtime::ingress::{
    service_edit, ClipboardServiceResponse, ServiceEditKind,
    clipboard_classification_admitted, preflight_rejection, screen_cancellation, screen_response,
    service_response_step, CancelRejection, ClipboardClassification, ResponseRejection,
    ResponseScreen, RuntimeStatus, ServiceResponseStep, TextSensitivity,
};
use runenui_runtime::routed::{QueueCommitError, RuntimeTerminalReason};

#[test]
fn responses_are_screened_in_order() {
    assert_eq!(
        screen_response(RuntimeStatus::Closed, false, false, false, false),
        ResponseScreen::Reject { rejection: ResponseRejection::Closed, record_rejected: false, enter_terminal: None }
    );
    let terminal = RuntimeStatus::Terminal(RuntimeTerminalReason::Poisoned);
    assert_eq!(
        screen_response(terminal, true, true, true, true),
        ResponseScreen::Reject {
            rejection: ResponseRejection::Terminal(RuntimeTerminalReason::Poisoned),
            record_rejected: false,
            enter_terminal: None,
        }
    );
    assert_eq!(
        screen_response(RuntimeStatus::Running, false, true, true, true),
        ResponseScreen::Reject { rejection: ResponseRejection::ForeignRuntime, record_rejected: false, enter_terminal: None }
    );
    assert_eq!(
        screen_response(RuntimeStatus::Running, true, false, true, true),
        ResponseScreen::Reject { rejection: ResponseRejection::Stale, record_rejected: false, enter_terminal: None }
    );
    assert_eq!(
        screen_response(RuntimeStatus::Running, true, true, false, true),
        ResponseScreen::Reject { rejection: ResponseRejection::MismatchedKind, record_rejected: true, enter_terminal: None }
    );
    assert_eq!(
        screen_response(RuntimeStatus::Running, true, true, false, false),
        ResponseScreen::Reject {
            rejection: ResponseRejection::Terminal(RuntimeTerminalReason::TraceSequenceExhausted),
            record_rejected: false,
            enter_terminal: Some(RuntimeTerminalReason::TraceSequenceExhausted),
        }
    );
    assert_eq!(screen_response(RuntimeStatus::Running, true, true, true, false), ResponseScreen::Proceed);
    assert_eq!(preflight_rejection(RuntimeStatus::Running), ResponseRejection::Full);
    assert_eq!(preflight_rejection(terminal), ResponseRejection::Terminal(RuntimeTerminalReason::Poisoned));
}

#[test]
fn cancellations_enter_terminal_states_only_for_exhausted_counters() {
    assert_eq!(screen_cancellation(RuntimeStatus::Running, true, true, Ok(()), true), (Ok(()), None));
    assert_eq!(screen_cancellation(RuntimeStatus::Running, true, false, Ok(()), true), (Err(CancelRejection::Stale), None));
    assert_eq!(
        screen_cancellation(RuntimeStatus::Running, true, true, Err(QueueCommitError::Full), true),
        (Err(CancelRejection::Full), None)
    );
    assert_eq!(
        screen_cancellation(RuntimeStatus::Running, true, true, Err(QueueCommitError::SequenceExhausted), true),
        (
            Err(CancelRejection::Terminal(RuntimeTerminalReason::WorkSequenceExhausted)),
            Some(RuntimeTerminalReason::WorkSequenceExhausted)
        )
    );
    assert_eq!(
        screen_cancellation(RuntimeStatus::Running, true, true, Ok(()), false),
        (
            Err(CancelRejection::Terminal(RuntimeTerminalReason::TraceSequenceExhausted)),
            Some(RuntimeTerminalReason::TraceSequenceExhausted)
        )
    );
    assert_eq!(screen_cancellation(RuntimeStatus::Closed, true, true, Ok(()), true), (Err(CancelRejection::Closed), None));
    assert_eq!(screen_cancellation(RuntimeStatus::Running, false, true, Ok(()), true), (Err(CancelRejection::ForeignRuntime), None));
}

#[test]
fn queued_service_responses_and_clipboard_admission() {
    assert_eq!(service_response_step(false, true, true, true), ServiceResponseStep::RejectStale);
    assert_eq!(service_response_step(true, true, true, false), ServiceResponseStep::RejectAndRevoke);
    assert_eq!(service_response_step(true, true, true, true), ServiceResponseStep::Accept);
    assert!(clipboard_classification_admitted(ClipboardClassification::Public, Some(TextSensitivity::Secret)));
    assert!(clipboard_classification_admitted(ClipboardClassification::Sensitive, Some(TextSensitivity::Secret)));
    assert!(!clipboard_classification_admitted(ClipboardClassification::Sensitive, Some(TextSensitivity::Public)));
    assert!(!clipboard_classification_admitted(ClipboardClassification::Unknown, Some(TextSensitivity::Secret)));
    assert!(!clipboard_classification_admitted(ClipboardClassification::Public, None));
}

#[test]
fn completed_clipboard_services_edit_only_admitted_text() {
    let public = ClipboardServiceResponse::PasteRead {
        text_bytes: 5,
        max_bytes: 16,
        classification: ClipboardClassification::Public,
    };
    assert_eq!(service_edit(public, true, Some(TextSensitivity::Public)), Ok(Some(ServiceEditKind::Paste)));
    let too_long = ClipboardServiceResponse::PasteRead {
        text_bytes: 17,
        max_bytes: 16,
        classification: ClipboardClassification::Public,
    };
    assert_eq!(service_edit(too_long, true, Some(TextSensitivity::Public)), Ok(None));
    let sensitive = ClipboardServiceResponse::PasteRead {
        text_bytes: 5,
        max_bytes: 16,
        classification: ClipboardClassification::Sensitive,
    };
    assert_eq!(service_edit(sensitive, true, Some(TextSensitivity::Public)), Ok(None));
    assert_eq!(service_edit(sensitive, true, Some(TextSensitivity::Secret)), Ok(Some(ServiceEditKind::Paste)));
    assert_eq!(service_edit(ClipboardServiceResponse::CutWritten, true, None), Ok(Some(ServiceEditKind::Cut)));
    assert_eq!(
        service_edit(ClipboardServiceResponse::CutWritten, false, None),
        Err(RuntimeTerminalReason::TraceSequenceExhausted)
    );
    assert_eq!(service_edit(ClipboardServiceResponse::Other, false, None), Ok(None));
}
