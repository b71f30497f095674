use runenui_runtime::routed::RuntimeTerminalReason;
use runenui_runtime::submission::{SubmitSemanticActionError, SubmitSemanticActionErrorKind};

#[test]
fn rejected_semantic_action_keeps_its_request() {
    let error = SubmitSemanticActionError::new(SubmitSemanticActionErrorKind::StaleTarget, String::from("press"));
    assert_eq!(error.kind(), SubmitSemanticActionErrorKind::StaleTarget);
    assert_eq!(error.request(), "press");
    assert_eq!(error.into_request(), String::from("press"));
}

#[test]
fn rejection_kinds_describe_themselves() {
    assert_eq!(SubmitSemanticActionErrorKind::Full.message(), "runtime work queue is full");
    assert_eq!(
        SubmitSemanticActionErrorKind::Terminal(RuntimeTerminalReason::Poisoned).message(),
        "runtime is terminal"
    );
    assert_eq!(
        SubmitSemanticActionErrorKind::StaleAuthority.message(),
        "semantic action authority requires publication before admission"
    );
}
