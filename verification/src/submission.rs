//! Rejection vocabulary of semantic action and displayed-surface command submission.

use vstd::prelude::*;

use crate::routed::RuntimeTerminalReason;

verus! {

/// Classification of one semantic action submission rejection.
#[non_exhaustive]
#[derive(Clone, Copy, Debug, PartialEq, Eq, Structural)]
pub enum SubmitSemanticActionErrorKind {
    Full,
    Closed,
    Terminal(RuntimeTerminalReason),
    ForeignSurface,
    WrongSurface,
    ForeignTarget,
    StaleTarget,
    MissingTarget,
    TargetNotInSurface,
    UnsupportedAction,
    UnavailableAction,
    StaleAuthority,
    Integrity,
    WorkSequenceExhausted,
    TraceSequenceExhausted,
}

/// Classification of one checked displayed-surface command rejection.
#[non_exhaustive]
#[derive(Clone, Copy, Debug, PartialEq, Eq, Structural)]
pub enum SubmitSurfaceCommandErrorKind {
    Full,
    Closed,
    Terminal(RuntimeTerminalReason),
    ForeignSurfaceContext,
    ForeignSurface,
    RetiredSurfaceContext,
    MissingSurfaceGeneration,
    CoordinateRevisionMismatch,
    NoTarget,
    TargetNotInSnapshot,
    ForeignTarget,
    StaleTarget,
    MissingTarget,
    WorkSequenceExhausted,
    TraceSequenceExhausted,
}

impl SubmitSemanticActionErrorKind {
    /// Description of the rejection. A terminal runtime's description is followed by its
    /// terminal reason, which the caller renders.
    pub fn message(&self) -> (text: &'static str)
        ensures
            text@ == match self {
                SubmitSemanticActionErrorKind::Full => "runtime work queue is full"@,
                SubmitSemanticActionErrorKind::Closed => "runtime is closed"@,
                SubmitSemanticActionErrorKind::Terminal(_) => "runtime is terminal"@,
                SubmitSemanticActionErrorKind::ForeignSurface => "semantic action surface belongs to another runtime"@,
                SubmitSemanticActionErrorKind::WrongSurface => "semantic action targets a different logical surface"@,
                SubmitSemanticActionErrorKind::ForeignTarget => "semantic target belongs to another runtime"@,
                SubmitSemanticActionErrorKind::StaleTarget => "semantic target lifetime is stale"@,
                SubmitSemanticActionErrorKind::MissingTarget => "semantic target has no semantic address"@,
                SubmitSemanticActionErrorKind::TargetNotInSurface => "semantic target is not present in the current surface product"@,
                SubmitSemanticActionErrorKind::UnsupportedAction => "semantic target does not support the requested action"@,
                SubmitSemanticActionErrorKind::UnavailableAction => "semantic action is currently unavailable"@,
                SubmitSemanticActionErrorKind::StaleAuthority => "semantic action authority requires publication before admission"@,
                SubmitSemanticActionErrorKind::Integrity => "semantic target or mounted-owner authority is inconsistent"@,
                SubmitSemanticActionErrorKind::WorkSequenceExhausted => "runtime work sequence is exhausted"@,
                SubmitSemanticActionErrorKind::TraceSequenceExhausted => "enabled canonical trace sequence is exhausted"@,
            },
    {
        match self {
            SubmitSemanticActionErrorKind::Full => "runtime work queue is full",
            SubmitSemanticActionErrorKind::Closed => "runtime is closed",
            SubmitSemanticActionErrorKind::Terminal(_) => "runtime is terminal",
            SubmitSemanticActionErrorKind::ForeignSurface => "semantic action surface belongs to another runtime",
            SubmitSemanticActionErrorKind::WrongSurface => "semantic action targets a different logical surface",
            SubmitSemanticActionErrorKind::ForeignTarget => "semantic target belongs to another runtime",
            SubmitSemanticActionErrorKind::StaleTarget => "semantic target lifetime is stale",
            SubmitSemanticActionErrorKind::MissingTarget => "semantic target has no semantic address",
            SubmitSemanticActionErrorKind::TargetNotInSurface => "semantic target is not present in the current surface product",
            SubmitSemanticActionErrorKind::UnsupportedAction => "semantic target does not support the requested action",
            SubmitSemanticActionErrorKind::UnavailableAction => "semantic action is currently unavailable",
            SubmitSemanticActionErrorKind::StaleAuthority => "semantic action authority requires publication before admission",
            SubmitSemanticActionErrorKind::Integrity => "semantic target or mounted-owner authority is inconsistent",
            SubmitSemanticActionErrorKind::WorkSequenceExhausted => "runtime work sequence is exhausted",
            SubmitSemanticActionErrorKind::TraceSequenceExhausted => "enabled canonical trace sequence is exhausted",
        }
    }
}

/// Submission rejection retaining the exact semantic request that did not enter the
/// canonical queue.
pub struct SubmitSemanticActionError<Request> {
    kind: SubmitSemanticActionErrorKind,
    request: Request,
}

impl<Request> SubmitSemanticActionError<Request> {
    /// The rejection's classification.
    pub closed spec fn spec_kind(&self) -> SubmitSemanticActionErrorKind {
        self.kind
    }

    /// The retained request.
    pub closed spec fn spec_request(&self) -> Request {
        self.request
    }

    /// Rejection of `request` classified `kind`.
    pub fn new(kind: SubmitSemanticActionErrorKind, request: Request) -> (error: Self)
        ensures
            error.spec_kind() == kind,
            error.spec_request() == request,
    {
        SubmitSemanticActionError { kind, request }
    }

    /// The rejection's classification.
    pub fn kind(&self) -> (kind: SubmitSemanticActionErrorKind)
        ensures
            kind == self.spec_kind(),
    {
        self.kind
    }

    /// Borrows the exact semantic request that did not enter the canonical queue.
    pub fn request(&self) -> (request: &Request)
        ensures
            *request == self.spec_request(),
    {
        &self.request
    }

    /// Recovers the exact semantic request that did not enter the canonical queue.
    pub fn into_request(self) -> (request: Request)
        ensures
            request == self.spec_request(),
    {
        self.request
    }
}

} // verus!

