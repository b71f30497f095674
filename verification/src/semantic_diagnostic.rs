//! Surface-scoped semantic publication diagnostics.
//!
//! Diagnostics are publication-side observations rather than semantic revision
//! identity: a diagnostics-only change does not require a new semantic snapshot revision.

use vstd::prelude::*;
use vstd::std_specs::convert::FromSpecImpl;

use crate::ids::{SemanticNodeId, SurfaceId};
use crate::semantic::{copy_text, SemanticCompositionDiagnostic};

verus! {

/// Exact fail-closed reason for withdrawing one mounted owner's semantic product.
#[non_exhaustive]
#[derive(Clone, Copy, Debug, PartialEq, Eq, Structural)]
pub enum SemanticOwnerWithdrawalReason {
    /// The owner's contribution was refused; the payload is the contribution error's code.
    InvalidContribution(u64),
    IdentityExhausted,
    IndexIntegrityFailure,
    StatePayloadMismatch,
}

/// Renderer- and platform-neutral semantic publication diagnostic.
#[non_exhaustive]
#[derive(Clone, Debug, PartialEq, Eq)]
pub enum SemanticDiagnostic {
    MissingOwnerBinding { key: u64 },
    MissingMountedOwner,
    MissingLocalRelationshipTarget { source: SemanticNodeId, key: u64 },
    MissingAuthoredRelationshipOwner { source: SemanticNodeId, element_id: String },
    AmbiguousAuthoredRelationshipOwner { source: SemanticNodeId, element_id: String },
    MissingAuthoredRelationshipTarget { source: SemanticNodeId, element_id: String, key: u64 },
    FocusedOwnerMissingVisiblePrimary,
    OwnerWithdrawn { authored_id: Option<String>, reason: SemanticOwnerWithdrawalReason },
}

/// The publication diagnostic reporting one composition diagnostic: the same variant with
/// the same fields.
pub open spec fn spec_from_composition(value: SemanticCompositionDiagnostic) -> SemanticDiagnostic {
    match value {
        SemanticCompositionDiagnostic::MissingOwnerBinding { key } => SemanticDiagnostic::MissingOwnerBinding {
            key,
        },
        SemanticCompositionDiagnostic::MissingMountedOwner => SemanticDiagnostic::MissingMountedOwner,
        SemanticCompositionDiagnostic::MissingLocalRelationshipTarget {
            source,
            key,
        } => SemanticDiagnostic::MissingLocalRelationshipTarget { source, key },
        SemanticCompositionDiagnostic::MissingAuthoredRelationshipOwner {
            source,
            element_id,
        } => SemanticDiagnostic::MissingAuthoredRelationshipOwner { source, element_id },
        SemanticCompositionDiagnostic::AmbiguousAuthoredRelationshipOwner {
            source,
            element_id,
        } => SemanticDiagnostic::AmbiguousAuthoredRelationshipOwner { source, element_id },
        SemanticCompositionDiagnostic::MissingAuthoredRelationshipTarget {
            source,
            element_id,
            key,
        } => SemanticDiagnostic::MissingAuthoredRelationshipTarget { source, element_id, key },
        SemanticCompositionDiagnostic::FocusedOwnerMissingVisiblePrimary => {
            SemanticDiagnostic::FocusedOwnerMissingVisiblePrimary
        },
    }
}

impl From<SemanticCompositionDiagnostic> for SemanticDiagnostic {
    fn from(value: SemanticCompositionDiagnostic) -> (diagnostic: Self) {
        match value {
            SemanticCompositionDiagnostic::MissingOwnerBinding { key } => Self::MissingOwnerBinding {
                key,
            },
            SemanticCompositionDiagnostic::MissingMountedOwner => Self::MissingMountedOwner,
            SemanticCompositionDiagnostic::MissingLocalRelationshipTarget {
                source,
                key,
            } => Self::MissingLocalRelationshipTarget { source, key },
            SemanticCompositionDiagnostic::MissingAuthoredRelationshipOwner {
                source,
                element_id,
            } => Self::MissingAuthoredRelationshipOwner { source, element_id },
            SemanticCompositionDiagnostic::AmbiguousAuthoredRelationshipOwner {
                source,
                element_id,
            } => Self::AmbiguousAuthoredRelationshipOwner { source, element_id },
            SemanticCompositionDiagnostic::MissingAuthoredRelationshipTarget {
                source,
                element_id,
                key,
            } => Self::MissingAuthoredRelationshipTarget { source, element_id, key },
            SemanticCompositionDiagnostic::FocusedOwnerMissingVisiblePrimary => {
                Self::FocusedOwnerMissingVisiblePrimary
            },
        }
    }
}

impl FromSpecImpl<SemanticCompositionDiagnostic> for SemanticDiagnostic {
    open spec fn obeys_from_spec() -> bool {
        true
    }

    open spec fn from_spec(v: SemanticCompositionDiagnostic) -> SemanticDiagnostic {
        spec_from_composition(v)
    }
}

fn diagnostic_of(value: &SemanticCompositionDiagnostic) -> (diagnostic: SemanticDiagnostic)
    ensures
        diagnostic == spec_from_composition(*value),
{
    match value {
        SemanticCompositionDiagnostic::MissingOwnerBinding { key } => SemanticDiagnostic::MissingOwnerBinding {
            key: *key,
        },
        SemanticCompositionDiagnostic::MissingMountedOwner => SemanticDiagnostic::MissingMountedOwner,
        SemanticCompositionDiagnostic::MissingLocalRelationshipTarget {
            source,
            key,
        } => SemanticDiagnostic::MissingLocalRelationshipTarget { source: *source, key: *key },
        SemanticCompositionDiagnostic::MissingAuthoredRelationshipOwner {
            source,
            element_id,
        } => SemanticDiagnostic::MissingAuthoredRelationshipOwner {
            source: *source,
            element_id: element_id.clone(),
        },
        SemanticCompositionDiagnostic::AmbiguousAuthoredRelationshipOwner {
            source,
            element_id,
        } => SemanticDiagnostic::AmbiguousAuthoredRelationshipOwner {
            source: *source,
            element_id: element_id.clone(),
        },
        SemanticCompositionDiagnostic::MissingAuthoredRelationshipTarget {
            source,
            element_id,
            key,
        } => SemanticDiagnostic::MissingAuthoredRelationshipTarget {
            source: *source,
            element_id: element_id.clone(),
            key: *key,
        },
        SemanticCompositionDiagnostic::FocusedOwnerMissingVisiblePrimary => {
            SemanticDiagnostic::FocusedOwnerMissingVisiblePrimary
        },
    }
}

/// Withdrawal facts of one mounted owner, in mounted order.
#[derive(Clone, Debug)]
pub struct OwnerWithdrawal {
    /// The owner's authored element identity, if it has one.
    pub authored_id: Option<String>,
    /// Why the owner's semantic product was withdrawn, if it was.
    pub reason: Option<SemanticOwnerWithdrawalReason>,
}

/// One withdrawal diagnostic for each withdrawn owner among the first `n`, in owner order.
pub open spec fn spec_withdrawal_diagnostics(owners: Seq<OwnerWithdrawal>, n: int) -> Seq<SemanticDiagnostic>
    decreases n,
{
    if n <= 0 {
        Seq::empty()
    } else {
        let earlier = spec_withdrawal_diagnostics(owners, n - 1);
        match owners[n - 1].reason {
            Some(reason) => earlier.push(
                SemanticDiagnostic::OwnerWithdrawn { authored_id: owners[n - 1].authored_id, reason },
            ),
            None => earlier,
        }
    }
}

/// Reports every withdrawn owner, in owner order, with its authored identity and reason.
pub fn withdrawal_diagnostics(owners: &Vec<OwnerWithdrawal>) -> (diagnostics: Vec<SemanticDiagnostic>)
    ensures
        diagnostics@ == spec_withdrawal_diagnostics(owners@, owners@.len() as int),
{
    let mut diagnostics: Vec<SemanticDiagnostic> = Vec::new();
    let mut i: usize = 0;
    while i < owners.len()
        invariant
            i <= owners@.len(),
            diagnostics@ == spec_withdrawal_diagnostics(owners@, i as int),
        decreases owners.len() - i,
    {
        let owner = &owners[i];
        match owner.reason {
            Some(reason) => {
                let authored_id = copy_text(&owner.authored_id);
                diagnostics.push(SemanticDiagnostic::OwnerWithdrawn { authored_id, reason });
            },
            None => {},
        }
        i = i + 1;
    }
    diagnostics
}

/// Deterministic semantic diagnostic product for one exact logical surface.
#[derive(Clone, Debug, PartialEq, Eq)]
pub struct SemanticDiagnosticReport {
    surface: SurfaceId,
    diagnostics: Vec<SemanticDiagnostic>,
}

impl View for SemanticDiagnosticReport {
    type V = (SurfaceId, Seq<SemanticDiagnostic>);

    closed spec fn view(&self) -> (SurfaceId, Seq<SemanticDiagnostic>) {
        (self.surface, self.diagnostics@)
    }
}

impl SemanticDiagnosticReport {
    /// Report of `surface` holding `diagnostics` in publication order.
    pub fn new(surface: SurfaceId, diagnostics: Vec<SemanticDiagnostic>) -> (report: Self)
        ensures
            report@ == (surface, diagnostics@),
    {
        SemanticDiagnosticReport { surface, diagnostics }
    }

    /// Report of `surface`: the withdrawal diagnostics first, then the composition
    /// diagnostics in order, each as its publication diagnostic.
    pub fn from_parts(
        surface: SurfaceId,
        withdrawals: Vec<SemanticDiagnostic>,
        composition: &Vec<SemanticCompositionDiagnostic>,
    ) -> (report: Self)
        ensures
            report@.0 == surface,
            report@.1 == withdrawals@ + composition@.map_values(|d: SemanticCompositionDiagnostic| spec_from_composition(d)),
    {
        let mut diagnostics = withdrawals;
        let ghost base = diagnostics@;
        let mut i: usize = 0;
        while i < composition.len()
            invariant
                i <= composition@.len(),
                diagnostics@ == base + composition@.subrange(0, i as int).map_values(
                    |d: SemanticCompositionDiagnostic| spec_from_composition(d),
                ),
            decreases composition.len() - i,
        {
            let d = diagnostic_of(&composition[i]);
            diagnostics.push(d);
            proof {
                assert(composition@.subrange(0, i + 1) =~= composition@.subrange(0, i as int).push(composition@[i as int]));
            }
            i = i + 1;
        }
        proof {
            assert(composition@.subrange(0, composition@.len() as int) =~= composition@);
        }
        SemanticDiagnosticReport { surface, diagnostics }
    }

    /// The exact logical surface owning these diagnostics.
    pub fn surface_id(&self) -> (surface: &SurfaceId)
        ensures
            *surface == self@.0,
    {
        &self.surface
    }

    /// The diagnostics in deterministic publication order.
    pub fn diagnostics(&self) -> (diagnostics: &[SemanticDiagnostic])
        ensures
            diagnostics@ == self@.1,
    {
        self.diagnostics.as_slice()
    }

    /// Whether this publication has no semantic diagnostics.
    pub fn is_empty(&self) -> (empty: bool)
        ensures
            empty == (self@.1.len() == 0),
    {
        self.diagnostics.len() == 0
    }
}

} // verus!
