use runenui_runtime::ids::{SemanticNodeId, SurfaceId};
use runenui_runtime::semantic::SemanticCompositionDiagnostic;
use runenui_runtime::semantic_diagnostic::{
    withdrawal_diagnostics, OwnerWithdrawal, SemanticDiagnostic, SemanticDiagnosticReport,
    SemanticOwnerWithdrawalReason,
};

fn source() -> SemanticNodeId {
    SemanticNodeId { namespace: 1, slot: 3, generation: 1 }
}

#[test]
fn composition_diagnostics_keep_their_fields() {
    let d = SemanticDiagnostic::from(SemanticCompositionDiagnostic::MissingAuthoredRelationshipTarget {
        source: source(),
        element_id: String::from("label"),
        key: 7,
    });
    assert_eq!(
        d,
        SemanticDiagnostic::MissingAuthoredRelationshipTarget {
            source: source(),
            element_id: String::from("label"),
            key: 7,
        }
    );
    assert_eq!(
        SemanticDiagnostic::from(SemanticCompositionDiagnostic::FocusedOwnerMissingVisiblePrimary),
        SemanticDiagnostic::FocusedOwnerMissingVisiblePrimary
    );
}

#[test]
fn only_withdrawn_owners_are_reported_in_owner_order() {
    let owners = vec![
        OwnerWithdrawal { authored_id: Some(String::from("a")), reason: None },
        OwnerWithdrawal {
            authored_id: Some(String::from("b")),
            reason: Some(SemanticOwnerWithdrawalReason::IdentityExhausted),
        },
        OwnerWithdrawal { authored_id: None, reason: Some(SemanticOwnerWithdrawalReason::InvalidContribution(4)) },
    ];
    assert_eq!(
        withdrawal_diagnostics(&owners),
        vec![
            SemanticDiagnostic::OwnerWithdrawn {
                authored_id: Some(String::from("b")),
                reason: SemanticOwnerWithdrawalReason::IdentityExhausted,
            },
            SemanticDiagnostic::OwnerWithdrawn {
                authored_id: None,
                reason: SemanticOwnerWithdrawalReason::InvalidContribution(4),
            },
        ]
    );
}

#[test]
fn report_lists_withdrawals_before_composition_diagnostics() {
    let surface = SurfaceId { namespace: 1, slot: 1, generation: 2 };
    let withdrawals = vec![SemanticDiagnostic::OwnerWithdrawn {
        authored_id: None,
        reason: SemanticOwnerWithdrawalReason::StatePayloadMismatch,
    }];
    let composition = vec![SemanticCompositionDiagnostic::MissingOwnerBinding { key: 9 }];
    let report = SemanticDiagnosticReport::from_parts(surface, withdrawals, &composition);
    assert_eq!(*report.surface_id(), surface);
    assert!(!report.is_empty());
    assert_eq!(report.diagnostics().len(), 2);
    assert_eq!(report.diagnostics()[1], SemanticDiagnostic::MissingOwnerBinding { key: 9 });
    assert!(SemanticDiagnosticReport::new(surface, Vec::new()).is_empty());
}
