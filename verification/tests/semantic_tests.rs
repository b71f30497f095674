use runenui_runtime::ids::{SemanticNodeId, SurfaceId};
use runenui_runtime::semantic::{
    publication_from_candidate, semantic_update, SemanticBounds, SemanticCandidate,
    SemanticCompositionDiagnostic, SemanticFocusChange, SemanticNode, SemanticNodeState,
    SemanticPublication, SemanticPublicationPlanError, SemanticPublicationState, SemanticRevision,
    SemanticSnapshot, SemanticUpdate, SemanticUpdateResult,
};

const BUTTON: u32 = 1;

fn surface() -> SurfaceId {
    SurfaceId { namespace: 1, slot: 0, generation: 1 }
}

fn node_id(slot: u64) -> SemanticNodeId {
    SemanticNodeId { namespace: 1, slot, generation: 1 }
}

fn bounds(width: f32) -> SemanticBounds {
    SemanticBounds { x: 0.0f32.to_bits(), y: 0.0f32.to_bits(), width: width.to_bits(), height: 10.0f32.to_bits() }
}

fn node(id: SemanticNodeId, width: f32) -> SemanticNode {
    SemanticNode {
        id,
        parent: None,
        children: Vec::new(),
        role: BUTTON,
        name: Some("Save".to_owned()),
        description: None,
        value: None,
        state: SemanticNodeState::default(),
        supported_actions: Vec::new(),
        relationships: Vec::new(),
        bounds: bounds(width),
        text: None,
    }
}

fn candidate(width: f32, diagnostics: Vec<SemanticCompositionDiagnostic>) -> SemanticCandidate {
    let id = node_id(0);
    SemanticCandidate { roots: vec![id], nodes: vec![node(id, width)], focused: Some(id), diagnostics }
}

fn snapshot(revision: SemanticRevision) -> SemanticSnapshot {
    let id = node_id(0);
    SemanticSnapshot::new(surface(), revision, vec![id], vec![node(id, 10.0)], Some(id))
}

#[test]
fn exact_id_lookup_is_independent_from_tree_position() {
    let snapshot = snapshot(SemanticRevision::first());
    let id = snapshot.roots()[0];
    assert_eq!(snapshot.node(&id).map(|n| n.id), Some(id));
    assert_eq!(snapshot.focused(), Some(&id));
}

#[test]
fn update_selection_requires_exact_surface_and_previous_revision() {
    let current_revision = SemanticRevision::new(2).expect("test revision is non-zero");
    let snapshot = snapshot(current_revision);
    let previous_revision = SemanticRevision::first();
    let changed: Vec<SemanticNode> = snapshot.nodes().iter().map(|n| n.duplicate()).collect();
    let update = SemanticUpdate::new(
        *snapshot.surface_id(),
        previous_revision,
        current_revision,
        Vec::new(),
        Vec::new(),
        changed,
        None,
        None,
    );
    let publication = SemanticPublication::new(snapshot, Some(update));
    assert!(matches!(
        publication.update_from(publication.snapshot().surface_id(), previous_revision),
        SemanticUpdateResult::Delta(_)
    ));
    assert!(matches!(
        publication.update_from(publication.snapshot().surface_id(), current_revision),
        SemanticUpdateResult::Unchanged
    ));
    let foreign_surface = SurfaceId { namespace: 2, slot: 0, generation: 1 };
    assert!(matches!(
        publication.update_from(&foreign_surface, previous_revision),
        SemanticUpdateResult::FullResync(_)
    ));
}

#[test]
fn first_commit_is_revision_one_without_synthetic_delta() {
    let mut state = SemanticPublicationState::new();
    let plan = state.plan(&surface(), Some(candidate(10.0, Vec::new()))).expect("first semantic revision is available");
    state.commit(plan);
    let current = state.current_publication().expect("first semantic publication committed");
    assert_eq!(current.snapshot().revision(), SemanticRevision::first());
    assert!(current.update().is_none());
}

#[test]
fn unchanged_and_diagnostics_only_candidates_do_not_advance_revision() {
    let mut state = SemanticPublicationState::new();
    let initial = state.plan(&surface(), Some(candidate(10.0, Vec::new()))).expect("first semantic revision is available");
    state.commit(initial);
    let diagnostic = SemanticCompositionDiagnostic::FocusedOwnerMissingVisiblePrimary;
    let unchanged = state
        .plan(&surface(), Some(candidate(10.0, vec![diagnostic.clone()])))
        .expect("unchanged semantics need no revision");
    state.commit(unchanged);
    let current = state.current_publication().expect("semantic publication remains committed");
    assert_eq!(current.snapshot().revision(), SemanticRevision::first());
    assert_eq!(state.diagnostics(), &vec![diagnostic]);
}

#[test]
fn changed_candidate_advances_once_and_builds_exact_delta() {
    let mut state = SemanticPublicationState::new();
    let initial = state.plan(&surface(), Some(candidate(10.0, Vec::new()))).expect("first semantic revision is available");
    state.commit(initial);
    let changed = state.plan(&surface(), Some(candidate(20.0, Vec::new()))).expect("second semantic revision is available");
    state.commit(changed);
    let current = state.current_publication().expect("changed semantic publication committed");
    assert_eq!(current.snapshot().revision().get(), 2);
    let update = current.update().expect("changed publication retains one delta");
    assert_eq!(update.previous_revision(), SemanticRevision::first());
    assert!(update.removed().is_empty());
    assert!(update.added().is_empty());
    assert_eq!(update.changed().len(), 1);
    assert!(update.roots().is_none());
    assert!(update.focus().is_none());
}

#[test]
fn exhausted_revision_refuses_without_mutating_committed_publication() {
    let max_revision = SemanticRevision::new(u64::MAX).expect("maximal revision is non-zero");
    let publication = publication_from_candidate(&surface(), max_revision, candidate(10.0, Vec::new()), None);
    let state = SemanticPublicationState::from_parts(Some(publication), Vec::new());
    let result = state.plan(&surface(), Some(candidate(20.0, Vec::new())));
    assert_eq!(result.err(), Some(SemanticPublicationPlanError::RevisionExhausted));
    let current = state.current_publication().expect("failed plan keeps current publication");
    assert_eq!(current.snapshot().revision(), max_revision);
    assert_eq!(current.snapshot().nodes()[0].bounds, bounds(10.0));
}

#[test]
fn no_candidate_stages_nothing() {
    let state = SemanticPublicationState::new();
    let plan = state.plan(&surface(), None).expect("an absent candidate always plans");
    assert!(plan.publication().is_none());
    assert!(plan.diagnostics().is_none());
}

#[test]
fn revision_numbering_is_non_zero_and_checked() {
    assert!(SemanticRevision::new(0).is_none());
    assert_eq!(SemanticRevision::first().get(), 1);
    assert_eq!(SemanticRevision::first().checked_next().map(SemanticRevision::get), Some(2));
    assert!(SemanticRevision::new(u64::MAX).unwrap().checked_next().is_none());
}

#[test]
fn delta_lists_removed_added_changed_roots_and_focus() {
    let a = node_id(1);
    let b = node_id(2);
    let c = node_id(3);
    let previous = SemanticSnapshot::new(
        surface(),
        SemanticRevision::first(),
        vec![a, b],
        vec![node(a, 10.0), node(b, 10.0)],
        Some(a),
    );
    let current = SemanticSnapshot::new(
        surface(),
        SemanticRevision::new(2).unwrap(),
        vec![b, c],
        vec![node(b, 20.0), node(c, 10.0)],
        Some(c),
    );
    let update = semantic_update(&previous, &current);
    assert_eq!(update.previous_revision(), SemanticRevision::first());
    assert_eq!(update.revision().get(), 2);
    assert_eq!(update.removed(), &[a]);
    let added: Vec<SemanticNodeId> = update.added().iter().map(|n| n.id).collect();
    assert_eq!(added, vec![c]);
    let changed: Vec<SemanticNodeId> = update.changed().iter().map(|n| n.id).collect();
    assert_eq!(changed, vec![b]);
    assert_eq!(update.roots(), Some(&[b, c][..]));
    let focus = update.focus().expect("focus moved");
    assert_eq!(focus.previous(), Some(&a));
    assert_eq!(focus.current(), Some(&c));
}

#[test]
fn node_state_and_focus_change_accessors() {
    let state = SemanticNodeState::new(true, false);
    assert!(state.disabled());
    assert!(!state.inert());
    let change = SemanticFocusChange::new(None, Some(node_id(4)));
    assert_eq!(change.previous(), None);
    assert_eq!(change.current(), Some(&node_id(4)));
}
