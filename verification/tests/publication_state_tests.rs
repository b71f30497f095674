use runenui_runtime::ids::{MountedNodeId, SurfaceId};
use runenui_runtime::phases::{SurfacePhase, SurfacePhaseReport};
use runenui_runtime::publication_state::{
    RedrawAcknowledgeError, RedrawRequest, SurfaceIdentityError, SurfaceInputContext,
    SurfacePublicationState, SurfaceSnapshotError, SurfaceSnapshotKind,
};

const NAMESPACE: u64 = 7;

fn surface() -> SurfaceId {
    SurfaceId { namespace: NAMESPACE, slot: 0, generation: 1 }
}

fn target(slot: u64) -> MountedNodeId {
    MountedNodeId { namespace: NAMESPACE, slot, generation: 1 }
}

fn context(generation: u64, revision: u64) -> SurfaceInputContext {
    SurfaceInputContext { namespace: NAMESPACE, surface: surface(), coordinate_revision: revision, hit_test_generation: generation }
}

fn publish(state: &mut SurfacePublicationState, targets: Vec<MountedNodeId>) -> (u64, u64) {
    let admission = state.admit_publication().expect("counters are available");
    let (generation, revision) = admission.into_parts();
    state.commit_publication(admission, targets, None, SurfacePhaseReport::new(), None);
    (generation, revision)
}

#[test]
fn published_snapshot_is_current_then_retained_then_retired() {
    let mut state = SurfacePublicationState::new(surface(), 2);
    let first = publish(&mut state, vec![target(1)]);
    assert_eq!(first, (1, 1));
    let selection = state.validate_context(&context(1, 1)).unwrap();
    assert_eq!(selection.snapshot_kind(), SurfaceSnapshotKind::Current);
    assert_eq!(selection.hit_test_generation(), 1);
    assert_eq!(selection.coordinate_revision(), 1);

    publish(&mut state, vec![target(2)]);
    assert_eq!(state.validate_context(&context(1, 1)).unwrap().snapshot_kind(), SurfaceSnapshotKind::Retained);
    assert_eq!(state.validate_context(&context(2, 2)).unwrap().snapshot_kind(), SurfaceSnapshotKind::Current);

    publish(&mut state, vec![target(3)]);
    assert_eq!(state.validate_context(&context(1, 1)), Err(SurfaceSnapshotError::RetiredSurfaceContext));
    assert_eq!(state.validate_context(&context(9, 9)), Err(SurfaceSnapshotError::MissingSurfaceGeneration));
    assert_eq!(state.validate_context(&context(3, 2)), Err(SurfaceSnapshotError::CoordinateRevisionMismatch));
}

#[test]
fn foreign_contexts_are_refused_before_generation_lookup() {
    let mut state = SurfacePublicationState::new(surface(), 2);
    publish(&mut state, vec![target(1)]);
    let foreign_runtime = SurfaceInputContext { namespace: NAMESPACE + 1, ..context(1, 1) };
    assert_eq!(state.validate_context(&foreign_runtime), Err(SurfaceSnapshotError::ForeignSurfaceContext));
    let other_surface = SurfaceInputContext { surface: SurfaceId { namespace: 1, slot: 5, generation: 1 }, ..context(1, 1) };
    assert_eq!(state.validate_context(&other_surface), Err(SurfaceSnapshotError::ForeignSurface));
    assert_eq!(state.validate_surface_identity(&context(1, 1)), Ok(surface()));
    assert_eq!(state.validate_surface_id(&SurfaceId { namespace: NAMESPACE + 1, slot: 0, generation: 1 }), Err(SurfaceIdentityError::Foreign));
    assert_eq!(state.validate_surface_id(&SurfaceId { namespace: NAMESPACE, slot: 5, generation: 1 }), Err(SurfaceIdentityError::Wrong));
    assert_eq!(state.validate_surface_id(&surface()), Ok(()));
}

#[test]
fn resolved_targets_must_belong_to_the_named_snapshot() {
    let mut state = SurfacePublicationState::new(surface(), 2);
    publish(&mut state, vec![target(1), target(2)]);
    assert!(state.validate_resolved_target(&context(1, 1), &target(2)).is_ok());
    assert_eq!(
        state.validate_resolved_target(&context(1, 1), &target(3)),
        Err(SurfaceSnapshotError::TargetNotInSnapshot)
    );
    let resolution = state.resolve_point(&context(1, 1), Some(target(1))).unwrap();
    assert_eq!(resolution.snapshot_kind(), SurfaceSnapshotKind::Current);
    assert_eq!(resolution.into_target(), target(1));
    assert_eq!(state.resolve_point(&context(1, 1), None).err(), Some(SurfaceSnapshotError::NoTarget));
    let pointer = state.resolve_pointer_point(&context(1, 1), None).unwrap();
    assert_eq!(pointer.into_target(), None);
}

#[test]
fn clearing_the_cache_retires_every_snapshot() {
    let mut state = SurfacePublicationState::new(surface(), 4);
    publish(&mut state, vec![]);
    publish(&mut state, vec![]);
    assert_eq!(state.current_surface_input_context(), Some(context(2, 2)));
    state.clear_cache();
    assert_eq!(state.current_surface_input_context(), None);
    assert_eq!(state.validate_context(&context(2, 2)), Err(SurfaceSnapshotError::RetiredSurfaceContext));
    let (generation, revision) = publish(&mut state, vec![]);
    assert_eq!((generation, revision), (3, 3));
}

#[test]
fn paint_revisions_advance_only_for_changed_paint() {
    let mut state = SurfacePublicationState::new(surface(), 2);
    let staged = state.stage_paint_revision(false).unwrap().expect("first paint always takes a revision");
    assert_eq!(staged.0.get(), 1);
    assert!(staged.1.is_none());
    let admission = state.admit_publication().unwrap();
    state.commit_publication(admission, vec![], Some(1), SurfacePhaseReport::new(), None);
    assert_eq!(state.stage_paint_revision(false), Ok(None));
    let changed = state.stage_paint_revision(true).unwrap().unwrap();
    assert_eq!(changed.0.get(), 2);
    assert_eq!(changed.1.map(|r| r.get()), Some(1));
}

#[test]
fn redraw_requests_are_dirty_until_acknowledged() {
    let mut state = SurfacePublicationState::new(surface(), 1);
    assert!(state.is_dirty());
    let request = state.take_redraw_request().expect("initial redraw is pending");
    assert_eq!(request, RedrawRequest { namespace: NAMESPACE, revision: 1 });
    assert_eq!(state.acknowledge_redraw(&request), Ok(()));
    assert!(!state.is_dirty());
    assert!(state.take_redraw_request().is_none());
    assert_eq!(state.request_redraw(), Some(2));
    assert!(state.is_dirty());
    assert_eq!(
        state.acknowledge_redraw(&RedrawRequest { namespace: NAMESPACE + 1, revision: 2 }),
        Err(RedrawAcknowledgeError::ForeignRuntime)
    );
    assert_eq!(
        state.acknowledge_redraw(&RedrawRequest { namespace: NAMESPACE, revision: 3 }),
        Err(RedrawAcknowledgeError::FutureRevision)
    );
    assert_eq!(state.acknowledge_redraw(&RedrawRequest { namespace: NAMESPACE, revision: 1 }), Ok(()));
    assert!(state.is_dirty());
    assert_eq!(state.acknowledge_redraw(&RedrawRequest { namespace: NAMESPACE, revision: 2 }), Ok(()));
    assert!(!state.is_dirty());
    let admission = state.admit_redraw_request().unwrap();
    assert_eq!(state.commit_redraw_request(admission), 3);
}

#[test]
fn focus_validation_replaces_the_phase_report_and_motion_deadlines() {
    let mut state = SurfacePublicationState::new(surface(), 1);
    state.note_focus_validation();
    assert_eq!(state.phase_report().executed(), &[SurfacePhase::FocusValidation]);
    let admission = state.admit_publication().unwrap();
    state.commit_publication(admission, vec![], None, SurfacePhaseReport::one(SurfacePhase::Paint), Some(50));
    assert_eq!(state.phase_report().executed(), &[SurfacePhase::Paint]);
    assert_eq!(state.motion_deadline(), Some(50));
    assert!(!state.motion_deadline_is_due(49));
    assert!(state.motion_deadline_is_due(50));
    state.clear_motion_deadline();
    assert!(!state.motion_deadline_is_due(u64::MAX));
    assert!(matches!(state.admit_publication(), Ok(_)));
}

#[test]
fn retained_snapshots_form_a_bounded_ring() {
    let mut state = SurfacePublicationState::new(surface(), 2);
    for expected in 1..=3u64 {
        let admission = state.admit_publication().expect("counters are available");
        state.retain_new_snapshot(admission, vec![target(expected)]);
        assert_eq!(state.current_surface_input_context(), Some(context(expected, expected)));
    }
    assert_eq!(state.validate_context(&context(1, 1)), Err(SurfaceSnapshotError::RetiredSurfaceContext));
    assert_eq!(state.validate_context(&context(2, 2)).unwrap().snapshot_kind(), SurfaceSnapshotKind::Retained);
    assert_eq!(state.validate_resolved_target(&context(3, 3), &target(3)).unwrap().hit_test_generation(), 3);
}
