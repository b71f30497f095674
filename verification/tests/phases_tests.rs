use runenui_runtime::ids::MountedNodeId;
use runenui_runtime::interaction::{
    layout_context_changed, same_membership, style_product_is_dirty, SurfaceInteractionProjection,
};
use runenui_runtime::phases::{
    complete_non_structural_publication_phases, dirty_after_motion, fold_effects, non_structural_outcome,
    plan_publication_phases, publication_is_structural, publication_needs_recompose,
    structural_phase_report, surface_capability_phases, DirtyPhase, DirtyPhases, EffectiveEffects,
    LayoutOverflow, RasterScaleError, SurfacePhase, SurfacePhaseReport,
};

fn ids() -> (MountedNodeId, MountedNodeId) {
    (MountedNodeId { namespace: 1, slot: 0, generation: 1 }, MountedNodeId { namespace: 1, slot: 1, generation: 1 })
}

#[test]
fn membership_comparison_ignores_projection_order() {
    let (a, b) = ids();
    let left = SurfaceInteractionProjection::new(vec![a, b], vec![a, b], Some(a));
    let right = SurfaceInteractionProjection::new(vec![b, a], vec![b, a], Some(a));
    assert!(!left.content_differs(&right));
}

#[test]
fn projections_differ_on_focus_or_membership() {
    let (a, b) = ids();
    let base = SurfaceInteractionProjection::new(vec![a], vec![], Some(a));
    assert!(base.content_differs(&SurfaceInteractionProjection::new(vec![a], vec![], Some(b))));
    assert!(base.content_differs(&SurfaceInteractionProjection::new(vec![a, b], vec![], Some(a))));
    assert!(base.content_differs(&SurfaceInteractionProjection::new(vec![a], vec![b], Some(a))));
    assert!(!same_membership(&vec![a], &vec![b]));
    let facts = base.facts_for(&a);
    assert!(facts.hover && facts.focus && !facts.active);
    let none = SurfaceInteractionProjection::empty().facts_for(&b);
    assert!(!none.hover && !none.focus && !none.active);
}

#[test]
fn report_records_each_phase_once_in_first_order() {
    let mut report = SurfacePhaseReport::default();
    report.record(SurfacePhase::Style);
    report.record(SurfacePhase::Layout);
    report.record(SurfacePhase::Style);
    assert_eq!(report.executed(), &[SurfacePhase::Style, SurfacePhase::Layout]);
    assert!(report.contains(SurfacePhase::Layout));
    assert!(!report.contains(SurfacePhase::Paint));
    assert_eq!(SurfacePhaseReport::one(SurfacePhase::FocusValidation).executed(), &[SurfacePhase::FocusValidation]);
}

#[test]
fn structural_rebuild_enters_every_conservative_phase() {
    assert_eq!(
        structural_phase_report().executed(),
        &[
            SurfacePhase::Tree,
            SurfacePhase::Style,
            SurfacePhase::Layout,
            SurfacePhase::HitTesting,
            SurfacePhase::Paint,
            SurfacePhase::Semantics,
            SurfacePhase::Diagnostics,
        ]
    );
    assert!(publication_is_structural(false, DirtyPhases::none()));
    let mut tree = DirtyPhases::none();
    tree.insert(DirtyPhase::Tree);
    assert!(publication_is_structural(true, tree));
    let mut style = DirtyPhases::none();
    style.insert(DirtyPhase::Style);
    assert!(!publication_is_structural(true, style));
}

#[test]
fn dirty_phase_sets_insert_and_contain() {
    let mut phases = DirtyPhases::default();
    assert!(!phases.contains(DirtyPhase::Paint));
    phases.insert(DirtyPhase::Paint);
    assert!(phases.contains(DirtyPhase::Paint));
    assert!(!phases.contains(DirtyPhase::Layout));
    assert!(DirtyPhases::all().contains(DirtyPhase::Motion));
}

#[test]
fn capability_phases_keep_only_flagged_entries() {
    let phases = surface_capability_phases([
        (true, DirtyPhase::Layout),
        (false, DirtyPhase::HitTest),
        (true, DirtyPhase::Paint),
        (false, DirtyPhase::Diagnostics),
    ]);
    assert!(phases.contains(DirtyPhase::Layout));
    assert!(!phases.contains(DirtyPhase::HitTest));
    assert!(phases.contains(DirtyPhase::Paint));
    assert!(!phases.contains(DirtyPhase::Diagnostics));
}

#[test]
fn presentation_change_adds_hit_paint_and_semantics() {
    let (phases, semantic) = complete_non_structural_publication_phases(DirtyPhases::none(), true, DirtyPhases::none());
    assert!(semantic);
    assert!(phases.contains(DirtyPhase::HitTest) && phases.contains(DirtyPhase::Paint) && phases.contains(DirtyPhase::Semantics));
    let mut focus = DirtyPhases::none();
    focus.insert(DirtyPhase::FocusValidation);
    let (phases, semantic) = complete_non_structural_publication_phases(focus, false, DirtyPhases::none());
    assert!(semantic && phases.contains(DirtyPhase::Semantics) && !phases.contains(DirtyPhase::Paint));
    let (phases, semantic) = complete_non_structural_publication_phases(DirtyPhases::none(), false, DirtyPhases::none());
    assert!(!semantic && !phases.contains(DirtyPhase::Semantics));
}

#[test]
fn motion_effects_extend_dirtiness() {
    let layout = EffectiveEffects { layout: true, paint: false, presentation: false };
    assert_eq!(dirty_after_motion(layout, false, false), (true, true, false));
    let paint = EffectiveEffects { layout: false, paint: true, presentation: false };
    assert_eq!(dirty_after_motion(paint, false, false), (false, false, true));
    let presentation = EffectiveEffects { layout: false, paint: false, presentation: true };
    assert_eq!(dirty_after_motion(presentation, false, true), (false, true, true));
}

#[test]
fn layout_context_change_plans_layout_presentation_and_semantics() {
    let plan = plan_publication_phases(DirtyPhases::none(), true, EffectiveEffects::default());
    assert!(plan.layout && plan.presentation && plan.semantics);
    assert!(plan.phases.contains(DirtyPhase::Layout) && plan.phases.contains(DirtyPhase::HitTest));
    let idle = plan_publication_phases(DirtyPhases::none(), false, EffectiveEffects::default());
    assert!(!idle.layout && !idle.presentation && !idle.semantics);
    assert!(!idle.phases.contains(DirtyPhase::Paint));
    let mut diagnostics = DirtyPhases::none();
    diagnostics.insert(DirtyPhase::Diagnostics);
    let (report, completed) = non_structural_outcome(diagnostics, true, idle);
    assert_eq!(report.executed(), &[SurfacePhase::Style, SurfacePhase::Diagnostics]);
    assert!(completed.contains(DirtyPhase::Motion) && completed.contains(DirtyPhase::Style));
    assert!(!completed.contains(DirtyPhase::Layout));
}

#[test]
fn recompose_follows_style_layout_diagnostics_or_changes() {
    let mut report = SurfacePhaseReport::new();
    assert!(!publication_needs_recompose(false, &report, false));
    assert!(publication_needs_recompose(true, &report, false));
    assert!(publication_needs_recompose(false, &report, true));
    report.record(SurfacePhase::Paint);
    assert!(!publication_needs_recompose(false, &report, false));
    report.record(SurfacePhase::Layout);
    assert!(publication_needs_recompose(false, &report, false));
}

#[test]
fn style_and_layout_context_dirtiness() {
    let (a, _) = ids();
    let retained = SurfaceInteractionProjection::new(vec![a], vec![], None);
    let same = SurfaceInteractionProjection::new(vec![a], vec![], None);
    assert!(!style_product_is_dirty(DirtyPhases::none(), false, &retained, &same));
    assert!(style_product_is_dirty(DirtyPhases::none(), true, &retained, &same));
    assert!(style_product_is_dirty(DirtyPhases::none(), false, &retained, &SurfaceInteractionProjection::empty()));
    assert!(!layout_context_changed(&[1, 2, 3, 4], &[1, 2, 3, 4], false));
    assert!(layout_context_changed(&[1, 2, 3, 4], &[1, 2, 3, 5], false));
    assert!(layout_context_changed(&[1, 2, 3, 4], &[1, 2, 3, 4], true));
}

#[test]
fn overflow_and_raster_scale_errors() {
    let overflow = LayoutOverflow::new(true, false);
    assert!(overflow.width() && !overflow.height() && overflow.any());
    assert!(!LayoutOverflow::default().any());
    assert_eq!(RasterScaleError::NotFinite.message(), "raster scale must be finite");
    assert_eq!(RasterScaleError::NotPositive.message(), "raster scale must be strictly positive");
}

#[test]
fn folded_effects_are_the_union_of_node_effects() {
    let effects = fold_effects(&vec![
        EffectiveEffects { layout: false, paint: true, presentation: false },
        EffectiveEffects { layout: false, paint: false, presentation: true },
    ]);
    assert_eq!(effects, EffectiveEffects { layout: false, paint: true, presentation: true });
    assert_eq!(fold_effects(&vec![]), EffectiveEffects::default());
}
