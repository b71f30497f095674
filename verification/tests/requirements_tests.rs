use runenui_runtime::ids::MountedNodeId;
use runenui_runtime::requirements::{
    canonical_resource_kinds, contains_mounted_target, topmost_target, PointerPolicy,
    SceneCapabilities, SceneRequirements, UnsupportedSceneRequirement,
};

const IMAGE: u64 = 1;
const SHAPED_TEXT_RUN: u64 = 2;
const GRADIENT: u64 = 3;

#[test]
fn capabilities_are_canonicalized_by_kind() {
    let capabilities = SceneCapabilities::new(&vec![SHAPED_TEXT_RUN, IMAGE, SHAPED_TEXT_RUN]);
    assert_eq!(capabilities.resource_kinds(), &[IMAGE, SHAPED_TEXT_RUN]);
}

#[test]
fn canonical_kinds_sort_and_drop_repeats() {
    assert_eq!(canonical_resource_kinds(&vec![3, 1, 3, 2, 1]), vec![1, 2, 3]);
    assert!(canonical_resource_kinds(&vec![]).is_empty());
}

#[test]
fn requirements_come_from_referenced_kinds_only() {
    let requirements = SceneRequirements::from_item_kinds(&vec![None, Some(GRADIENT), Some(IMAGE), None, Some(GRADIENT)]);
    assert_eq!(requirements.resource_kinds(), &[IMAGE, GRADIENT]);
    assert!(!requirements.is_empty());
    assert!(SceneRequirements::from_item_kinds(&vec![None]).is_empty());
}

#[test]
fn capability_check_reports_the_first_unsupported_kind() {
    let capabilities = SceneCapabilities::new(&vec![IMAGE]);
    assert!(capabilities.supports_resource_kind(IMAGE));
    assert!(!capabilities.supports_resource_kind(GRADIENT));
    let requirements = SceneRequirements::from_item_kinds(&vec![Some(GRADIENT), Some(SHAPED_TEXT_RUN), Some(IMAGE)]);
    let error = capabilities.check_requirements(&requirements).unwrap_err();
    assert_eq!(error, UnsupportedSceneRequirement { resource_kind: SHAPED_TEXT_RUN });
    assert_eq!(error.resource_kind(), SHAPED_TEXT_RUN);
    assert_eq!(error.code(), "runenui.scene.unsupported-resource-kind");
    let all = SceneCapabilities::new(&vec![GRADIENT, IMAGE, SHAPED_TEXT_RUN]);
    assert_eq!(all.check_requirements(&requirements), Ok(()));
    assert!(SceneCapabilities::default().resource_kinds().is_empty());
}

#[test]
fn topmost_covering_region_decides_the_target() {
    let a = MountedNodeId { namespace: 1, slot: 1, generation: 1 };
    let b = MountedNodeId { namespace: 1, slot: 2, generation: 1 };
    let regions = vec![(a, PointerPolicy::Target), (b, PointerPolicy::Target), (a, PointerPolicy::Block)];
    assert_eq!(topmost_target(&regions, &vec![true, true, false]), Some(b));
    assert_eq!(topmost_target(&regions, &vec![true, false, false]), Some(a));
    assert_eq!(topmost_target(&regions, &vec![true, true, true]), None);
    assert_eq!(topmost_target(&regions, &vec![false, false, false]), None);
    assert!(contains_mounted_target(&vec![a, b], &b));
    assert!(!contains_mounted_target(&vec![a], &b));
}
