use runenui_runtime::composition::{
    derive_composition_groups, scene_group_ids, stable_sort_by_anchor, topology_parents,
    ExplicitGroupId, GroupSource, ResolvedExplicitGroup,
};
use runenui_runtime::ids::MountedNodeId;
use runenui_runtime::scene::{PaintRevision, PaintSceneComposition, PaintSceneEntry, PaintSceneGroupId};

#[test]
fn first_member_contraction_ordering_is_stable_for_entries() {
    let group = PaintSceneGroupId::new(0);
    let mut entries = [
        (2, PaintSceneEntry::item(2)),
        (0, PaintSceneEntry::group(group)),
        (1, PaintSceneEntry::item(1)),
    ];
    entries.sort_by_key(|(anchor, _)| *anchor);
    assert_eq!(entries[0].1.group_id(), Some(group));
    assert_eq!(entries[1].1.item_index(), Some(1));
    assert_eq!(entries[2].1.item_index(), Some(2));
}

#[test]
fn stable_sort_keeps_input_order_among_equal_anchors() {
    let input = vec![
        (2usize, PaintSceneEntry::item(5)),
        (0usize, PaintSceneEntry::item(7)),
        (2usize, PaintSceneEntry::item(3)),
        (0usize, PaintSceneEntry::group(PaintSceneGroupId::new(1))),
    ];
    let sorted = stable_sort_by_anchor(&input);
    let anchors: Vec<usize> = sorted.iter().map(|(a, _)| *a).collect();
    assert_eq!(anchors, vec![0, 0, 2, 2]);
    assert_eq!(sorted[0].1.item_index(), Some(7));
    assert_eq!(sorted[1].1.group_id(), Some(PaintSceneGroupId::new(1)));
    assert_eq!(sorted[2].1.item_index(), Some(5));
    assert_eq!(sorted[3].1.item_index(), Some(3));
}

#[test]
fn paint_revision_refuses_zero() {
    assert!(PaintRevision::new(0).is_none());
    assert_eq!(PaintRevision::new(7).map(PaintRevision::get), Some(7));
}

#[test]
fn entries_report_exactly_one_kind() {
    let item = PaintSceneEntry::item(4);
    let group = PaintSceneEntry::group(PaintSceneGroupId::new(2));
    assert_eq!(item.item_index(), Some(4));
    assert_eq!(item.group_id(), None);
    assert_eq!(group.item_index(), None);
    assert_eq!(group.group_id().map(PaintSceneGroupId::index), Some(2));
}

#[test]
fn group_ids_are_dense_in_candidate_order() {
    let ids = scene_group_ids(&vec![None, Some(3), None, Some(0), Some(1)]);
    let indices: Vec<Option<usize>> = ids.iter().map(|id| id.map(PaintSceneGroupId::index)).collect();
    assert_eq!(indices, vec![None, Some(0), None, Some(1), Some(2)]);
}

#[test]
fn topology_parents_resolve_by_identity() {
    let a = MountedNodeId { namespace: 1, slot: 0, generation: 1 };
    let b = MountedNodeId { namespace: 1, slot: 1, generation: 1 };
    let c = MountedNodeId { namespace: 1, slot: 2, generation: 1 };
    let parents = topology_parents(&vec![a, b, c], &vec![None, Some(a), Some(b)]);
    assert_eq!(parents, vec![None, Some(0), Some(1)]);
}

#[test]
fn ungrouped_items_publish_flat_root_entries() {
    let composition = PaintSceneComposition::ungrouped(3);
    assert!(composition.groups().is_empty());
    let items: Vec<Option<usize>> = composition.root_entries().iter().map(|e| e.item_index()).collect();
    assert_eq!(items, vec![Some(0), Some(1), Some(2)]);
}

#[test]
fn node_group_contracts_at_its_first_item() {
    // Root node 0 with child 1 that requires a node-effect group; three items:
    // item 0 owned by the root, items 1 and 2 owned by the grouped child.
    let composed = derive_composition_groups(
        &vec![None, Some(0)],
        &vec![false, true],
        &Vec::<ResolvedExplicitGroup>::new(),
        &vec![0, 1, 1],
        &vec![None, None, None],
    );
    let groups: Vec<Option<usize>> = composed.item_groups.iter().map(|g| g.map(PaintSceneGroupId::index)).collect();
    assert_eq!(groups, vec![None, Some(0), Some(0)]);
    let composition = &composed.composition;
    assert_eq!(composition.groups().len(), 1);
    let root = composition.root_entries();
    assert_eq!(root.len(), 2);
    assert_eq!(root[0].item_index(), Some(0));
    assert_eq!(root[1].group_id(), Some(PaintSceneGroupId::new(0)));
    let group = composition.group(PaintSceneGroupId::new(0)).unwrap();
    assert_eq!(group.source(), GroupSource::Node(1));
    let members: Vec<Option<usize>> = group.entries().iter().map(|e| e.item_index()).collect();
    assert_eq!(members, vec![Some(1), Some(2)]);
}

#[test]
fn explicit_group_nests_inside_its_owner_node_group() {
    let composed = derive_composition_groups(
        &vec![None],
        &vec![true],
        &vec![ResolvedExplicitGroup { owner: 0, parent: None }],
        &vec![0, 0],
        &vec![None, Some(ExplicitGroupId::new(0))],
    );
    let groups: Vec<Option<usize>> = composed.item_groups.iter().map(|g| g.map(PaintSceneGroupId::index)).collect();
    assert_eq!(groups, vec![Some(0), Some(1)]);
    let explicit = composed.composition.group(PaintSceneGroupId::new(1)).unwrap();
    assert_eq!(explicit.source(), GroupSource::Explicit(ExplicitGroupId::new(0)));
    assert_eq!(explicit.parent(), Some(PaintSceneGroupId::new(0)));
}
