use runenui_runtime::ids::{MountedNodeId, SemanticNodeId};
use runenui_runtime::semantic::{SemanticBounds, SemanticCompositionDiagnostic};
use runenui_runtime::semantic_compose::{
    compose_semantics, AuthoredRelationship, ContributionBounds, Focusability, SemanticItem,
    SemanticNodeContribution, SemanticOwnerFacts, SemanticReference, ACTION_ACTIVATE,
    ACTION_OPEN_MENU, ACTION_REQUEST_FOCUS, PRIMARY_SEMANTIC_KEY,
};

const GROUP: u32 = 1;
const TEXT: u32 = 2;
const BUTTON: u32 = 3;
const LABELLED_BY: u32 = 1;
const CONTROLS: u32 = 2;
const BEFORE: u64 = 10;
const AFTER: u64 = 11;
const NAMED: u64 = 12;
const VIRTUAL: u64 = 13;

fn mounted(slot: u64) -> MountedNodeId {
    MountedNodeId { namespace: 1, slot, generation: 1 }
}

fn semantic(slot: u64) -> SemanticNodeId {
    SemanticNodeId { namespace: 1, slot, generation: 1 }
}

fn rect(x: f32, y: f32, width: f32, height: f32) -> SemanticBounds {
    SemanticBounds { x: x.to_bits(), y: y.to_bits(), width: width.to_bits(), height: height.to_bits() }
}

fn node(key: u64, role: u32) -> SemanticNodeContribution {
    SemanticNodeContribution {
        key,
        hidden: false,
        disabled: false,
        inert: false,
        role,
        name: None,
        description: None,
        value: None,
        actions: Vec::new(),
        relationships: Vec::new(),
        bounds: ContributionBounds::Owner,
        text: None,
        children: Vec::new(),
    }
}

fn owner(id: MountedNodeId, children: Vec<MountedNodeId>, roots: Vec<SemanticItem>, bindings: Vec<(u64, SemanticNodeId)>, bounds: SemanticBounds) -> SemanticOwnerFacts {
    SemanticOwnerFacts {
        id,
        authored_id: None,
        mounted_children: children,
        roots,
        bindings,
        bounds,
        enabled: true,
        actionable: false,
        focusability: Focusability::NotFocusable,
    }
}

#[test]
fn transparent_owner_and_marker_preserve_exact_semantic_order() {
    let (root, control, leaf) = (mounted(0), mounted(1), mounted(2));
    let (control_primary, before_id, after_id, leaf_primary) = (semantic(0), semantic(1), semantic(2), semantic(3));
    let mut group = node(PRIMARY_SEMANTIC_KEY, GROUP);
    group.children = vec![
        SemanticItem::Node(node(BEFORE, TEXT)),
        SemanticItem::MountedChildren,
        SemanticItem::Node(node(AFTER, TEXT)),
    ];
    let owners = vec![
        owner(root, vec![control], Vec::new(), Vec::new(), rect(0.0, 0.0, 100.0, 100.0)),
        owner(
            control,
            vec![leaf],
            vec![SemanticItem::Node(group)],
            vec![(PRIMARY_SEMANTIC_KEY, control_primary), (BEFORE, before_id), (AFTER, after_id)],
            rect(10.0, 20.0, 50.0, 40.0),
        ),
        owner(
            leaf,
            Vec::new(),
            vec![SemanticItem::Node(node(PRIMARY_SEMANTIC_KEY, TEXT))],
            vec![(PRIMARY_SEMANTIC_KEY, leaf_primary)],
            rect(12.0, 22.0, 10.0, 5.0),
        ),
    ];
    let candidate = compose_semantics(&owners, Some(root), None);
    assert!(candidate.diagnostics.is_empty());
    assert_eq!(candidate.roots, vec![control_primary]);
    assert_eq!(candidate.nodes[0].children, vec![before_id, leaf_primary, after_id]);
    assert_eq!(candidate.nodes[1].parent, Some(control_primary));
    assert_eq!(candidate.nodes[2].parent, Some(control_primary));
    assert_eq!(candidate.nodes[3].parent, Some(control_primary));
    assert_eq!(
        candidate.nodes.iter().map(|n| n.id).collect::<Vec<_>>(),
        vec![control_primary, before_id, leaf_primary, after_id]
    );
    assert_eq!(candidate.nodes[2].bounds, rect(12.0, 22.0, 10.0, 5.0));
}

#[test]
fn hidden_semantic_subtree_also_hides_spliced_mounted_children() {
    let (owner_id, child) = (mounted(0), mounted(1));
    let mut hidden = node(PRIMARY_SEMANTIC_KEY, GROUP);
    hidden.hidden = true;
    hidden.children = vec![SemanticItem::MountedChildren];
    let owners = vec![
        owner(owner_id, vec![child], vec![SemanticItem::Node(hidden)], vec![(PRIMARY_SEMANTIC_KEY, semantic(0))], rect(0.0, 0.0, 20.0, 20.0)),
        owner(
            child,
            Vec::new(),
            vec![SemanticItem::Node(node(PRIMARY_SEMANTIC_KEY, TEXT))],
            vec![(PRIMARY_SEMANTIC_KEY, semantic(1))],
            rect(1.0, 1.0, 5.0, 5.0),
        ),
    ];
    let candidate = compose_semantics(&owners, Some(owner_id), Some(owner_id));
    assert!(candidate.roots.is_empty());
    assert!(candidate.nodes.is_empty());
    assert!(candidate.focused.is_none());
    assert_eq!(candidate.diagnostics, vec![SemanticCompositionDiagnostic::FocusedOwnerMissingVisiblePrimary]);
}

#[test]
fn support_state_and_owner_local_bounds_are_composed_without_availability_guessing() {
    let owner_id = mounted(0);
    let (primary_id, virtual_id) = (semantic(0), semantic(1));
    let mut primary = node(PRIMARY_SEMANTIC_KEY, BUTTON);
    primary.actions = vec![ACTION_ACTIVATE, ACTION_REQUEST_FOCUS, ACTION_OPEN_MENU];
    primary.bounds = ContributionBounds::Resolved(rect(12.0, 23.0, 4.0, 5.0));
    let mut virtual_node = node(VIRTUAL, BUTTON);
    virtual_node.disabled = true;
    virtual_node.actions = vec![ACTION_ACTIVATE];
    primary.children = vec![SemanticItem::Node(virtual_node)];
    let owners = vec![SemanticOwnerFacts {
        id: owner_id,
        authored_id: None,
        mounted_children: Vec::new(),
        roots: vec![SemanticItem::Node(primary)],
        bindings: vec![(PRIMARY_SEMANTIC_KEY, primary_id), (VIRTUAL, virtual_id)],
        bounds: rect(10.0, 20.0, 30.0, 40.0),
        enabled: false,
        actionable: false,
        focusability: Focusability::Focusable,
    }];
    let candidate = compose_semantics(&owners, Some(owner_id), None);
    let primary = &candidate.nodes[0];
    let virtual_node = &candidate.nodes[1];
    assert!(primary.state.disabled());
    assert_eq!(primary.supported_actions, vec![ACTION_REQUEST_FOCUS, ACTION_OPEN_MENU]);
    assert_eq!(primary.bounds, rect(12.0, 23.0, 4.0, 5.0));
    assert!(virtual_node.state.disabled());
    assert_eq!(virtual_node.supported_actions, vec![ACTION_ACTIVATE]);
    assert_eq!(virtual_node.bounds, rect(10.0, 20.0, 30.0, 40.0));
    assert_eq!(virtual_node.id, virtual_id);
    assert_eq!(primary.id, primary_id);
}

#[test]
fn relationships_and_focus_use_exact_visible_targets_without_fallback() {
    let (root, source_owner, target_owner) = (mounted(0), mounted(1), mounted(2));
    let (source_primary, source_named, target_primary) = (semantic(0), semantic(1), semantic(2));
    let mut source = node(PRIMARY_SEMANTIC_KEY, GROUP);
    source.relationships = vec![
        AuthoredRelationship { kind: LABELLED_BY, target: SemanticReference::Local(NAMED) },
        AuthoredRelationship {
            kind: CONTROLS,
            target: SemanticReference::Authored { element_id: "target".to_owned(), semantic_key: None },
        },
    ];
    source.children = vec![SemanticItem::Node(node(NAMED, TEXT))];
    let mut source_facts = owner(
        source_owner,
        Vec::new(),
        vec![SemanticItem::Node(source)],
        vec![(PRIMARY_SEMANTIC_KEY, source_primary), (NAMED, source_named)],
        rect(0.0, 0.0, 20.0, 20.0),
    );
    source_facts.authored_id = Some("source".to_owned());
    let mut target_facts = owner(
        target_owner,
        Vec::new(),
        vec![SemanticItem::Node(node(PRIMARY_SEMANTIC_KEY, BUTTON))],
        vec![(PRIMARY_SEMANTIC_KEY, target_primary)],
        rect(30.0, 0.0, 20.0, 20.0),
    );
    target_facts.authored_id = Some("target".to_owned());
    let owners = vec![
        owner(root, vec![source_owner, target_owner], Vec::new(), Vec::new(), rect(0.0, 0.0, 100.0, 100.0)),
        source_facts,
        target_facts,
    ];
    let candidate = compose_semantics(&owners, Some(root), Some(source_owner));
    assert!(candidate.diagnostics.is_empty());
    assert_eq!(candidate.focused, Some(source_primary));
    assert_eq!(candidate.nodes[0].relationships.len(), 2);
    assert_eq!(candidate.nodes[0].relationships[0].target, source_named);
    assert_eq!(candidate.nodes[0].relationships[1].target, target_primary);
}

#[test]
fn unresolvable_references_are_reported_in_order() {
    let owner_id = mounted(0);
    let mut primary = node(PRIMARY_SEMANTIC_KEY, GROUP);
    primary.relationships = vec![
        AuthoredRelationship { kind: LABELLED_BY, target: SemanticReference::Local(NAMED) },
        AuthoredRelationship {
            kind: CONTROLS,
            target: SemanticReference::Authored { element_id: "nowhere".to_owned(), semantic_key: Some(4) },
        },
    ];
    primary.children = vec![SemanticItem::Node(node(VIRTUAL, TEXT))];
    let owners = vec![owner(owner_id, vec![mounted(9)], vec![SemanticItem::Node(primary), SemanticItem::MountedChildren], vec![(PRIMARY_SEMANTIC_KEY, semantic(0))], rect(0.0, 0.0, 1.0, 1.0))];
    let candidate = compose_semantics(&owners, Some(owner_id), None);
    assert_eq!(candidate.roots, vec![semantic(0)]);
    assert_eq!(
        candidate.diagnostics,
        vec![
            SemanticCompositionDiagnostic::MissingOwnerBinding { key: VIRTUAL },
            SemanticCompositionDiagnostic::MissingMountedOwner,
            SemanticCompositionDiagnostic::MissingLocalRelationshipTarget { source: semantic(0), key: NAMED },
            SemanticCompositionDiagnostic::MissingAuthoredRelationshipOwner {
                source: semantic(0),
                element_id: "nowhere".to_owned(),
            },
        ]
    );
    assert!(candidate.nodes[0].relationships.is_empty());
    let missing_root = compose_semantics(&owners, Some(mounted(7)), None);
    assert_eq!(missing_root.diagnostics, vec![SemanticCompositionDiagnostic::MissingMountedOwner]);
    assert!(missing_root.nodes.is_empty());
}
