//! Composition of mounted owners' semantic contributions into one semantic candidate:
//! tree splicing, owner bindings, supported actions, relationships, and focus.

use vstd::prelude::*;

use crate::ids::{MountedNodeId, SemanticNodeId};
use crate::semantic::{
    copy_text, node_views, text_view, SemanticBounds, SemanticCandidate,
    SemanticCompositionDiagnostic, SemanticNode, SemanticNodeState, SemanticNodeView,
    SemanticRelationship,
};

verus! {

/// Key of an owner's primary semantic node.
pub const PRIMARY_SEMANTIC_KEY: u64 = 0;

/// Action code: activate the node.
pub const ACTION_ACTIVATE: u32 = 0;

/// Action code: move focus to the node.
pub const ACTION_REQUEST_FOCUS: u32 = 1;

/// Action code: open the node's menu.
pub const ACTION_OPEN_MENU: u32 = 2;

/// Action code: open the node's context menu.
pub const ACTION_OPEN_CONTEXT_MENU: u32 = 3;

/// How an owner takes focus.
#[derive(Clone, Copy, Debug, PartialEq, Eq, Structural)]
pub enum Focusability {
    /// Focusable exactly when actionable.
    Automatic,
    Focusable,
    NotFocusable,
    Hidden,
}

/// Bounds a contribution declares: its owner's, or absolute bounds already resolved from
/// owner-local ones.
#[derive(Clone, Copy, Debug, PartialEq, Eq, Structural)]
pub enum ContributionBounds {
    Owner,
    Resolved(SemanticBounds),
}

/// Target of an authored relationship.
#[derive(Debug)]
pub enum SemanticReference {
    /// A node of the same owner, by key.
    Local(u64),
    /// A node of the owner with this authored element id, by key (the primary one when
    /// absent).
    Authored { element_id: String, semantic_key: Option<u64> },
}

/// One authored relationship: its category code and target.
#[derive(Debug)]
pub struct AuthoredRelationship {
    pub kind: u32,
    pub target: SemanticReference,
}

impl AuthoredRelationship {
    /// An independent relationship equal to this one.
    pub fn duplicate(&self) -> (copy: AuthoredRelationship)
        ensures
            copy == *self,
    {
        let target = match &self.target {
            SemanticReference::Local(key) => SemanticReference::Local(*key),
            SemanticReference::Authored { element_id, semantic_key } => SemanticReference::Authored {
                element_id: element_id.clone(),
                semantic_key: *semantic_key,
            },
        };
        AuthoredRelationship { kind: self.kind, target }
    }
}

/// One authored semantic node of a contribution.
#[derive(Debug)]
pub struct SemanticNodeContribution {
    pub key: u64,
    pub hidden: bool,
    pub disabled: bool,
    pub inert: bool,
    pub role: u32,
    pub name: Option<String>,
    pub description: Option<String>,
    pub value: Option<String>,
    pub actions: Vec<u32>,
    pub relationships: Vec<AuthoredRelationship>,
    pub bounds: ContributionBounds,
    pub text: Option<String>,
    pub children: Vec<SemanticItem>,
}

/// One item of a contribution: an authored node, or the owner's mounted children
/// spliced in place.
#[derive(Debug)]
pub enum SemanticItem {
    Node(SemanticNodeContribution),
    MountedChildren,
}

/// Semantic facts of one mounted owner.
#[derive(Debug)]
pub struct SemanticOwnerFacts {
    pub id: MountedNodeId,
    pub authored_id: Option<String>,
    pub mounted_children: Vec<MountedNodeId>,
    pub roots: Vec<SemanticItem>,
    pub bindings: Vec<(u64, SemanticNodeId)>,
    pub bounds: SemanticBounds,
    pub enabled: bool,
    pub actionable: bool,
    pub focusability: Focusability,
}

/// Position of the first owner with identity `id`.
pub open spec fn spec_owner_index(owners: Seq<SemanticOwnerFacts>, id: MountedNodeId, n: int) -> Option<int>
    decreases n,
{
    if n <= 0 {
        None
    } else {
        match spec_owner_index(owners, id, n - 1) {
            Some(i) => Some(i),
            None => if owners[n - 1].id == id {
                Some(n - 1)
            } else {
                None
            },
        }
    }
}

/// `rank` strictly decreases from every owner to each mounted child that names an
/// owner: the mounted owners form a forest.
pub open spec fn rank_valid(owners: Seq<SemanticOwnerFacts>, rank: Seq<nat>) -> bool {
    &&& rank.len() == owners.len()
    &&& forall|o: int, j: int|
        0 <= o < owners.len() && 0 <= j < owners[o].mounted_children@.len() ==> match spec_owner_index(
            owners,
            #[trigger] owners[o].mounted_children@[j],
            owners.len() as int,
        ) {
            Some(c) => rank[c] < rank[o],
            None => true,
        }
}

pub proof fn lemma_owner_index_bound(owners: Seq<SemanticOwnerFacts>, id: MountedNodeId, n: int)
    requires
        0 <= n <= owners.len(),
    ensures
        spec_owner_index(owners, id, n) matches Some(i) ==> 0 <= i < n && owners[i].id == id,
        spec_owner_index(owners, id, n) is None ==> forall|i: int| 0 <= i < n ==> owners[i].id != id,
    decreases n,
{
    if n > 0 {
        lemma_owner_index_bound(owners, id, n - 1);
    }
}

/// Finds the first owner with identity `id`.
pub fn owner_index(owners: &Vec<SemanticOwnerFacts>, id: &MountedNodeId) -> (index: Option<usize>)
    ensures
        match spec_owner_index(owners@, *id, owners@.len() as int) {
            Some(i) => index == Some(i as usize),
            None => index is None,
        },
        index matches Some(i) ==> i < owners@.len() && spec_owner_index(
            owners@,
            *id,
            owners@.len() as int,
        ) == Some(i as int),
        index is None ==> spec_owner_index(owners@, *id, owners@.len() as int) is None,
{
    let mut k: usize = 0;
    while k < owners.len()
        invariant
            k <= owners@.len(),
            spec_owner_index(owners@, *id, k as int) is None,
        decreases owners.len() - k,
    {
        if owners[k].id == *id {
            proof {
                lemma_owner_index_prefix(owners@, *id, k as int + 1, owners@.len() as int);
            }
            return Some(k);
        }
        k = k + 1;
    }
    None
}

proof fn lemma_owner_index_prefix(owners: Seq<SemanticOwnerFacts>, id: MountedNodeId, m: int, n: int)
    requires
        0 <= m <= n <= owners.len(),
        spec_owner_index(owners, id, m) is Some,
    ensures
        spec_owner_index(owners, id, n) == spec_owner_index(owners, id, m),
    decreases n - m,
{
    if n > m {
        lemma_owner_index_prefix(owners, id, m, n - 1);
    }
}

/// The node bound to `key`: the first binding with that key.
pub open spec fn spec_binding(bindings: Seq<(u64, SemanticNodeId)>, key: u64, n: int) -> Option<SemanticNodeId>
    decreases n,
{
    if n <= 0 {
        None
    } else {
        match spec_binding(bindings, key, n - 1) {
            Some(id) => Some(id),
            None => if bindings[n - 1].0 == key {
                Some(bindings[n - 1].1)
            } else {
                None
            },
        }
    }
}

proof fn lemma_binding_prefix(bindings: Seq<(u64, SemanticNodeId)>, key: u64, m: int, n: int)
    requires
        0 <= m <= n <= bindings.len(),
        spec_binding(bindings, key, m) is Some,
    ensures
        spec_binding(bindings, key, n) == spec_binding(bindings, key, m),
    decreases n - m,
{
    if n > m {
        lemma_binding_prefix(bindings, key, m, n - 1);
    }
}

fn find_binding(bindings: &Vec<(u64, SemanticNodeId)>, key: u64) -> (id: Option<SemanticNodeId>)
    ensures
        id == spec_binding(bindings@, key, bindings@.len() as int),
{
    let mut k: usize = 0;
    while k < bindings.len()
        invariant
            k <= bindings@.len(),
            spec_binding(bindings@, key, k as int) is None,
        decreases bindings.len() - k,
    {
        if bindings[k].0 == key {
            proof {
                lemma_binding_prefix(bindings@, key, k as int + 1, bindings@.len() as int);
            }
            return Some(bindings[k].1);
        }
        k = k + 1;
    }
    None
}

/// Whether an authored action survives for the owner: activation needs an actionable
/// owner on the primary node; focus requests need the primary node of a focusable owner
/// (an automatic one when actionable); menus always survive; other actions never.
pub open spec fn spec_action_supported(action: u32, primary: bool, owner: SemanticOwnerFacts) -> bool {
    if action == ACTION_ACTIVATE {
        !primary || owner.actionable
    } else if action == ACTION_REQUEST_FOCUS {
        primary && match owner.focusability {
            Focusability::Automatic => owner.actionable,
            Focusability::Focusable => true,
            _ => false,
        }
    } else {
        action == ACTION_OPEN_MENU || action == ACTION_OPEN_CONTEXT_MENU
    }
}

/// The supported actions among the first `n` authored ones, in order.
pub open spec fn spec_supported_actions(
    actions: Seq<u32>,
    primary: bool,
    owner: SemanticOwnerFacts,
    n: int,
) -> Seq<u32>
    decreases n,
{
    if n <= 0 {
        Seq::empty()
    } else {
        let prefix = spec_supported_actions(actions, primary, owner, n - 1);
        if spec_action_supported(actions[n - 1], primary, owner) {
            prefix.push(actions[n - 1])
        } else {
            prefix
        }
    }
}

/// Keeps the authored actions that the owner supports, in order.
pub fn supported_actions(actions: &Vec<u32>, primary: bool, owner: &SemanticOwnerFacts) -> (supported:
    Vec<u32>)
    ensures
        supported@ == spec_supported_actions(actions@, primary, *owner, actions@.len() as int),
{
    let mut supported: Vec<u32> = Vec::new();
    let mut k: usize = 0;
    while k < actions.len()
        invariant
            k <= actions@.len(),
            supported@ == spec_supported_actions(actions@, primary, *owner, k as int),
        decreases actions.len() - k,
    {
        let action = actions[k];
        let keep = if action == ACTION_ACTIVATE {
            !primary || owner.actionable
        } else if action == ACTION_REQUEST_FOCUS {
            primary && match owner.focusability {
                Focusability::Automatic => owner.actionable,
                Focusability::Focusable => true,
                _ => false,
            }
        } else {
            action == ACTION_OPEN_MENU || action == ACTION_OPEN_CONTEXT_MENU
        };
        if keep {
            supported.push(action);
        }
        k = k + 1;
    }
    supported
}

proof fn lemma_supported_prefix(actions: Seq<u32>, primary: bool, owner: SemanticOwnerFacts, n: int, x: u32)
    requires
        0 <= n <= actions.len(),
    ensures
        spec_supported_actions(actions, primary, owner, n).contains(x) <==> (exists|i: int|
            0 <= i < n && actions[i] == x) && spec_action_supported(x, primary, owner),
        forall|i: int|
            0 <= i < spec_supported_actions(actions, primary, owner, n).len() ==> exists|j: int|
                0 <= j < n && actions[j] == #[trigger] spec_supported_actions(actions, primary, owner, n)[i],
    decreases n,
{
    if n > 0 {
        lemma_supported_prefix(actions, primary, owner, n - 1, x);
        let prefix = spec_supported_actions(actions, primary, owner, n - 1);
        let full = spec_supported_actions(actions, primary, owner, n);
        if (exists|i: int| 0 <= i < n && actions[i] == x) && spec_action_supported(x, primary, owner) {
            let i = choose|i: int| 0 <= i < n && actions[i] == x;
            if i == n - 1 {
                assert(full[full.len() - 1] == x);
            } else {
                let k = choose|k: int| 0 <= k < prefix.len() && prefix[k] == x;
                assert(full[k] == x);
            }
        }
        if full.contains(x) {
            let k = choose|k: int| 0 <= k < full.len() && full[k] == x;
            if k < prefix.len() {
                assert(prefix[k] == x);
            } else {
                assert(actions[n - 1] == x);
            }
        }
        assert forall|i: int| 0 <= i < full.len() implies exists|j: int|
            0 <= j < n && actions[j] == #[trigger] full[i] by {
            if i < prefix.len() {
                assert(full[i] == prefix[i]);
            } else {
                assert(full[i] == actions[n - 1]);
            }
        }
    }
}

/// Which authored actions a composed node supports: it keeps only authored actions;
/// Activate survives exactly when the node is not the owner's primary node or the owner is
/// actionable; a focus request survives only on the primary node of a focusable owner, or
/// of an automatically focusable owner that is actionable; both menu actions always
/// survive; no other action does.
pub proof fn lemma_supported_actions_follow_owner_capabilities(
    actions: Seq<u32>,
    primary: bool,
    owner: SemanticOwnerFacts,
    x: u32,
)
    ensures
        ({
            let supported = spec_supported_actions(actions, primary, owner, actions.len() as int);
            &&& supported.contains(x) ==> actions.contains(x)
            &&& actions.contains(x) ==> (supported.contains(x) <==> {
                if x == ACTION_ACTIVATE {
                    !primary || owner.actionable
                } else if x == ACTION_REQUEST_FOCUS {
                    primary && (owner.focusability == Focusability::Focusable || (owner.focusability
                        == Focusability::Automatic && owner.actionable))
                } else {
                    x == ACTION_OPEN_MENU || x == ACTION_OPEN_CONTEXT_MENU
                }
            })
            &&& supported.len() <= actions.len()
        }),
{
    let n = actions.len() as int;
    lemma_supported_prefix(actions, primary, owner, n, x);
    lemma_supported_length(actions, primary, owner, n);
    if actions.contains(x) {
        let i = choose|i: int| 0 <= i < actions.len() && actions[i] == x;
        assert(exists|i: int| 0 <= i < n && actions[i] == x);
    }
    if spec_supported_actions(actions, primary, owner, n).contains(x) {
        let i = choose|i: int| 0 <= i < n && actions[i] == x;
        assert(actions[i] == x);
    }
}

proof fn lemma_supported_length(actions: Seq<u32>, primary: bool, owner: SemanticOwnerFacts, n: int)
    requires
        0 <= n <= actions.len(),
    ensures
        spec_supported_actions(actions, primary, owner, n).len() <= n,
    decreases n,
{
    if n > 0 {
        lemma_supported_length(actions, primary, owner, n - 1);
    }
}

/// One composed node with its owner, key, and authored relationships, before its
/// children and relationships are resolved.
pub struct Draft {
    pub owner: MountedNodeId,
    pub key: u64,
    pub relationships: Vec<AuthoredRelationship>,
    pub node: SemanticNode,
}

/// Abstract content of one draft.
pub ghost struct DraftView {
    pub owner: MountedNodeId,
    pub key: u64,
    pub relationships: Seq<AuthoredRelationship>,
    pub node: SemanticNodeView,
}

impl View for Draft {
    type V = DraftView;

    open spec fn view(&self) -> DraftView {
        DraftView {
            owner: self.owner,
            key: self.key,
            relationships: self.relationships@,
            node: self.node@,
        }
    }
}

/// The draft of authored node `n` of `owner`, bound to `id` under `parent`.
pub open spec fn spec_draft(
    owner: SemanticOwnerFacts,
    n: SemanticNodeContribution,
    id: SemanticNodeId,
    parent: Option<SemanticNodeId>,
) -> DraftView {
    DraftView {
        owner: owner.id,
        key: n.key,
        relationships: n.relationships@,
        node: SemanticNodeView {
            id,
            parent,
            children: Seq::empty(),
            role: n.role,
            name: text_view(n.name),
            description: text_view(n.description),
            value: text_view(n.value),
            state: SemanticNodeState::spec_new(n.disabled || !owner.enabled, n.inert),
            supported_actions: spec_supported_actions(
                n.actions@,
                n.key == PRIMARY_SEMANTIC_KEY,
                owner,
                n.actions@.len() as int,
            ),
            relationships: Seq::empty(),
            bounds: match n.bounds {
                ContributionBounds::Owner => owner.bounds,
                ContributionBounds::Resolved(b) => b,
            },
            text: text_view(n.text),
        },
    }
}

fn duplicate_relationships(relationships: &Vec<AuthoredRelationship>) -> (copy: Vec<AuthoredRelationship>)
    ensures
        copy@ == relationships@,
{
    let mut copy: Vec<AuthoredRelationship> = Vec::new();
    let mut k: usize = 0;
    while k < relationships.len()
        invariant
            k <= relationships@.len(),
            copy@ == relationships@.take(k as int),
        decreases relationships.len() - k,
    {
        copy.push(relationships[k].duplicate());
        proof {
            assert(relationships@.take(k + 1) =~= relationships@.take(k as int).push(
                relationships@[k as int],
            ));
        }
        k = k + 1;
    }
    proof {
        assert(relationships@.take(relationships@.len() as int) =~= relationships@);
    }
    copy
}

/// Builds the draft of authored node `n` of `owner`.
pub fn make_draft(
    owner: &SemanticOwnerFacts,
    n: &SemanticNodeContribution,
    id: SemanticNodeId,
    parent: Option<SemanticNodeId>,
) -> (draft: Draft)
    ensures
        draft@ == spec_draft(*owner, *n, id, parent),
{
    let bounds = match n.bounds {
        ContributionBounds::Owner => owner.bounds,
        ContributionBounds::Resolved(b) => b,
    };
    let node = SemanticNode {
        id,
        parent,
        children: Vec::new(),
        role: n.role,
        name: copy_text(&n.name),
        description: copy_text(&n.description),
        value: copy_text(&n.value),
        state: SemanticNodeState::new(n.disabled || !owner.enabled, n.inert),
        supported_actions: supported_actions(&n.actions, n.key == PRIMARY_SEMANTIC_KEY, owner),
        relationships: Vec::new(),
        bounds,
        text: copy_text(&n.text),
    };
    let draft = Draft {
        owner: owner.id,
        key: n.key,
        relationships: duplicate_relationships(&n.relationships),
        node,
    };
    proof {
        assert(draft@.node =~= spec_draft(*owner, *n, id, parent).node);
    }
    draft
}

/// Drafts, their children, and diagnostics gathered so far.
pub struct ComposeBuffers {
    pub drafts: Vec<Draft>,
    pub children: Vec<Vec<SemanticNodeId>>,
    pub diagnostics: Vec<SemanticCompositionDiagnostic>,
}

/// Abstract content of the composition buffers.
pub ghost struct ComposeState {
    pub drafts: Seq<DraftView>,
    pub children: Seq<Seq<SemanticNodeId>>,
    pub diagnostics: Seq<SemanticCompositionDiagnostic>,
}

impl View for ComposeBuffers {
    type V = ComposeState;

    open spec fn view(&self) -> ComposeState {
        ComposeState {
            drafts: self.drafts@.map_values(|d: Draft| d@),
            children: self.children@.map_values(|c: Vec<SemanticNodeId>| c@),
            diagnostics: self.diagnostics@,
        }
    }
}

impl ComposeBuffers {
    /// Every draft has its children list.
    pub open spec fn wf(&self) -> bool {
        self.drafts@.len() == self.children@.len()
    }
}

/// Whether some item is an authored node.
pub open spec fn spec_contains_node(items: Seq<SemanticItem>) -> bool {
    exists|i: int| 0 <= i < items.len() && #[trigger] items[i] is Node
}

/// `st` with `diagnostic` appended.
pub open spec fn with_diagnostic(st: ComposeState, diagnostic: SemanticCompositionDiagnostic) -> ComposeState {
    ComposeState { diagnostics: st.diagnostics.push(diagnostic), ..st }
}

/// Number of items in `items` and in every authored node's children, transitively.
pub open spec fn items_size(items: Seq<SemanticItem>) -> nat
    decreases items,
{
    if items.len() == 0 {
        0
    } else {
        let rest = items_size(items.subrange(0, items.len() - 1));
        match items[items.len() - 1] {
            SemanticItem::Node(n) => rest + 1 + items_size(n.children@),
            SemanticItem::MountedChildren => rest + 1,
        }
    }
}

/// An authored node's children are smaller than any item list holding the node.
pub proof fn lemma_child_items_smaller(items: Seq<SemanticItem>, i: int)
    requires
        0 <= i < items.len(),
        items[i] is Node,
    ensures
        items_size(items) > items_size(items[i]->Node_0.children@),
    decreases items.len(),
{
    let last = items.len() - 1;
    if i < last {
        let prefix = items.subrange(0, last);
        assert(prefix[i] == items[i]);
        lemma_child_items_smaller(prefix, i);
    }
}

/// Composes owner `o` under `parent`: its authored items when it authored a node,
/// otherwise its mounted children spliced in place.
pub open spec fn spec_compose_owner(
    owners: Seq<SemanticOwnerFacts>,
    rank: Seq<nat>,
    o: int,
    parent: Option<SemanticNodeId>,
    st: ComposeState,
) -> (ComposeState, Seq<SemanticNodeId>)
    decreases rank[o], items_size(owners[o].roots@), 3int, 0int,
    when rank_valid(owners, rank) && 0 <= o < owners.len()
{
    if !spec_contains_node(owners[o].roots@) {
        spec_compose_children(
            owners,
            rank,
            o,
            parent,
            st,
            owners[o].mounted_children@.len() as int,
        )
    } else {
        spec_compose_items(owners, rank, o, owners[o].roots@, owners[o].roots@.len() as int, parent, st)
    }
}

/// Composes the first `n` mounted children of owner `o` in order; a child that names no
/// owner is reported missing.
pub open spec fn spec_compose_children(
    owners: Seq<SemanticOwnerFacts>,
    rank: Seq<nat>,
    o: int,
    parent: Option<SemanticNodeId>,
    st: ComposeState,
    n: int,
) -> (ComposeState, Seq<SemanticNodeId>)
    decreases rank[o], 0nat, 1int, n,
    when rank_valid(owners, rank) && 0 <= o < owners.len() && n <= owners[o].mounted_children@.len()
{
    if n <= 0 {
        (st, Seq::empty())
    } else {
        let (st1, before) = spec_compose_children(owners, rank, o, parent, st, n - 1);
        let child = owners[o].mounted_children@[n - 1];
        match spec_owner_index(owners, child, owners.len() as int) {
            Some(c) => {
                proof {
                    lemma_owner_index_bound(owners, child, owners.len() as int);
                }
                let (st2, composed) = spec_compose_owner(owners, rank, c, parent, st1);
                (st2, before + composed)
            },
            None => (with_diagnostic(st1, SemanticCompositionDiagnostic::MissingMountedOwner), before),
        }
    }
}

/// Composes the first `n` items of owner `o` in order.
pub open spec fn spec_compose_items(
    owners: Seq<SemanticOwnerFacts>,
    rank: Seq<nat>,
    o: int,
    items: Seq<SemanticItem>,
    n: int,
    parent: Option<SemanticNodeId>,
    st: ComposeState,
) -> (ComposeState, Seq<SemanticNodeId>)
    decreases rank[o], items_size(items), 2int, n,
    when rank_valid(owners, rank) && 0 <= o < owners.len() && n <= items.len()
{
    if n <= 0 {
        (st, Seq::empty())
    } else {
        let (st1, before) = spec_compose_items(owners, rank, o, items, n - 1, parent, st);
        match items[n - 1] {
            SemanticItem::Node(node) => {
                proof {
                    lemma_child_items_smaller(items, n - 1);
                }
                let (st2, composed) = spec_compose_node(owners, rank, o, node, parent, st1);
                (st2, before + composed)
            },
            SemanticItem::MountedChildren => {
                let (st2, composed) = spec_compose_children(
                    owners,
                    rank,
                    o,
                    parent,
                    st1,
                    owners[o].mounted_children@.len() as int,
                );
                (st2, before + composed)
            },
        }
    }
}

/// Composes authored node `n` of owner `o`: a hidden node hides its whole subtree; an
/// unbound key is reported; otherwise the node's draft is followed by its children's.
pub open spec fn spec_compose_node(
    owners: Seq<SemanticOwnerFacts>,
    rank: Seq<nat>,
    o: int,
    n: SemanticNodeContribution,
    parent: Option<SemanticNodeId>,
    st: ComposeState,
) -> (ComposeState, Seq<SemanticNodeId>)
    decreases rank[o], items_size(n.children@), 4int, 0int,
    when rank_valid(owners, rank) && 0 <= o < owners.len()
{
    if n.hidden {
        (st, Seq::empty())
    } else {
        match spec_binding(owners[o].bindings@, n.key, owners[o].bindings@.len() as int) {
            None => (
                with_diagnostic(st, SemanticCompositionDiagnostic::MissingOwnerBinding { key: n.key }),
                Seq::empty(),
            ),
            Some(id) => {
                let index = st.drafts.len() as int;
                let st1 = ComposeState {
                    drafts: st.drafts.push(spec_draft(owners[o], n, id, parent)),
                    children: st.children.push(Seq::empty()),
                    ..st
                };
                let (st2, kids) = spec_compose_items(
                    owners,
                    rank,
                    o,
                    n.children@,
                    n.children@.len() as int,
                    Some(id),
                    st1,
                );
                (ComposeState { children: st2.children.update(index, kids), ..st2 }, seq![id])
            },
        }
    }
}

fn contains_semantic_node(items: &Vec<SemanticItem>) -> (found: bool)
    ensures
        found == spec_contains_node(items@),
{
    let mut k: usize = 0;
    while k < items.len()
        invariant
            k <= items@.len(),
            forall|i: int| 0 <= i < k ==> !(#[trigger] items@[i] is Node),
        decreases items.len() - k,
    {
        if let SemanticItem::Node(_) = &items[k] {
            return true;
        }
        k = k + 1;
    }
    false
}

fn append_ids(target: &mut Vec<SemanticNodeId>, more: Vec<SemanticNodeId>)
    ensures
        final(target)@ == old(target)@ + more@,
{
    let mut more = more;
    target.append(&mut more);
}

fn push_diagnostic(buffers: &mut ComposeBuffers, diagnostic: SemanticCompositionDiagnostic)
    requires
        old(buffers).wf(),
    ensures
        final(buffers).wf(),
        final(buffers)@.drafts == old(buffers)@.drafts,
        final(buffers)@ == with_diagnostic(old(buffers)@, diagnostic),
{
    buffers.diagnostics.push(diagnostic);
    proof {
        assert(buffers@.diagnostics =~= old(buffers)@.diagnostics.push(diagnostic));
    }
}

fn compose_owner(
    owners: &Vec<SemanticOwnerFacts>,
    Ghost(rank): Ghost<Seq<nat>>,
    o: usize,
    parent: Option<SemanticNodeId>,
    buffers: &mut ComposeBuffers,
) -> (roots: Vec<SemanticNodeId>)
    requires
        rank_valid(owners@, rank),
        o < owners@.len(),
        old(buffers).wf(),
    ensures
        final(buffers).wf(),
        final(buffers)@.drafts.len() >= old(buffers)@.drafts.len(),
        (final(buffers)@, roots@) == spec_compose_owner(owners@, rank, o as int, parent, old(buffers)@),
    decreases rank[o as int], items_size(owners@[o as int].roots@), 3int, 0int,
{
    if !contains_semantic_node(&owners[o].roots) {
        compose_children(owners, Ghost(rank), o, parent, buffers)
    } else {
        compose_items(owners, Ghost(rank), o, &owners[o].roots, parent, buffers)
    }
}

fn compose_children(
    owners: &Vec<SemanticOwnerFacts>,
    Ghost(rank): Ghost<Seq<nat>>,
    o: usize,
    parent: Option<SemanticNodeId>,
    buffers: &mut ComposeBuffers,
) -> (roots: Vec<SemanticNodeId>)
    requires
        rank_valid(owners@, rank),
        o < owners@.len(),
        old(buffers).wf(),
    ensures
        final(buffers).wf(),
        final(buffers)@.drafts.len() >= old(buffers)@.drafts.len(),
        (final(buffers)@, roots@) == spec_compose_children(
            owners@,
            rank,
            o as int,
            parent,
            old(buffers)@,
            owners@[o as int].mounted_children@.len() as int,
        ),
    decreases rank[o as int], 0nat, 1int, owners@[o as int].mounted_children@.len(),
{
    let ghost start = buffers@;
    let children = &owners[o].mounted_children;
    let mut roots: Vec<SemanticNodeId> = Vec::new();
    let mut k: usize = 0;
    while k < children.len()
        invariant
            rank_valid(owners@, rank),
            o < owners@.len(),
            children@ == owners@[o as int].mounted_children@,
            k <= children@.len(),
            buffers.wf(),
            buffers@.drafts.len() >= start.drafts.len(),
            (buffers@, roots@) == spec_compose_children(owners@, rank, o as int, parent, start, k as int),
        decreases children.len() - k,
    {
        let child = children[k];
        let ghost before = buffers@;
        match owner_index(owners, &child) {
            Some(c) => {
                proof {
                    lemma_owner_index_bound(owners@, child, owners@.len() as int);
                    assert(owners@[o as int].mounted_children@[k as int] == child);
                    assert(spec_owner_index(owners@, child, owners@.len() as int) == Some(c as int));
                    let oi = o as int;
                    let kj = k as int;
                    assert(0 <= oi < owners@.len() && 0 <= kj < owners@[oi].mounted_children@.len());
                    assert(match spec_owner_index(
                        owners@,
                        owners@[oi].mounted_children@[kj],
                        owners@.len() as int,
                    ) {
                        Some(ci) => rank[ci] < rank[oi],
                        None => true,
                    });
                    assert(rank[c as int] < rank[o as int]);
                }
                let composed = compose_owner(owners, Ghost(rank), c, parent, buffers);
                append_ids(&mut roots, composed);
            },
            None => {
                push_diagnostic(buffers, SemanticCompositionDiagnostic::MissingMountedOwner);
            },
        }
        k = k + 1;
    }
    roots
}

fn compose_items(
    owners: &Vec<SemanticOwnerFacts>,
    Ghost(rank): Ghost<Seq<nat>>,
    o: usize,
    items: &Vec<SemanticItem>,
    parent: Option<SemanticNodeId>,
    buffers: &mut ComposeBuffers,
) -> (roots: Vec<SemanticNodeId>)
    requires
        rank_valid(owners@, rank),
        o < owners@.len(),
        old(buffers).wf(),
    ensures
        final(buffers).wf(),
        final(buffers)@.drafts.len() >= old(buffers)@.drafts.len(),
        (final(buffers)@, roots@) == spec_compose_items(
            owners@,
            rank,
            o as int,
            items@,
            items@.len() as int,
            parent,
            old(buffers)@,
        ),
    decreases rank[o as int], items_size(items@), 2int, items@.len(),
{
    let ghost start = buffers@;
    let mut roots: Vec<SemanticNodeId> = Vec::new();
    let mut k: usize = 0;
    while k < items.len()
        invariant
            rank_valid(owners@, rank),
            o < owners@.len(),
            k <= items@.len(),
            buffers.wf(),
            buffers@.drafts.len() >= start.drafts.len(),
            (buffers@, roots@) == spec_compose_items(owners@, rank, o as int, items@, k as int, parent, start),
        decreases items.len() - k,
    {
        match &items[k] {
            SemanticItem::Node(node) => {
                proof {
                    lemma_child_items_smaller(items@, k as int);
                }
                let composed = compose_node(owners, Ghost(rank), o, node, parent, buffers);
                append_ids(&mut roots, composed);
            },
            SemanticItem::MountedChildren => {
                let composed = compose_children(owners, Ghost(rank), o, parent, buffers);
                append_ids(&mut roots, composed);
            },
        }
        k = k + 1;
    }
    roots
}

fn compose_node(
    owners: &Vec<SemanticOwnerFacts>,
    Ghost(rank): Ghost<Seq<nat>>,
    o: usize,
    n: &SemanticNodeContribution,
    parent: Option<SemanticNodeId>,
    buffers: &mut ComposeBuffers,
) -> (roots: Vec<SemanticNodeId>)
    requires
        rank_valid(owners@, rank),
        o < owners@.len(),
        old(buffers).wf(),
    ensures
        final(buffers).wf(),
        final(buffers)@.drafts.len() >= old(buffers)@.drafts.len(),
        (final(buffers)@, roots@) == spec_compose_node(owners@, rank, o as int, *n, parent, old(buffers)@),
    decreases rank[o as int], items_size(n.children@), 4int, 0int,
{
    if n.hidden {
        return Vec::new();
    }
    let owner = &owners[o];
    let id = match find_binding(&owner.bindings, n.key) {
        Some(id) => id,
        None => {
            push_diagnostic(buffers, SemanticCompositionDiagnostic::MissingOwnerBinding { key: n.key });
            return Vec::new();
        },
    };
    let index = buffers.drafts.len();
    let ghost before = buffers@;
    buffers.drafts.push(make_draft(owner, n, id, parent));
    buffers.children.push(Vec::new());
    let ghost st1 = ComposeState {
        drafts: before.drafts.push(spec_draft(owners@[o as int], *n, id, parent)),
        children: before.children.push(Seq::empty()),
        ..before
    };
    proof {
        assert(buffers@.drafts =~= st1.drafts);
        assert(buffers@.children =~= st1.children);
        assert(buffers@ == st1);
    }
    let kids = compose_items(owners, Ghost(rank), o, &n.children, Some(id), buffers);
    let ghost st2 = buffers@;
    let ghost kid_ids = kids@;
    buffers.children.set(index, kids);
    proof {
        assert(buffers@.children =~= st2.children.update(index as int, kid_ids));
    }
    let mut roots: Vec<SemanticNodeId> = Vec::new();
    roots.push(id);
    proof {
        assert(roots@ =~= seq![id]);
    }
    roots
}

/// The node of the first draft of `owner` with `key`, among the first `n` drafts.
pub open spec fn spec_visible_id(drafts: Seq<DraftView>, owner: MountedNodeId, key: u64, n: int) -> Option<
    SemanticNodeId,
>
    decreases n,
{
    if n <= 0 {
        None
    } else {
        match spec_visible_id(drafts, owner, key, n - 1) {
            Some(id) => Some(id),
            None => if drafts[n - 1].owner == owner && drafts[n - 1].key == key {
                Some(drafts[n - 1].node.id)
            } else {
                None
            },
        }
    }
}

proof fn lemma_visible_prefix(drafts: Seq<DraftView>, owner: MountedNodeId, key: u64, m: int, n: int)
    requires
        0 <= m <= n <= drafts.len(),
        spec_visible_id(drafts, owner, key, m) is Some,
    ensures
        spec_visible_id(drafts, owner, key, n) == spec_visible_id(drafts, owner, key, m),
    decreases n - m,
{
    if n > m {
        lemma_visible_prefix(drafts, owner, key, m, n - 1);
    }
}

/// Finds the node that owner `owner` composed under `key`.
pub fn visible_id(drafts: &Vec<Draft>, owner: &MountedNodeId, key: u64) -> (id: Option<SemanticNodeId>)
    ensures
        id == spec_visible_id(
            drafts@.map_values(|d: Draft| d@),
            *owner,
            key,
            drafts@.len() as int,
        ),
{
    let ghost views = drafts@.map_values(|d: Draft| d@);
    let mut k: usize = 0;
    while k < drafts.len()
        invariant
            k <= drafts@.len(),
            views == drafts@.map_values(|d: Draft| d@),
            spec_visible_id(views, *owner, key, k as int) is None,
        decreases drafts.len() - k,
    {
        if drafts[k].owner == *owner && drafts[k].key == key {
            proof {
                assert(views[k as int] == drafts@[k as int]@);
                lemma_visible_prefix(views, *owner, key, k as int + 1, drafts@.len() as int);
            }
            return Some(drafts[k].node.id);
        }
        proof {
            assert(views[k as int] == drafts@[k as int]@);
        }
        k = k + 1;
    }
    None
}

/// Positions among the first `n` owners whose authored id is `element_id`.
pub open spec fn spec_authored_owners(owners: Seq<SemanticOwnerFacts>, element_id: Seq<char>, n: int) -> Seq<int>
    decreases n,
{
    if n <= 0 {
        Seq::empty()
    } else {
        let prefix = spec_authored_owners(owners, element_id, n - 1);
        if owners[n - 1].authored_id matches Some(a) && a@ == element_id {
            prefix.push(n - 1)
        } else {
            prefix
        }
    }
}

/// The target of an authored relationship from `source`, with the diagnostics it adds:
/// no owner or several owners with the element id, or no visible node under the key
/// (the primary one when none is given).
pub open spec fn spec_authored_target(
    owners: Seq<SemanticOwnerFacts>,
    drafts: Seq<DraftView>,
    source: SemanticNodeId,
    element_id: String,
    semantic_key: Option<u64>,
    diagnostics: Seq<SemanticCompositionDiagnostic>,
) -> (Option<SemanticNodeId>, Seq<SemanticCompositionDiagnostic>) {
    let found = spec_authored_owners(owners, element_id@, owners.len() as int);
    if found.len() == 0 {
        (
            None,
            diagnostics.push(
                SemanticCompositionDiagnostic::MissingAuthoredRelationshipOwner { source, element_id },
            ),
        )
    } else if found.len() > 1 {
        (
            None,
            diagnostics.push(
                SemanticCompositionDiagnostic::AmbiguousAuthoredRelationshipOwner { source, element_id },
            ),
        )
    } else {
        let key = match semantic_key {
            Some(k) => k,
            None => PRIMARY_SEMANTIC_KEY,
        };
        match spec_visible_id(drafts, owners[found[0]].id, key, drafts.len() as int) {
            Some(target) => (Some(target), diagnostics),
            None => (
                None,
                diagnostics.push(
                    SemanticCompositionDiagnostic::MissingAuthoredRelationshipTarget {
                        source,
                        element_id,
                        key,
                    },
                ),
            ),
        }
    }
}

fn authored_owners(owners: &Vec<SemanticOwnerFacts>, element_id: &String) -> (found: Vec<usize>)
    ensures
        found@.len() == spec_authored_owners(owners@, element_id@, owners@.len() as int).len(),
        forall|i: int|
            0 <= i < found@.len() ==> found@[i] as int == spec_authored_owners(
                owners@,
                element_id@,
                owners@.len() as int,
            )[i],
        forall|i: int| 0 <= i < found@.len() ==> found@[i] < owners@.len(),
{
    let mut found: Vec<usize> = Vec::new();
    let mut k: usize = 0;
    while k < owners.len()
        invariant
            k <= owners@.len(),
            found@.len() == spec_authored_owners(owners@, element_id@, k as int).len(),
            forall|i: int|
                0 <= i < found@.len() ==> found@[i] as int == spec_authored_owners(
                    owners@,
                    element_id@,
                    k as int,
                )[i],
            forall|i: int| 0 <= i < found@.len() ==> found@[i] < k,
        decreases owners.len() - k,
    {
        let matches = match &owners[k].authored_id {
            Some(a) => a.eq(element_id),
            None => false,
        };
        if matches {
            found.push(k);
        }
        k = k + 1;
    }
    found
}

fn resolve_authored_target(
    owners: &Vec<SemanticOwnerFacts>,
    drafts: &Vec<Draft>,
    source: SemanticNodeId,
    element_id: &String,
    semantic_key: Option<u64>,
    diagnostics: &mut Vec<SemanticCompositionDiagnostic>,
) -> (target: Option<SemanticNodeId>)
    ensures
        (target, final(diagnostics)@) == spec_authored_target(
            owners@,
            drafts@.map_values(|d: Draft| d@),
            source,
            *element_id,
            semantic_key,
            old(diagnostics)@,
        ),
{
    let found = authored_owners(owners, element_id);
    if found.len() == 0 {
        diagnostics.push(
            SemanticCompositionDiagnostic::MissingAuthoredRelationshipOwner {
                source,
                element_id: element_id.clone(),
            },
        );
        return None;
    }
    if found.len() > 1 {
        diagnostics.push(
            SemanticCompositionDiagnostic::AmbiguousAuthoredRelationshipOwner {
                source,
                element_id: element_id.clone(),
            },
        );
        return None;
    }
    let key = match semantic_key {
        Some(k) => k,
        None => PRIMARY_SEMANTIC_KEY,
    };
    let target_owner = owners[found[0]].id;
    match visible_id(drafts, &target_owner, key) {
        Some(target) => Some(target),
        None => {
            diagnostics.push(
                SemanticCompositionDiagnostic::MissingAuthoredRelationshipTarget {
                    source,
                    element_id: element_id.clone(),
                    key,
                },
            );
            None
        },
    }
}

/// Resolves the first `m` authored relationships of draft `d`, appending diagnostics.
pub open spec fn spec_resolve_draft(
    owners: Seq<SemanticOwnerFacts>,
    drafts: Seq<DraftView>,
    d: int,
    m: int,
    diagnostics: Seq<SemanticCompositionDiagnostic>,
) -> (Seq<SemanticRelationship>, Seq<SemanticCompositionDiagnostic>)
    decreases m,
{
    if m <= 0 {
        (Seq::empty(), diagnostics)
    } else {
        let (resolved, diags) = spec_resolve_draft(owners, drafts, d, m - 1, diagnostics);
        let relationship = drafts[d].relationships[m - 1];
        let source = drafts[d].node.id;
        let (target, diags2) = match relationship.target {
            SemanticReference::Local(key) => match spec_visible_id(
                drafts,
                drafts[d].owner,
                key,
                drafts.len() as int,
            ) {
                Some(t) => (Some(t), diags),
                None => (
                    None,
                    diags.push(
                        SemanticCompositionDiagnostic::MissingLocalRelationshipTarget { source, key },
                    ),
                ),
            },
            SemanticReference::Authored { element_id, semantic_key } => spec_authored_target(
                owners,
                drafts,
                source,
                element_id,
                semantic_key,
                diags,
            ),
        };
        match target {
            Some(t) => (resolved.push(SemanticRelationship { kind: relationship.kind, target: t }), diags2),
            None => (resolved, diags2),
        }
    }
}

/// Resolves the relationships of the first `n` drafts, appending diagnostics in order.
pub open spec fn spec_resolve_all(
    owners: Seq<SemanticOwnerFacts>,
    drafts: Seq<DraftView>,
    n: int,
    diagnostics: Seq<SemanticCompositionDiagnostic>,
) -> (Seq<Seq<SemanticRelationship>>, Seq<SemanticCompositionDiagnostic>)
    decreases n,
{
    if n <= 0 {
        (Seq::empty(), diagnostics)
    } else {
        let (all, diags) = spec_resolve_all(owners, drafts, n - 1, diagnostics);
        let (resolved, diags2) = spec_resolve_draft(
            owners,
            drafts,
            n - 1,
            drafts[n - 1].relationships.len() as int,
            diags,
        );
        (all.push(resolved), diags2)
    }
}

fn resolve_draft(
    owners: &Vec<SemanticOwnerFacts>,
    drafts: &Vec<Draft>,
    d: usize,
    diagnostics: &mut Vec<SemanticCompositionDiagnostic>,
) -> (resolved: Vec<SemanticRelationship>)
    requires
        d < drafts@.len(),
    ensures
        (resolved@, final(diagnostics)@) == spec_resolve_draft(
            owners@,
            drafts@.map_values(|x: Draft| x@),
            d as int,
            drafts@[d as int].relationships@.len() as int,
            old(diagnostics)@,
        ),
{
    let ghost views = drafts@.map_values(|x: Draft| x@);
    let ghost start = diagnostics@;
    let draft = &drafts[d];
    let source = draft.node.id;
    let mut resolved: Vec<SemanticRelationship> = Vec::new();
    let mut m: usize = 0;
    while m < draft.relationships.len()
        invariant
            d < drafts@.len(),
            *draft == drafts@[d as int],
            views == drafts@.map_values(|x: Draft| x@),
            views[d as int] == draft@,
            source == draft.node.id,
            m <= draft.relationships@.len(),
            (resolved@, diagnostics@) == spec_resolve_draft(owners@, views, d as int, m as int, start),
        decreases draft.relationships.len() - m,
    {
        let relationship = &draft.relationships[m];
        let target = match &relationship.target {
            SemanticReference::Local(key) => match visible_id(drafts, &draft.owner, *key) {
                Some(t) => Some(t),
                None => {
                    diagnostics.push(
                        SemanticCompositionDiagnostic::MissingLocalRelationshipTarget {
                            source,
                            key: *key,
                        },
                    );
                    None
                },
            },
            SemanticReference::Authored { element_id, semantic_key } => resolve_authored_target(
                owners,
                drafts,
                source,
                element_id,
                *semantic_key,
                diagnostics,
            ),
        };
        if let Some(t) = target {
            resolved.push(SemanticRelationship { kind: relationship.kind, target: t });
        }
        m = m + 1;
    }
    resolved
}

fn resolve_relationships(
    owners: &Vec<SemanticOwnerFacts>,
    drafts: &Vec<Draft>,
    diagnostics: &mut Vec<SemanticCompositionDiagnostic>,
) -> (all: Vec<Vec<SemanticRelationship>>)
    ensures
        all@.len() == drafts@.len(),
        (all@.map_values(|r: Vec<SemanticRelationship>| r@), final(diagnostics)@) == spec_resolve_all(
            owners@,
            drafts@.map_values(|x: Draft| x@),
            drafts@.len() as int,
            old(diagnostics)@,
        ),
{
    let ghost views = drafts@.map_values(|x: Draft| x@);
    let ghost start = diagnostics@;
    let mut all: Vec<Vec<SemanticRelationship>> = Vec::new();
    let mut d: usize = 0;
    while d < drafts.len()
        invariant
            d <= drafts@.len(),
            all@.len() == d,
            views == drafts@.map_values(|x: Draft| x@),
            (all@.map_values(|r: Vec<SemanticRelationship>| r@), diagnostics@) == spec_resolve_all(
                owners@,
                views,
                d as int,
                start,
            ),
        decreases drafts.len() - d,
    {
        let ghost before = all@.map_values(|r: Vec<SemanticRelationship>| r@);
        let resolved = resolve_draft(owners, drafts, d, diagnostics);
        let ghost resolved_view = resolved@;
        all.push(resolved);
        proof {
            assert(all@.map_values(|r: Vec<SemanticRelationship>| r@) =~= before.push(resolved_view));
        }
        d = d + 1;
    }
    all
}

/// The composition state before anything is composed.
pub open spec fn empty_state() -> ComposeState {
    ComposeState { drafts: Seq::empty(), children: Seq::empty(), diagnostics: Seq::empty() }
}

/// Drafts and roots composed from `root`: nothing without a root, a missing-owner
/// diagnostic when no owner has the root's identity.
pub open spec fn spec_compose_root(
    owners: Seq<SemanticOwnerFacts>,
    rank: Seq<nat>,
    root: Option<MountedNodeId>,
) -> (ComposeState, Seq<SemanticNodeId>) {
    match root {
        None => (empty_state(), Seq::empty()),
        Some(r) => match spec_owner_index(owners, r, owners.len() as int) {
            Some(i) => spec_compose_owner(owners, rank, i, None, empty_state()),
            None => (with_diagnostic(empty_state(), SemanticCompositionDiagnostic::MissingMountedOwner), Seq::empty()),
        },
    }
}

/// The candidate node of draft `d`, with its composed children and resolved
/// relationships.
pub open spec fn spec_candidate_node(
    draft: DraftView,
    children: Seq<SemanticNodeId>,
    relationships: Seq<SemanticRelationship>,
) -> SemanticNodeView {
    SemanticNodeView { children, relationships, ..draft.node }
}

/// Abstract content of a composed candidate.
pub ghost struct CandidateView {
    pub roots: Seq<SemanticNodeId>,
    pub nodes: Seq<SemanticNodeView>,
    pub focused: Option<SemanticNodeId>,
    pub diagnostics: Seq<SemanticCompositionDiagnostic>,
}

/// The candidate composed from `owners` under `root`, with focus on the primary node of
/// `focused_owner`: composition diagnostics first, then relationship diagnostics, then a
/// focused owner without a visible primary node.
pub open spec fn spec_compose_semantics(
    owners: Seq<SemanticOwnerFacts>,
    rank: Seq<nat>,
    root: Option<MountedNodeId>,
    focused_owner: Option<MountedNodeId>,
) -> CandidateView {
    let (st, roots) = spec_compose_root(owners, rank, root);
    let (relationships, diags) = spec_resolve_all(owners, st.drafts, st.drafts.len() as int, st.diagnostics);
    let (focused, diags2) = match focused_owner {
        None => (None, diags),
        Some(f) => match spec_visible_id(st.drafts, f, PRIMARY_SEMANTIC_KEY, st.drafts.len() as int) {
            Some(id) => (Some(id), diags),
            None => (None, diags.push(SemanticCompositionDiagnostic::FocusedOwnerMissingVisiblePrimary)),
        },
    };
    CandidateView {
        roots,
        nodes: Seq::new(
            st.drafts.len(),
            |i: int| spec_candidate_node(st.drafts[i], st.children[i], relationships[i]),
        ),
        focused,
        diagnostics: diags2,
    }
}

proof fn lemma_resolve_all_len(
    owners: Seq<SemanticOwnerFacts>,
    drafts: Seq<DraftView>,
    n: int,
    diagnostics: Seq<SemanticCompositionDiagnostic>,
)
    requires
        0 <= n,
    ensures
        spec_resolve_all(owners, drafts, n, diagnostics).0.len() == n,
    decreases n,
{
    if n > 0 {
        lemma_resolve_all_len(owners, drafts, n - 1, diagnostics);
    }
}

/// Composes the semantic candidate of a mounted tree: splices owners' authored nodes and
/// mounted children from `root`, resolves relationships against the composed nodes, and
/// focuses the primary node of `focused_owner`.
pub fn compose_semantics(
    owners: &Vec<SemanticOwnerFacts>,
    root: Option<MountedNodeId>,
    focused_owner: Option<MountedNodeId>,
) -> (candidate: SemanticCandidate)
    requires
        exists|rank: Seq<nat>| rank_valid(owners@, rank),
    ensures
        ({
            let expected = spec_compose_semantics(
                owners@,
                choose|rank: Seq<nat>| rank_valid(owners@, rank),
                root,
                focused_owner,
            );
            &&& candidate.roots@ == expected.roots
            &&& node_views(candidate.nodes@) == expected.nodes
            &&& candidate.focused == expected.focused
            &&& candidate.diagnostics@ == expected.diagnostics
        }),
{
    let ghost rank = choose|rank: Seq<nat>| rank_valid(owners@, rank);
    let mut buffers = ComposeBuffers { drafts: Vec::new(), children: Vec::new(), diagnostics: Vec::new() };
    proof {
        assert(buffers@.drafts =~= Seq::<DraftView>::empty());
        assert(buffers@.children =~= Seq::<Seq<SemanticNodeId>>::empty());
        assert(buffers@ == empty_state());
    }
    let roots = match root {
        None => Vec::new(),
        Some(r) => match owner_index(owners, &r) {
            Some(i) => compose_owner(owners, Ghost(rank), i, None, &mut buffers),
            None => {
                push_diagnostic(&mut buffers, SemanticCompositionDiagnostic::MissingMountedOwner);
                Vec::new()
            },
        },
    };
    let ghost st = buffers@;
    proof {
        assert((st, roots@) == spec_compose_root(owners@, rank, root));
    }
    let ComposeBuffers { drafts, children, mut diagnostics } = buffers;
    let relationships = resolve_relationships(owners, &drafts, &mut diagnostics);
    let focused = match focused_owner {
        None => None,
        Some(f) => match visible_id(&drafts, &f, PRIMARY_SEMANTIC_KEY) {
            Some(id) => Some(id),
            None => {
                diagnostics.push(SemanticCompositionDiagnostic::FocusedOwnerMissingVisiblePrimary);
                None
            },
        },
    };
    let ghost expected = spec_compose_semantics(owners@, rank, root, focused_owner);
    proof {
        lemma_resolve_all_len(owners@, st.drafts, st.drafts.len() as int, st.diagnostics);
    }
    let mut nodes: Vec<SemanticNode> = Vec::new();
    let mut k: usize = 0;
    while k < drafts.len()
        invariant
            k <= drafts@.len(),
            drafts@.len() == children@.len(),
            relationships@.len() == drafts@.len(),
            st.drafts == drafts@.map_values(|d: Draft| d@),
            st.children == children@.map_values(|c: Vec<SemanticNodeId>| c@),
            expected == spec_compose_semantics(owners@, rank, root, focused_owner),
            (st, roots@) == spec_compose_root(owners@, rank, root),
            relationships@.map_values(|r: Vec<SemanticRelationship>| r@) == spec_resolve_all(
                owners@,
                st.drafts,
                st.drafts.len() as int,
                st.diagnostics,
            ).0,
            node_views(nodes@) == expected.nodes.take(k as int),
        decreases drafts.len() - k,
    {
        let mut node = drafts[k].node.duplicate();
        node.children = crate::semantic::copy_ids(&children[k]);
        let resolved = relationships[k].clone();
        proof {
            assert(resolved@ =~= relationships@[k as int]@);
        }
        node.relationships = resolved;
        let ghost before = node_views(nodes@);
        let ghost node_view = node@;
        nodes.push(node);
        proof {
            assert(st.drafts[k as int] == drafts@[k as int]@);
            assert(st.children[k as int] == children@[k as int]@);
            assert(relationships@.map_values(|r: Vec<SemanticRelationship>| r@)[k as int]
                == relationships@[k as int]@);
            let rels = spec_resolve_all(owners@, st.drafts, st.drafts.len() as int, st.diagnostics).0;
            assert(rels[k as int] == relationships@[k as int]@);
            assert(expected.nodes.len() == st.drafts.len());
            assert(expected.nodes[k as int] == spec_candidate_node(
                st.drafts[k as int],
                st.children[k as int],
                rels[k as int],
            ));
            assert(node_view =~= expected.nodes[k as int]);
            assert(node_views(nodes@) =~= before.push(node_view));
            assert(node_views(nodes@) =~= expected.nodes.take(k as int + 1));
        }
        k = k + 1;
    }
    proof {
        assert(expected.nodes.take(drafts@.len() as int) =~= expected.nodes);
    }
    SemanticCandidate { roots, nodes, focused, diagnostics }
}

proof fn lemma_visible_id_is_draft(drafts: Seq<DraftView>, owner: MountedNodeId, key: u64, n: int)
    requires
        0 <= n <= drafts.len(),
    ensures
        spec_visible_id(drafts, owner, key, n) matches Some(id) ==> exists|i: int|
            0 <= i < n && #[trigger] drafts[i].node.id == id && drafts[i].owner == owner
                && drafts[i].key == key,
    decreases n,
{
    if n > 0 {
        lemma_visible_id_is_draft(drafts, owner, key, n - 1);
        if spec_visible_id(drafts, owner, key, n - 1) is None && drafts[n - 1].owner == owner
            && drafts[n - 1].key == key {
            assert(drafts[n - 1].node.id == drafts[n - 1].node.id);
        }
    }
}

proof fn lemma_draft_targets_visible(
    owners: Seq<SemanticOwnerFacts>,
    drafts: Seq<DraftView>,
    d: int,
    m: int,
    diagnostics: Seq<SemanticCompositionDiagnostic>,
)
    requires
        0 <= d < drafts.len(),
        0 <= m <= drafts[d].relationships.len(),
    ensures
        ({
            let res = spec_resolve_draft(owners, drafts, d, m, diagnostics).0;
            forall|j: int|
                0 <= j < res.len() ==> exists|i: int|
                    0 <= i < drafts.len() && #[trigger] drafts[i].node.id == (#[trigger] res[j]).target
        }),
    decreases m,
{
    if m > 0 {
        lemma_draft_targets_visible(owners, drafts, d, m - 1, diagnostics);
        let (resolved, diags) = spec_resolve_draft(owners, drafts, d, m - 1, diagnostics);
        let relationship = drafts[d].relationships[m - 1];
        match relationship.target {
            SemanticReference::Local(key) => {
                lemma_visible_id_is_draft(drafts, drafts[d].owner, key, drafts.len() as int);
            },
            SemanticReference::Authored { element_id, semantic_key } => {
                let found = spec_authored_owners(owners, element_id@, owners.len() as int);
                if found.len() == 1 {
                    let key = match semantic_key {
                        Some(k) => k,
                        None => PRIMARY_SEMANTIC_KEY,
                    };
                    lemma_visible_id_is_draft(drafts, owners[found[0]].id, key, drafts.len() as int);
                }
            },
        }
        let full = spec_resolve_draft(owners, drafts, d, m, diagnostics).0;
        assert forall|j: int| 0 <= j < full.len() implies exists|i: int|
            0 <= i < drafts.len() && #[trigger] drafts[i].node.id == (#[trigger] full[j]).target by {
            if j < resolved.len() {
                assert(full[j] == resolved[j]);
            }
        }
    }
}

proof fn lemma_all_targets_visible(
    owners: Seq<SemanticOwnerFacts>,
    drafts: Seq<DraftView>,
    n: int,
    diagnostics: Seq<SemanticCompositionDiagnostic>,
)
    requires
        0 <= n <= drafts.len(),
    ensures
        spec_resolve_all(owners, drafts, n, diagnostics).0.len() == n,
        ({
            let all = spec_resolve_all(owners, drafts, n, diagnostics).0;
            forall|i: int, j: int|
                0 <= i < n && 0 <= j < all[i].len() ==> exists|k: int|
                    0 <= k < drafts.len() && #[trigger] drafts[k].node.id == (#[trigger] all[i][j]).target
        }),
    decreases n,
{
    if n > 0 {
        lemma_all_targets_visible(owners, drafts, n - 1, diagnostics);
        let (all, diags) = spec_resolve_all(owners, drafts, n - 1, diagnostics);
        lemma_draft_targets_visible(
            owners,
            drafts,
            n - 1,
            drafts[n - 1].relationships.len() as int,
            diags,
        );
        let full = spec_resolve_all(owners, drafts, n, diagnostics).0;
        assert forall|i: int, j: int| 0 <= i < n && 0 <= j < full[i].len() implies exists|k: int|
            0 <= k < drafts.len() && #[trigger] drafts[k].node.id == (#[trigger] full[i][j]).target by {
            if i < n - 1 {
                assert(full[i] == all[i]);
            }
        }
    }
}

/// Relationships and focus never fall back: every resolved relationship targets a node
/// of the candidate, and the focused node, when present, is a node of the candidate.
pub proof fn lemma_targets_are_composed_nodes(
    owners: Seq<SemanticOwnerFacts>,
    rank: Seq<nat>,
    root: Option<MountedNodeId>,
    focused_owner: Option<MountedNodeId>,
)
    ensures
        ({
            let c = spec_compose_semantics(owners, rank, root, focused_owner);
            &&& forall|i: int, j: int|
                0 <= i < c.nodes.len() && 0 <= j < c.nodes[i].relationships.len() ==> exists|k: int|
                    0 <= k < c.nodes.len() && #[trigger] c.nodes[k].id == (
                    #[trigger] c.nodes[i].relationships[j]).target
            &&& c.focused matches Some(f) ==> exists|k: int| 0 <= k < c.nodes.len() && #[trigger] c.nodes[k].id == f
        }),
{
    let c = spec_compose_semantics(owners, rank, root, focused_owner);
    let (st, roots) = spec_compose_root(owners, rank, root);
    let n = st.drafts.len() as int;
    lemma_all_targets_visible(owners, st.drafts, n, st.diagnostics);
    let rels = spec_resolve_all(owners, st.drafts, n, st.diagnostics).0;
    assert forall|i: int, j: int|
        0 <= i < c.nodes.len() && 0 <= j < c.nodes[i].relationships.len() implies exists|k: int|
        0 <= k < c.nodes.len() && #[trigger] c.nodes[k].id == (
        #[trigger] c.nodes[i].relationships[j]).target by {
        assert(c.nodes[i].relationships == rels[i]);
        let k = choose|k: int| 0 <= k < st.drafts.len() && #[trigger] st.drafts[k].node.id == rels[i][j].target;
        assert(c.nodes[k].id == st.drafts[k].node.id);
    }
    if let Some(f) = focused_owner {
        lemma_visible_id_is_draft(st.drafts, f, PRIMARY_SEMANTIC_KEY, n);
        if let Some(id) = spec_visible_id(st.drafts, f, PRIMARY_SEMANTIC_KEY, n) {
            let k = choose|k: int|
                0 <= k < n && #[trigger] st.drafts[k].node.id == id && st.drafts[k].owner == f
                    && st.drafts[k].key == PRIMARY_SEMANTIC_KEY;
            assert(c.nodes[k].id == st.drafts[k].node.id);
        }
    }
}

} // verus!
