//! Renderer-independent semantic publication, revisions, and consecutive deltas.
//!
//! Revision `1` is the first committed semantic snapshot. Revisions advance only when
//! the adapter-visible semantic product changes; diagnostics do not participate.

use vstd::prelude::*;

use crate::ids::{SemanticNodeId, SurfaceId};

verus! {

/// Non-zero, non-wrapping revision of one exact surface semantic product.
#[derive(Clone, Copy, Debug, PartialEq, Eq, Hash, PartialOrd, Ord, Structural)]
pub struct SemanticRevision {
    value: u64,
}

impl View for SemanticRevision {
    type V = u64;

    closed spec fn view(&self) -> u64 {
        self.value
    }
}

impl SemanticRevision {
    #[verifier::type_invariant]
    spec fn non_zero(self) -> bool {
        self.value != 0
    }

    /// The revision value with number `value`.
    pub closed spec fn spec_revision(value: u64) -> SemanticRevision {
        SemanticRevision { value }
    }

    /// Revision values are determined by their number.
    pub proof fn lemma_spec_revision(value: u64, revision: SemanticRevision)
        ensures
            Self::spec_revision(value)@ == value,
            revision@ == value <==> revision == Self::spec_revision(value),
    {
    }

    /// Revision assigned to the first committed semantic snapshot.
    pub fn first() -> (revision: SemanticRevision)
        ensures
            revision@ == 1,
    {
        SemanticRevision { value: 1 }
    }

    /// The revision numbered `value`, refusing zero.
    pub fn new(value: u64) -> (revision: Option<SemanticRevision>)
        ensures
            revision is Some <==> value != 0,
            revision matches Some(r) ==> r@ == value,
    {
        if value == 0 {
            None
        } else {
            Some(SemanticRevision { value })
        }
    }

    /// Returns the numeric revision.
    pub fn get(self) -> (value: u64)
        ensures
            value == self@,
            value != 0,
    {
        proof {
            use_type_invariant(&self);
        }
        self.value
    }

    /// The next revision, or `None` when the numbering is exhausted.
    pub fn checked_next(self) -> (next: Option<SemanticRevision>)
        ensures
            next is Some <==> self@ < u64::MAX,
            next matches Some(n) ==> n@ == self@ + 1,
    {
        if self.value == u64::MAX {
            None
        } else {
            Some(SemanticRevision { value: self.value + 1 })
        }
    }
}

/// Runtime-composed semantic state visible in a published node.
#[derive(Clone, Copy, Debug, PartialEq, Eq, Structural)]
pub struct SemanticNodeState {
    disabled: bool,
    inert: bool,
}

impl SemanticNodeState {
    /// State with the given disablement and inertness.
    pub fn new(disabled: bool, inert: bool) -> (state: SemanticNodeState)
        ensures
            state.spec_disabled() == disabled,
            state.spec_inert() == inert,
            state == Self::spec_new(disabled, inert),
    {
        SemanticNodeState { disabled, inert }
    }

    /// The state with the given disablement and inertness.
    pub closed spec fn spec_new(disabled: bool, inert: bool) -> SemanticNodeState {
        SemanticNodeState { disabled, inert }
    }

    /// States are determined by their two flags.
    pub proof fn lemma_spec_new(disabled: bool, inert: bool)
        ensures
            Self::spec_new(disabled, inert).spec_disabled() == disabled,
            Self::spec_new(disabled, inert).spec_inert() == inert,
    {
    }

    /// Whether execution is disabled for the node.
    pub closed spec fn spec_disabled(self) -> bool {
        self.disabled
    }

    /// Whether the node is semantically inert.
    pub closed spec fn spec_inert(self) -> bool {
        self.inert
    }

    /// Returns whether execution is disabled for this published node.
    pub fn disabled(self) -> (disabled: bool)
        ensures
            disabled == self.spec_disabled(),
    {
        self.disabled
    }

    /// Returns whether this published node is semantically inert.
    pub fn inert(self) -> (inert: bool)
        ensures
            inert == self.spec_inert(),
    {
        self.inert
    }
}

impl Default for SemanticNodeState {
    fn default() -> (state: SemanticNodeState)
        ensures
            !state.spec_disabled(),
            !state.spec_inert(),
    {
        SemanticNodeState { disabled: false, inert: false }
    }
}

/// One runtime-resolved semantic relationship: its category code and current target.
#[derive(Clone, Copy, Debug, PartialEq, Eq, Structural)]
pub struct SemanticRelationship {
    /// Platform-neutral relationship category, by code.
    pub kind: u32,
    /// Exact current semantic target.
    pub target: SemanticNodeId,
}

/// Absolute logical bounds, held as the IEEE-754 bit patterns of origin and size.
///
/// Bounds are finite and carry no negative zero, so two bounds are equal exactly when
/// their bit patterns are.
#[derive(Clone, Copy, Debug, PartialEq, Eq, Structural)]
pub struct SemanticBounds {
    /// Bits of the origin's x coordinate.
    pub x: u32,
    /// Bits of the origin's y coordinate.
    pub y: u32,
    /// Bits of the width.
    pub width: u32,
    /// Bits of the height.
    pub height: u32,
}

/// Abstract content of one published semantic node.
#[verifier::ext_equal]
pub ghost struct SemanticNodeView {
    pub id: SemanticNodeId,
    pub parent: Option<SemanticNodeId>,
    pub children: Seq<SemanticNodeId>,
    pub role: u32,
    pub name: Option<Seq<char>>,
    pub description: Option<Seq<char>>,
    pub value: Option<Seq<char>>,
    pub state: SemanticNodeState,
    pub supported_actions: Seq<u32>,
    pub relationships: Seq<SemanticRelationship>,
    pub bounds: SemanticBounds,
    pub text: Option<Seq<char>>,
}

/// View of an optional string.
pub open spec fn text_view(text: Option<String>) -> Option<Seq<char>> {
    match text {
        Some(s) => Some(s@),
        None => None,
    }
}

/// One immutable node in a committed renderer-independent semantic snapshot.
#[derive(Clone, Debug)]
pub struct SemanticNode {
    /// Exact runtime-issued semantic identity.
    pub id: SemanticNodeId,
    /// Semantic parent, or `None` for a semantic root.
    pub parent: Option<SemanticNodeId>,
    /// Semantic children in order.
    pub children: Vec<SemanticNodeId>,
    /// Semantic role, by code.
    pub role: u32,
    /// Accessible name.
    pub name: Option<String>,
    /// Accessible description.
    pub description: Option<String>,
    /// Accessible value, rendered.
    pub value: Option<String>,
    /// Composed state.
    pub state: SemanticNodeState,
    /// Supported actions, by code, in order.
    pub supported_actions: Vec<u32>,
    /// Resolved relationships in order.
    pub relationships: Vec<SemanticRelationship>,
    /// Absolute logical bounds.
    pub bounds: SemanticBounds,
    /// Text semantics, rendered.
    pub text: Option<String>,
}

impl View for SemanticNode {
    type V = SemanticNodeView;

    open spec fn view(&self) -> SemanticNodeView {
        SemanticNodeView {
            id: self.id,
            parent: self.parent,
            children: self.children@,
            role: self.role,
            name: text_view(self.name),
            description: text_view(self.description),
            value: text_view(self.value),
            state: self.state,
            supported_actions: self.supported_actions@,
            relationships: self.relationships@,
            bounds: self.bounds,
            text: text_view(self.text),
        }
    }
}

fn same_text(left: &Option<String>, right: &Option<String>) -> (same: bool)
    ensures
        same == (text_view(*left) == text_view(*right)),
{
    match (left, right) {
        (None, None) => true,
        (Some(a), Some(b)) => a.eq(b),
        _ => false,
    }
}

/// Whether two identity lists are equal.
pub fn same_ids(left: &Vec<SemanticNodeId>, right: &Vec<SemanticNodeId>) -> (same: bool)
    ensures
        same == (left@ == right@),
{
    if left.len() != right.len() {
        return false;
    }
    let mut k: usize = 0;
    while k < left.len()
        invariant
            left.len() == right.len(),
            k <= left.len(),
            forall|j: int| 0 <= j < k ==> left@[j] == right@[j],
        decreases left.len() - k,
    {
        if left[k] != right[k] {
            return false;
        }
        k = k + 1;
    }
    proof {
        assert(left@ =~= right@);
    }
    true
}

fn same_codes(left: &Vec<u32>, right: &Vec<u32>) -> (same: bool)
    ensures
        same == (left@ == right@),
{
    if left.len() != right.len() {
        return false;
    }
    let mut k: usize = 0;
    while k < left.len()
        invariant
            left.len() == right.len(),
            k <= left.len(),
            forall|j: int| 0 <= j < k ==> left@[j] == right@[j],
        decreases left.len() - k,
    {
        if left[k] != right[k] {
            return false;
        }
        k = k + 1;
    }
    proof {
        assert(left@ =~= right@);
    }
    true
}

fn same_relationships(left: &Vec<SemanticRelationship>, right: &Vec<SemanticRelationship>) -> (same:
    bool)
    ensures
        same == (left@ == right@),
{
    if left.len() != right.len() {
        return false;
    }
    let mut k: usize = 0;
    while k < left.len()
        invariant
            left.len() == right.len(),
            k <= left.len(),
            forall|j: int| 0 <= j < k ==> left@[j] == right@[j],
        decreases left.len() - k,
    {
        if left[k].kind != right[k].kind || left[k].target != right[k].target {
            return false;
        }
        k = k + 1;
    }
    proof {
        assert(left@ =~= right@);
    }
    true
}

impl SemanticNode {
    /// Whether two nodes publish the same adapter-visible content.
    pub fn same_content(&self, other: &SemanticNode) -> (same: bool)
        ensures
            same == (self@ == other@),
    {
        let same = self.id == other.id && self.parent == other.parent && same_ids(
            &self.children,
            &other.children,
        ) && self.role == other.role && same_text(&self.name, &other.name) && same_text(
            &self.description,
            &other.description,
        ) && same_text(&self.value, &other.value) && self.state == other.state && same_codes(
            &self.supported_actions,
            &other.supported_actions,
        ) && same_relationships(&self.relationships, &other.relationships) && self.bounds
            == other.bounds && same_text(&self.text, &other.text);
        proof {
            if same {
                assert(self@ =~= other@);
            }
        }
        same
    }
}

pub(crate) fn copy_ids(ids: &Vec<SemanticNodeId>) -> (copy: Vec<SemanticNodeId>)
    ensures
        copy@ == ids@,
{
    let copy = ids.clone();
    proof {
        assert(copy@ =~= ids@);
    }
    copy
}

pub(crate) fn copy_text(text: &Option<String>) -> (copy: Option<String>)
    ensures
        copy == *text,
        text_view(copy) == text_view(*text),
{
    match text {
        Some(s) => Some(s.clone()),
        None => None,
    }
}

impl SemanticNode {
    /// An independent node with the same content.
    pub fn duplicate(&self) -> (copy: SemanticNode)
        ensures
            copy@ == self@,
    {
        let supported_actions = self.supported_actions.clone();
        let relationships = self.relationships.clone();
        proof {
            assert(supported_actions@ =~= self.supported_actions@);
            assert(relationships@ =~= self.relationships@);
        }
        let copy = SemanticNode {
            id: self.id,
            parent: self.parent,
            children: copy_ids(&self.children),
            role: self.role,
            name: copy_text(&self.name),
            description: copy_text(&self.description),
            value: copy_text(&self.value),
            state: self.state,
            supported_actions,
            relationships,
            bounds: self.bounds,
            text: copy_text(&self.text),
        };
        proof {
            assert(copy@ =~= self@);
        }
        copy
    }
}

/// Views of a node sequence.
pub open spec fn node_views(nodes: Seq<SemanticNode>) -> Seq<SemanticNodeView> {
    nodes.map_values(|n: SemanticNode| n@)
}

/// Last position among the first `n` nodes whose identity is `id`.
pub open spec fn spec_last_node_index(nodes: Seq<SemanticNodeView>, id: SemanticNodeId, n: int) -> Option<
    int,
>
    decreases n,
{
    if n <= 0 {
        None
    } else if nodes[n - 1].id == id {
        Some(n - 1)
    } else {
        spec_last_node_index(nodes, id, n - 1)
    }
}

/// The node published under `id`, if any.
pub open spec fn spec_node(nodes: Seq<SemanticNodeView>, id: SemanticNodeId) -> Option<SemanticNodeView> {
    match spec_last_node_index(nodes, id, nodes.len() as int) {
        Some(k) => Some(nodes[k]),
        None => None,
    }
}

proof fn lemma_last_node_index_bound(nodes: Seq<SemanticNodeView>, id: SemanticNodeId, n: int)
    ensures
        spec_last_node_index(nodes, id, n) matches Some(k) ==> 0 <= k < n && nodes[k].id == id,
        spec_last_node_index(nodes, id, n) is None ==> forall|k: int|
            0 <= k < n ==> #[trigger] nodes[k].id != id,
    decreases n,
{
    if n > 0 {
        lemma_last_node_index_bound(nodes, id, n - 1);
    }
}

fn find_last_node(nodes: &Vec<SemanticNode>, id: SemanticNodeId) -> (index: Option<usize>)
    ensures
        index matches Some(k) ==> k < nodes.len() && spec_last_node_index(
            node_views(nodes@),
            id,
            nodes.len() as int,
        ) == Some(k as int),
        index is None ==> spec_last_node_index(node_views(nodes@), id, nodes.len() as int) is None,
{
    let ghost views = node_views(nodes@);
    let mut k = nodes.len();
    while k > 0
        invariant
            k <= nodes.len(),
            views == node_views(nodes@),
            spec_last_node_index(views, id, nodes.len() as int) == spec_last_node_index(
                views,
                id,
                k as int,
            ),
        decreases k,
    {
        if nodes[k - 1].id == id {
            return Some(k - 1);
        }
        k = k - 1;
    }
    None
}

/// Abstract content of one committed semantic snapshot.
pub ghost struct SemanticSnapshotView {
    pub surface: SurfaceId,
    pub revision: SemanticRevision,
    pub roots: Seq<SemanticNodeId>,
    pub nodes: Seq<SemanticNodeView>,
    pub focused: Option<SemanticNodeId>,
}

/// Complete committed semantic product of one surface revision.
#[derive(Clone, Debug)]
pub struct SemanticSnapshot {
    surface: SurfaceId,
    revision: SemanticRevision,
    roots: Vec<SemanticNodeId>,
    nodes: Vec<SemanticNode>,
    focused: Option<SemanticNodeId>,
}

impl View for SemanticSnapshot {
    type V = SemanticSnapshotView;

    closed spec fn view(&self) -> SemanticSnapshotView {
        SemanticSnapshotView {
            surface: self.surface,
            revision: self.revision,
            roots: self.roots@,
            nodes: node_views(self.nodes@),
            focused: self.focused,
        }
    }
}

impl SemanticSnapshot {
    /// Assembles a snapshot from its committed parts.
    pub fn new(
        surface: SurfaceId,
        revision: SemanticRevision,
        roots: Vec<SemanticNodeId>,
        nodes: Vec<SemanticNode>,
        focused: Option<SemanticNodeId>,
    ) -> (snapshot: SemanticSnapshot)
        ensures
            snapshot@ == (SemanticSnapshotView {
                surface,
                revision,
                roots: roots@,
                nodes: node_views(nodes@),
                focused,
            }),
    {
        SemanticSnapshot { surface, revision, roots, nodes, focused }
    }

    /// Returns the exact surface whose product this is.
    pub fn surface_id(&self) -> (surface: &SurfaceId)
        ensures
            *surface == self@.surface,
    {
        &self.surface
    }

    /// Returns the committed semantic revision.
    pub fn revision(&self) -> (revision: SemanticRevision)
        ensures
            revision == self@.revision,
    {
        self.revision
    }

    /// Returns semantic roots in order.
    pub fn roots(&self) -> (roots: &[SemanticNodeId])
        ensures
            roots@ == self@.roots,
    {
        self.roots.as_slice()
    }

    /// Returns published nodes in semantic order.
    pub fn nodes(&self) -> (nodes: &[SemanticNode])
        ensures
            node_views(nodes@) == self@.nodes,
    {
        self.nodes.as_slice()
    }

    /// Looks up a node by exact identity, independently of tree position.
    pub fn node(&self, id: &SemanticNodeId) -> (node: Option<&SemanticNode>)
        ensures
            match spec_node(self@.nodes, *id) {
                Some(expected) => node matches Some(n) && n@ == expected,
                None => node is None,
            },
    {
        match find_last_node(&self.nodes, *id) {
            Some(k) => Some(&self.nodes[k]),
            None => None,
        }
    }

    /// Returns the semantic focus projection, if any.
    pub fn focused(&self) -> (focused: Option<&SemanticNodeId>)
        ensures
            match self@.focused {
                Some(f) => focused matches Some(g) && *g == f,
                None => focused is None,
            },
    {
        self.focused.as_ref()
    }
}

/// Explicit semantic-focus replacement carried by an incremental update.
#[derive(Clone, Copy, Debug, PartialEq, Eq, Structural)]
pub struct SemanticFocusChange {
    previous: Option<SemanticNodeId>,
    current: Option<SemanticNodeId>,
}

impl SemanticFocusChange {
    /// Focus moving from `previous` to `current`.
    pub fn new(previous: Option<SemanticNodeId>, current: Option<SemanticNodeId>) -> (change:
        SemanticFocusChange)
        ensures
            change.spec_previous() == previous,
            change.spec_current() == current,
    {
        SemanticFocusChange { previous, current }
    }

    /// Focus in the previous revision.
    pub closed spec fn spec_previous(self) -> Option<SemanticNodeId> {
        self.previous
    }

    /// Focus in the new revision.
    pub closed spec fn spec_current(self) -> Option<SemanticNodeId> {
        self.current
    }

    /// Returns the focus identity from the previous semantic revision.
    pub fn previous(&self) -> (previous: Option<&SemanticNodeId>)
        ensures
            match self.spec_previous() {
                Some(f) => previous matches Some(g) && *g == f,
                None => previous is None,
            },
    {
        self.previous.as_ref()
    }

    /// Returns the focus identity in the new semantic revision.
    pub fn current(&self) -> (current: Option<&SemanticNodeId>)
        ensures
            match self.spec_current() {
                Some(f) => current matches Some(g) && *g == f,
                None => current is None,
            },
    {
        self.current.as_ref()
    }
}

/// Abstract content of one consecutive semantic delta.
pub ghost struct SemanticUpdateView {
    pub surface: SurfaceId,
    pub previous_revision: SemanticRevision,
    pub revision: SemanticRevision,
    pub removed: Seq<SemanticNodeId>,
    pub added: Seq<SemanticNodeView>,
    pub changed: Seq<SemanticNodeView>,
    pub roots: Option<Seq<SemanticNodeId>>,
    pub focus: Option<SemanticFocusChange>,
}

/// Delta between two consecutive committed semantic revisions of one surface.
///
/// Removals keep previous semantic order; additions and changed nodes keep new
/// semantic order. `roots` and `focus` are present only when those facts changed.
#[derive(Clone, Debug)]
pub struct SemanticUpdate {
    surface: SurfaceId,
    previous_revision: SemanticRevision,
    revision: SemanticRevision,
    removed: Vec<SemanticNodeId>,
    added: Vec<SemanticNode>,
    changed: Vec<SemanticNode>,
    roots: Option<Vec<SemanticNodeId>>,
    focus: Option<SemanticFocusChange>,
}

/// View of optional roots.
pub open spec fn roots_view(roots: Option<Vec<SemanticNodeId>>) -> Option<Seq<SemanticNodeId>> {
    match roots {
        Some(r) => Some(r@),
        None => None,
    }
}

impl View for SemanticUpdate {
    type V = SemanticUpdateView;

    closed spec fn view(&self) -> SemanticUpdateView {
        SemanticUpdateView {
            surface: self.surface,
            previous_revision: self.previous_revision,
            revision: self.revision,
            removed: self.removed@,
            added: node_views(self.added@),
            changed: node_views(self.changed@),
            roots: roots_view(self.roots),
            focus: self.focus,
        }
    }
}

impl SemanticUpdate {
    /// Assembles a delta from its parts.
    pub fn new(
        surface: SurfaceId,
        previous_revision: SemanticRevision,
        revision: SemanticRevision,
        removed: Vec<SemanticNodeId>,
        added: Vec<SemanticNode>,
        changed: Vec<SemanticNode>,
        roots: Option<Vec<SemanticNodeId>>,
        focus: Option<SemanticFocusChange>,
    ) -> (update: SemanticUpdate)
        ensures
            update@ == (SemanticUpdateView {
                surface,
                previous_revision,
                revision,
                removed: removed@,
                added: node_views(added@),
                changed: node_views(changed@),
                roots: roots_view(roots),
                focus,
            }),
    {
        SemanticUpdate { surface, previous_revision, revision, removed, added, changed, roots, focus }
    }

    /// Returns the exact surface whose semantic product changed.
    pub fn surface_id(&self) -> (surface: &SurfaceId)
        ensures
            *surface == self@.surface,
    {
        &self.surface
    }

    /// Returns the semantic revision this delta requires as its base.
    pub fn previous_revision(&self) -> (revision: SemanticRevision)
        ensures
            revision == self@.previous_revision,
    {
        self.previous_revision
    }

    /// Returns the resulting semantic revision.
    pub fn revision(&self) -> (revision: SemanticRevision)
        ensures
            revision == self@.revision,
    {
        self.revision
    }

    /// Returns removed identities in previous semantic order.
    pub fn removed(&self) -> (removed: &[SemanticNodeId])
        ensures
            removed@ == self@.removed,
    {
        self.removed.as_slice()
    }

    /// Returns newly published nodes in new semantic order.
    pub fn added(&self) -> (added: &[SemanticNode])
        ensures
            node_views(added@) == self@.added,
    {
        self.added.as_slice()
    }

    /// Returns changed retained nodes in new semantic order.
    pub fn changed(&self) -> (changed: &[SemanticNode])
        ensures
            node_views(changed@) == self@.changed,
    {
        self.changed.as_slice()
    }

    /// Returns replacement roots when semantic roots changed.
    pub fn roots(&self) -> (roots: Option<&[SemanticNodeId]>)
        ensures
            match self@.roots {
                Some(r) => roots matches Some(s) && s@ == r,
                None => roots is None,
            },
    {
        match &self.roots {
            Some(roots) => Some(roots.as_slice()),
            None => None,
        }
    }

    /// Returns the explicit focus transition when semantic focus changed.
    pub fn focus(&self) -> (focus: Option<&SemanticFocusChange>)
        ensures
            match self@.focus {
                Some(f) => focus matches Some(g) && *g == f,
                None => focus is None,
            },
    {
        self.focus.as_ref()
    }
}

/// Result of asking a committed publication for changes from one declared base.
#[derive(Clone, Copy, Debug)]
pub enum SemanticUpdateResult<'a> {
    /// The declared base already names the current semantic product.
    Unchanged,
    /// The publication contains the exact consecutive delta from the declared base.
    Delta(&'a SemanticUpdate),
    /// The declared surface or revision cannot consume the retained delta safely.
    FullResync(&'a SemanticSnapshot),
}

/// Independently typed semantic product published beside renderer and input products.
///
/// Only the immediately preceding committed delta is retained; a consumer that skips a
/// revision receives a full resynchronization.
#[derive(Clone, Debug)]
pub struct SemanticPublication {
    snapshot: SemanticSnapshot,
    update: Option<SemanticUpdate>,
}

/// View of an optional delta.
pub open spec fn update_view(update: Option<SemanticUpdate>) -> Option<SemanticUpdateView> {
    match update {
        Some(u) => Some(u@),
        None => None,
    }
}

/// Abstract content of one semantic publication.
pub ghost struct SemanticPublicationView {
    pub snapshot: SemanticSnapshotView,
    pub update: Option<SemanticUpdateView>,
}

impl View for SemanticPublication {
    type V = SemanticPublicationView;

    closed spec fn view(&self) -> SemanticPublicationView {
        SemanticPublicationView { snapshot: self.snapshot@, update: update_view(self.update) }
    }
}

impl SemanticPublication {
    /// Assembles a publication from its snapshot and the delta that produced it.
    pub fn new(snapshot: SemanticSnapshot, update: Option<SemanticUpdate>) -> (publication:
        SemanticPublication)
        ensures
            publication@.snapshot == snapshot@,
            publication@.update == update_view(update),
    {
        SemanticPublication { snapshot, update }
    }

    /// Returns the complete current semantic snapshot.
    pub fn snapshot(&self) -> (snapshot: &SemanticSnapshot)
        ensures
            snapshot@ == self@.snapshot,
    {
        &self.snapshot
    }

    /// Returns the consecutive delta that produced this snapshot, if one exists.
    pub fn update(&self) -> (update: Option<&SemanticUpdate>)
        ensures
            match self@.update {
                Some(u) => update matches Some(v) && v@ == u,
                None => update is None,
            },
    {
        self.update.as_ref()
    }

    /// Selects an exact consecutive delta or full resynchronization for a
    /// consumer-declared surface and revision base.
    pub fn update_from(&self, surface: &SurfaceId, revision: SemanticRevision) -> (result:
        SemanticUpdateResult<'_>)
        ensures
            *surface != self@.snapshot.surface ==> (result matches SemanticUpdateResult::FullResync(
                s,
            ) && s@ == self@.snapshot),
            *surface == self@.snapshot.surface && revision == self@.snapshot.revision
                ==> result is Unchanged,
            *surface == self@.snapshot.surface && revision != self@.snapshot.revision
                ==> match self@.update {
                Some(u) => if u.previous_revision == revision {
                    result matches SemanticUpdateResult::Delta(d) && d@ == u
                } else {
                    result matches SemanticUpdateResult::FullResync(s) && s@ == self@.snapshot
                },
                None => result matches SemanticUpdateResult::FullResync(s) && s@
                    == self@.snapshot,
            },
    {
        if *surface != self.snapshot.surface {
            return SemanticUpdateResult::FullResync(&self.snapshot);
        }
        if revision == self.snapshot.revision {
            return SemanticUpdateResult::Unchanged;
        }
        match &self.update {
            Some(update) => {
                if update.previous_revision == revision {
                    SemanticUpdateResult::Delta(update)
                } else {
                    SemanticUpdateResult::FullResync(&self.snapshot)
                }
            },
            None => SemanticUpdateResult::FullResync(&self.snapshot),
        }
    }
}

/// Whether some node among `nodes` is published under `id`.
pub open spec fn spec_has_node(nodes: Seq<SemanticNodeView>, id: SemanticNodeId) -> bool {
    spec_last_node_index(nodes, id, nodes.len() as int) is Some
}

/// Identities of the first `n` previous nodes that the current product no longer has.
pub open spec fn spec_removed(
    previous: Seq<SemanticNodeView>,
    current: Seq<SemanticNodeView>,
    n: int,
) -> Seq<SemanticNodeId>
    decreases n,
{
    if n <= 0 {
        Seq::empty()
    } else {
        let earlier = spec_removed(previous, current, n - 1);
        if !spec_has_node(current, previous[n - 1].id) {
            earlier.push(previous[n - 1].id)
        } else {
            earlier
        }
    }
}

/// The first `n` current nodes whose identity the previous product did not have.
pub open spec fn spec_added(
    previous: Seq<SemanticNodeView>,
    current: Seq<SemanticNodeView>,
    n: int,
) -> Seq<SemanticNodeView>
    decreases n,
{
    if n <= 0 {
        Seq::empty()
    } else {
        let earlier = spec_added(previous, current, n - 1);
        if !spec_has_node(previous, current[n - 1].id) {
            earlier.push(current[n - 1])
        } else {
            earlier
        }
    }
}

/// The first `n` current nodes whose previous node under the same identity differs.
pub open spec fn spec_changed(
    previous: Seq<SemanticNodeView>,
    current: Seq<SemanticNodeView>,
    n: int,
) -> Seq<SemanticNodeView>
    decreases n,
{
    if n <= 0 {
        Seq::empty()
    } else {
        let earlier = spec_changed(previous, current, n - 1);
        match spec_node(previous, current[n - 1].id) {
            Some(old_node) => if old_node != current[n - 1] {
                earlier.push(current[n - 1])
            } else {
                earlier
            },
            None => earlier,
        }
    }
}

/// The consecutive delta from `previous` to `current`.
pub open spec fn spec_semantic_update(
    previous: SemanticSnapshotView,
    current: SemanticSnapshotView,
) -> SemanticUpdateView {
    SemanticUpdateView {
        surface: current.surface,
        previous_revision: previous.revision,
        revision: current.revision,
        removed: spec_removed(previous.nodes, current.nodes, previous.nodes.len() as int),
        added: spec_added(previous.nodes, current.nodes, current.nodes.len() as int),
        changed: spec_changed(previous.nodes, current.nodes, current.nodes.len() as int),
        roots: if previous.roots != current.roots {
            Some(current.roots)
        } else {
            None
        },
        focus: if previous.focused != current.focused {
            Some(SemanticFocusChange::spec_change(previous.focused, current.focused))
        } else {
            None
        },
    }
}

impl SemanticFocusChange {
    /// The change value from `previous` to `current`.
    pub closed spec fn spec_change(previous: Option<SemanticNodeId>, current: Option<SemanticNodeId>) -> SemanticFocusChange {
        SemanticFocusChange { previous, current }
    }

    /// What a change value reports.
    pub proof fn lemma_spec_change(previous: Option<SemanticNodeId>, current: Option<SemanticNodeId>)
        ensures
            Self::spec_change(previous, current).spec_previous() == previous,
            Self::spec_change(previous, current).spec_current() == current,
    {
    }
}

/// Builds the consecutive delta from `previous` to `current`.
pub fn semantic_update(previous: &SemanticSnapshot, current: &SemanticSnapshot) -> (update:
    SemanticUpdate)
    ensures
        update@ == spec_semantic_update(previous@, current@),
{
    let ghost prev = node_views(previous.nodes@);
    let ghost cur = node_views(current.nodes@);
    let mut removed: Vec<SemanticNodeId> = Vec::new();
    for k in 0..previous.nodes.len()
        invariant
            prev == node_views(previous.nodes@),
            cur == node_views(current.nodes@),
            removed@ == spec_removed(prev, cur, k as int),
    {
        let id = previous.nodes[k].id;
        if find_last_node(&current.nodes, id).is_none() {
            removed.push(id);
        }
    }
    let mut added: Vec<SemanticNode> = Vec::new();
    let mut changed: Vec<SemanticNode> = Vec::new();
    for k in 0..current.nodes.len()
        invariant
            prev == node_views(previous.nodes@),
            cur == node_views(current.nodes@),
            node_views(added@) == spec_added(prev, cur, k as int),
            node_views(changed@) == spec_changed(prev, cur, k as int),
    {
        let node = &current.nodes[k];
        match find_last_node(&previous.nodes, node.id) {
            None => {
                let copy = node.duplicate();
                added.push(copy);
                proof {
                    assert(node_views(added@) =~= spec_added(prev, cur, k + 1));
                }
            },
            Some(index) => {
                if !previous.nodes[index].same_content(node) {
                    let copy = node.duplicate();
                    changed.push(copy);
                    proof {
                        assert(node_views(changed@) =~= spec_changed(prev, cur, k + 1));
                    }
                }
            },
        }
    }
    let roots = if same_ids(&previous.roots, &current.roots) {
        None
    } else {
        Some(copy_ids(&current.roots))
    };
    let focus = if previous.focused != current.focused {
        Some(SemanticFocusChange::new(previous.focused, current.focused))
    } else {
        None
    };
    let update = SemanticUpdate {
        surface: current.surface,
        previous_revision: previous.revision,
        revision: current.revision,
        removed,
        added,
        changed,
        roots,
        focus,
    };
    proof {
        if previous.focused != current.focused {
            assert(focus == Some(SemanticFocusChange::spec_change(previous.focused, current.focused)));
        }
        assert(update@ =~= spec_semantic_update(previous@, current@));
    }
    update
}

/// One diagnostic of semantic composition, with owner-local keys and authored element
/// identities held by value.
#[derive(Clone, Debug, PartialEq, Eq)]
pub enum SemanticCompositionDiagnostic {
    MissingOwnerBinding { key: u64 },
    MissingMountedOwner,
    MissingLocalRelationshipTarget { source: SemanticNodeId, key: u64 },
    MissingAuthoredRelationshipOwner { source: SemanticNodeId, element_id: String },
    AmbiguousAuthoredRelationshipOwner { source: SemanticNodeId, element_id: String },
    MissingAuthoredRelationshipTarget { source: SemanticNodeId, element_id: String, key: u64 },
    FocusedOwnerMissingVisiblePrimary,
}

/// Composed semantic product of one publication attempt, not yet committed.
#[derive(Clone, Debug)]
pub struct SemanticCandidate {
    /// Semantic roots in order.
    pub roots: Vec<SemanticNodeId>,
    /// Candidate nodes in semantic order.
    pub nodes: Vec<SemanticNode>,
    /// Semantic focus projection.
    pub focused: Option<SemanticNodeId>,
    /// Composition diagnostics of this attempt.
    pub diagnostics: Vec<SemanticCompositionDiagnostic>,
}

/// Whether a candidate carries exactly the adapter-visible product of a snapshot.
pub open spec fn spec_candidate_matches(candidate: SemanticCandidate, snapshot: SemanticSnapshotView) -> bool {
    &&& candidate.roots@ == snapshot.roots
    &&& candidate.focused == snapshot.focused
    &&& node_views(candidate.nodes@) == snapshot.nodes
}

fn candidate_matches_snapshot(candidate: &SemanticCandidate, snapshot: &SemanticSnapshot) -> (matches:
    bool)
    ensures
        matches == spec_candidate_matches(*candidate, snapshot@),
{
    if !same_ids(&candidate.roots, &snapshot.roots) || candidate.focused != snapshot.focused {
        return false;
    }
    if candidate.nodes.len() != snapshot.nodes.len() {
        proof {
            assert(node_views(candidate.nodes@).len() != node_views(snapshot.nodes@).len());
        }
        return false;
    }
    let mut k: usize = 0;
    while k < candidate.nodes.len()
        invariant
            candidate.nodes.len() == snapshot.nodes.len(),
            k <= candidate.nodes.len(),
            forall|j: int| 0 <= j < k ==> candidate.nodes@[j]@ == snapshot.nodes@[j]@,
        decreases candidate.nodes.len() - k,
    {
        if !candidate.nodes[k].same_content(&snapshot.nodes[k]) {
            proof {
                assert(node_views(candidate.nodes@)[k as int] != node_views(snapshot.nodes@)[k as int]);
            }
            return false;
        }
        k = k + 1;
    }
    proof {
        assert(node_views(candidate.nodes@) =~= node_views(snapshot.nodes@));
    }
    true
}

/// The publication committed from `candidate` at `revision`, with the consecutive
/// delta from `previous` when there is one.
pub open spec fn spec_publication_from_candidate(
    surface: SurfaceId,
    revision: SemanticRevision,
    candidate: SemanticCandidate,
    previous: Option<SemanticSnapshotView>,
) -> SemanticPublicationView {
    let snapshot = SemanticSnapshotView {
        surface,
        revision,
        roots: candidate.roots@,
        nodes: node_views(candidate.nodes@),
        focused: candidate.focused,
    };
    SemanticPublicationView {
        snapshot,
        update: match previous {
            Some(p) => Some(spec_semantic_update(p, snapshot)),
            None => None,
        },
    }
}

/// Builds the publication committed from `candidate` at `revision`.
pub fn publication_from_candidate(
    surface: &SurfaceId,
    revision: SemanticRevision,
    candidate: SemanticCandidate,
    previous: Option<&SemanticSnapshot>,
) -> (publication: SemanticPublication)
    ensures
        publication@ == spec_publication_from_candidate(
            *surface,
            revision,
            candidate,
            match previous {
                Some(p) => Some(p@),
                None => None,
            },
        ),
{
    let ghost expected = spec_publication_from_candidate(
        *surface,
        revision,
        candidate,
        match previous {
            Some(p) => Some(p@),
            None => None,
        },
    );
    let SemanticCandidate { roots, nodes, focused, diagnostics: _ } = candidate;
    let snapshot = SemanticSnapshot { surface: *surface, revision, roots, nodes, focused };
    let update = match previous {
        Some(previous) => Some(semantic_update(previous, &snapshot)),
        None => None,
    };
    let publication = SemanticPublication { snapshot, update };
    proof {
        assert(publication@ == expected);
    }
    publication
}

/// Error refusing a semantic publication plan.
#[derive(Clone, Copy, Debug, PartialEq, Eq, Structural)]
pub enum SemanticPublicationPlanError {
    /// The changed product needs a revision beyond the last representable one.
    RevisionExhausted,
}

/// Staged semantic publication and diagnostics of one attempt.
pub struct SemanticPublicationPlan {
    publication: Option<SemanticPublication>,
    diagnostics: Option<Vec<SemanticCompositionDiagnostic>>,
}

/// Abstract content of a staged plan.
pub ghost struct SemanticPublicationPlanView {
    pub publication: Option<SemanticPublicationView>,
    pub diagnostics: Option<Seq<SemanticCompositionDiagnostic>>,
}

/// View of an optional publication.
pub open spec fn publication_view(publication: Option<SemanticPublication>) -> Option<
    SemanticPublicationView,
> {
    match publication {
        Some(p) => Some(p@),
        None => None,
    }
}

impl View for SemanticPublicationPlan {
    type V = SemanticPublicationPlanView;

    closed spec fn view(&self) -> SemanticPublicationPlanView {
        SemanticPublicationPlanView {
            publication: publication_view(self.publication),
            diagnostics: match self.diagnostics {
                Some(d) => Some(d@),
                None => None,
            },
        }
    }
}

impl SemanticPublicationPlan {
    /// The staged publication, if the plan changes the semantic product.
    pub fn publication(&self) -> (publication: Option<&SemanticPublication>)
        ensures
            match self@.publication {
                Some(p) => publication matches Some(q) && q@ == p,
                None => publication is None,
            },
    {
        self.publication.as_ref()
    }

    /// The staged diagnostics, if the plan carries a candidate.
    pub fn diagnostics(&self) -> (diagnostics: Option<&Vec<SemanticCompositionDiagnostic>>)
        ensures
            match self@.diagnostics {
                Some(d) => diagnostics matches Some(e) && e@ == d,
                None => diagnostics is None,
            },
    {
        self.diagnostics.as_ref()
    }
}

/// Runtime-owned committed semantic publication and latest diagnostics of one surface.
pub struct SemanticPublicationState {
    current: Option<SemanticPublication>,
    diagnostics: Vec<SemanticCompositionDiagnostic>,
}

/// Abstract content of the semantic publication state.
pub ghost struct SemanticPublicationStateView {
    pub current: Option<SemanticPublicationView>,
    pub diagnostics: Seq<SemanticCompositionDiagnostic>,
}

impl View for SemanticPublicationState {
    type V = SemanticPublicationStateView;

    closed spec fn view(&self) -> SemanticPublicationStateView {
        SemanticPublicationStateView {
            current: publication_view(self.current),
            diagnostics: self.diagnostics@,
        }
    }
}

/// The plan that `SemanticPublicationState::plan` produces.
pub open spec fn spec_semantic_plan(
    current: Option<SemanticPublicationView>,
    surface: SurfaceId,
    candidate: Option<SemanticCandidate>,
) -> Result<SemanticPublicationPlanView, SemanticPublicationPlanError> {
    match candidate {
        None => Ok(SemanticPublicationPlanView { publication: None, diagnostics: None }),
        Some(c) => match current {
            None => Ok(
                SemanticPublicationPlanView {
                    publication: Some(
                        spec_publication_from_candidate(
                            surface,
                            SemanticRevision::spec_revision(1),
                            c,
                            None,
                        ),
                    ),
                    diagnostics: Some(c.diagnostics@),
                },
            ),
            Some(p) => if spec_candidate_matches(c, p.snapshot) {
                Ok(SemanticPublicationPlanView { publication: None, diagnostics: Some(c.diagnostics@) })
            } else if p.snapshot.revision@ == u64::MAX {
                Err(SemanticPublicationPlanError::RevisionExhausted)
            } else {
                Ok(
                    SemanticPublicationPlanView {
                        publication: Some(
                            spec_publication_from_candidate(
                                surface,
                                SemanticRevision::spec_revision((p.snapshot.revision@ + 1) as u64),
                                c,
                                Some(p.snapshot),
                            ),
                        ),
                        diagnostics: Some(c.diagnostics@),
                    },
                )
            },
        },
    }
}

impl SemanticPublicationState {
    /// State with nothing committed yet.
    pub fn new() -> (state: SemanticPublicationState)
        ensures
            state@.current is None,
            state@.diagnostics == Seq::<SemanticCompositionDiagnostic>::empty(),
    {
        SemanticPublicationState { current: None, diagnostics: Vec::new() }
    }

    /// State holding `current` as committed, with `diagnostics` as the latest ones.
    pub fn from_parts(
        current: Option<SemanticPublication>,
        diagnostics: Vec<SemanticCompositionDiagnostic>,
    ) -> (state: SemanticPublicationState)
        ensures
            state@.current == publication_view(current),
            state@.diagnostics == diagnostics@,
    {
        SemanticPublicationState { current, diagnostics }
    }

    /// Returns the committed semantic publication, if any.
    pub fn current_publication(&self) -> (publication: Option<&SemanticPublication>)
        ensures
            match self@.current {
                Some(p) => publication matches Some(q) && q@ == p,
                None => publication is None,
            },
    {
        self.current.as_ref()
    }

    /// Returns the latest committed diagnostics.
    pub fn diagnostics(&self) -> (diagnostics: &Vec<SemanticCompositionDiagnostic>)
        ensures
            diagnostics@ == self@.diagnostics,
    {
        &self.diagnostics
    }

    /// Stages the publication of one candidate without changing the committed state.
    ///
    /// The first product commits at revision `1` without a delta; an unchanged product
    /// stages no publication; a changed product advances the revision by one and
    /// carries the exact consecutive delta.
    pub fn plan(&self, surface: &SurfaceId, candidate: Option<SemanticCandidate>) -> (plan: Result<
        SemanticPublicationPlan,
        SemanticPublicationPlanError,
    >)
        ensures
            match spec_semantic_plan(self@.current, *surface, candidate) {
                Ok(expected) => plan matches Ok(p) && p@ == expected,
                Err(e) => plan == Err::<SemanticPublicationPlan, SemanticPublicationPlanError>(e),
            },
    {
        let candidate = match candidate {
            None => {
                return Ok(SemanticPublicationPlan { publication: None, diagnostics: None });
            },
            Some(candidate) => candidate,
        };
        let ghost whole = candidate;
        let unchanged = match &self.current {
            Some(current) => candidate_matches_snapshot(&candidate, &current.snapshot),
            None => false,
        };
        let SemanticCandidate { roots, nodes, focused, diagnostics } = candidate;
        if unchanged {
            return Ok(SemanticPublicationPlan { publication: None, diagnostics: Some(diagnostics) });
        }
        let product = SemanticCandidate { roots, nodes, focused, diagnostics: Vec::new() };
        let publication = match &self.current {
            None => {
                let first = SemanticRevision::first();
                proof {
                    SemanticRevision::lemma_spec_revision(1, first);
                }
                publication_from_candidate(surface, first, product, None)
            },
            Some(current) => {
                let revision = match current.snapshot.revision.checked_next() {
                    Some(revision) => revision,
                    None => {
                        return Err(SemanticPublicationPlanError::RevisionExhausted);
                    },
                };
                proof {
                    SemanticRevision::lemma_spec_revision(revision@, revision);
                }
                publication_from_candidate(surface, revision, product, Some(&current.snapshot))
            },
        };
        proof {
            assert(spec_publication_from_candidate(
                *surface,
                publication@.snapshot.revision,
                product,
                match self@.current {
                    Some(p) => Some(p.snapshot),
                    None => None,
                },
            ) == spec_publication_from_candidate(
                *surface,
                publication@.snapshot.revision,
                whole,
                match self@.current {
                    Some(p) => Some(p.snapshot),
                    None => None,
                },
            ));
        }
        Ok(SemanticPublicationPlan { publication: Some(publication), diagnostics: Some(diagnostics) })
    }

    /// Commits a staged plan: its publication and its diagnostics, each when present.
    pub fn commit(&mut self, plan: SemanticPublicationPlan)
        ensures
            final(self)@.current == match plan@.publication {
                Some(p) => Some(p),
                None => old(self)@.current,
            },
            final(self)@.diagnostics == match plan@.diagnostics {
                Some(d) => d,
                None => old(self)@.diagnostics,
            },
    {
        let SemanticPublicationPlan { publication, diagnostics } = plan;
        if let Some(publication) = publication {
            self.current = Some(publication);
        }
        if let Some(diagnostics) = diagnostics {
            self.diagnostics = diagnostics;
        }
    }
}

/// No two nodes share an identity.
pub open spec fn ids_unique(nodes: Seq<SemanticNodeView>) -> bool {
    forall|i: int, j: int| 0 <= i < j < nodes.len() ==> #[trigger] nodes[i].id != #[trigger] nodes[j].id
}

/// Nodes by identity.
pub open spec fn node_map(nodes: Seq<SemanticNodeView>) -> Map<SemanticNodeId, SemanticNodeView> {
    Map::new(|id: SemanticNodeId| spec_has_node(nodes, id), |id: SemanticNodeId| spec_node(nodes, id)->0)
}

/// Nodes by identity after a consumer applies `update` to `previous`.
pub open spec fn apply_semantic_update(
    previous: Map<SemanticNodeId, SemanticNodeView>,
    update: SemanticUpdateView,
) -> Map<SemanticNodeId, SemanticNodeView> {
    previous.remove_keys(update.removed.to_set()).union_prefer_right(
        node_map(update.changed),
    ).union_prefer_right(node_map(update.added))
}

proof fn lemma_last_index_agree(
    s: Seq<SemanticNodeView>,
    t: Seq<SemanticNodeView>,
    id: SemanticNodeId,
    m: int,
)
    requires
        0 <= m <= s.len(),
        m <= t.len(),
        forall|k: int| 0 <= k < m ==> s[k] == t[k],
    ensures
        spec_last_node_index(s, id, m) == spec_last_node_index(t, id, m),
    decreases m,
{
    if m > 0 {
        lemma_last_index_agree(s, t, id, m - 1);
    }
}

proof fn lemma_last_index_exists(nodes: Seq<SemanticNodeView>, id: SemanticNodeId, n: int, k: int)
    requires
        0 <= k < n <= nodes.len(),
        nodes[k].id == id,
    ensures
        spec_last_node_index(nodes, id, n) matches Some(j) && k <= j,
    decreases n,
{
    if n - 1 != k && nodes[n - 1].id != id {
        lemma_last_index_exists(nodes, id, n - 1, k);
    }
}

proof fn lemma_last_index_push(s: Seq<SemanticNodeView>, e: SemanticNodeView, id: SemanticNodeId)
    ensures
        spec_last_node_index(s.push(e), id, s.len() + 1int) == if e.id == id {
            Some(s.len() as int)
        } else {
            spec_last_node_index(s, id, s.len() as int)
        },
{
    lemma_last_index_agree(s.push(e), s, id, s.len() as int);
}

proof fn lemma_removed_contains(
    previous: Seq<SemanticNodeView>,
    current: Seq<SemanticNodeView>,
    n: int,
    id: SemanticNodeId,
)
    requires
        0 <= n <= previous.len(),
    ensures
        spec_removed(previous, current, n).contains(id) <==> (spec_last_node_index(previous, id, n)
            is Some && !spec_has_node(current, id)),
    decreases n,
{
    if n > 0 {
        lemma_removed_contains(previous, current, n - 1, id);
        lemma_last_node_index_bound(previous, id, n - 1);
        let earlier = spec_removed(previous, current, n - 1);
        if !spec_has_node(current, previous[n - 1].id) {
            let pushed = earlier.push(previous[n - 1].id);
            if earlier.contains(id) {
                let k = choose|k: int| 0 <= k < earlier.len() && earlier[k] == id;
                assert(pushed[k] == id);
            }
            if pushed.contains(id) && !earlier.contains(id) {
                assert(pushed[earlier.len() as int] == id);
            }
            if previous[n - 1].id == id {
                assert(pushed[earlier.len() as int] == id);
            }
        }
        if spec_last_node_index(previous, id, n - 1) is Some {
            let j = spec_last_node_index(previous, id, n - 1)->0;
            lemma_last_index_exists(previous, id, n, j);
        }
    }
}

proof fn lemma_added_node(
    previous: Seq<SemanticNodeView>,
    current: Seq<SemanticNodeView>,
    n: int,
    id: SemanticNodeId,
)
    requires
        0 <= n <= current.len(),
    ensures
        ({
            let added = spec_added(previous, current, n);
            &&& (spec_last_node_index(added, id, added.len() as int) is Some <==> (
            spec_last_node_index(current, id, n) is Some && !spec_has_node(previous, id)))
            &&& spec_last_node_index(added, id, added.len() as int) matches Some(a) ==> added[a]
                == current[spec_last_node_index(current, id, n)->0]
        }),
    decreases n,
{
    if n > 0 {
        lemma_added_node(previous, current, n - 1, id);
        let earlier = spec_added(previous, current, n - 1);
        let added = spec_added(previous, current, n);
        if !spec_has_node(previous, current[n - 1].id) {
            lemma_last_index_push(earlier, current[n - 1], id);
            assert(added == earlier.push(current[n - 1]));
            if current[n - 1].id == id {
                assert(spec_last_node_index(current, id, n) == Some(n - 1));
                assert(added[earlier.len() as int] == current[n - 1]);
            } else {
                assert(spec_last_node_index(current, id, n) == spec_last_node_index(current, id, n - 1));
                if let Some(a) = spec_last_node_index(earlier, id, earlier.len() as int) {
                    lemma_last_node_index_bound(earlier, id, earlier.len() as int);
                    assert(added[a] == earlier[a]);
                }
            }
        } else {
            assert(added == earlier);
            if current[n - 1].id == id {
                assert(spec_has_node(previous, id));
            } else {
                assert(spec_last_node_index(current, id, n) == spec_last_node_index(current, id, n - 1));
            }
        }
    }
}

proof fn lemma_changed_node(
    previous: Seq<SemanticNodeView>,
    current: Seq<SemanticNodeView>,
    n: int,
    id: SemanticNodeId,
)
    requires
        0 <= n <= current.len(),
        ids_unique(current),
    ensures
        ({
            let changed = spec_changed(previous, current, n);
            &&& (spec_last_node_index(changed, id, changed.len() as int) is Some <==> (
            spec_last_node_index(current, id, n) matches Some(k) && spec_node(previous, id) matches Some(
                old_node,
            ) && old_node != current[k]))
            &&& spec_last_node_index(changed, id, changed.len() as int) matches Some(a) ==> changed[a]
                == current[spec_last_node_index(current, id, n)->0]
        }),
    decreases n,
{
    if n > 0 {
        lemma_changed_node(previous, current, n - 1, id);
        lemma_last_node_index_bound(current, id, n - 1);
        let earlier = spec_changed(previous, current, n - 1);
        let changed = spec_changed(previous, current, n);
        lemma_last_index_push(earlier, current[n - 1], id);
        let pushes = match spec_node(previous, current[n - 1].id) {
            Some(old_node) => old_node != current[n - 1],
            None => false,
        };
        if current[n - 1].id == id {
            assert(spec_last_node_index(current, id, n) == Some(n - 1));
            if let Some(j) = spec_last_node_index(current, id, n - 1) {
                assert(current[j].id != current[n - 1].id);
            }
            assert(spec_last_node_index(current, id, n - 1) is None);
            assert(spec_last_node_index(earlier, id, earlier.len() as int) is None);
            if pushes {
                assert(changed == earlier.push(current[n - 1]));
                assert(changed[earlier.len() as int] == current[n - 1]);
            } else {
                assert(changed == earlier);
            }
        } else {
            assert(spec_last_node_index(current, id, n) == spec_last_node_index(current, id, n - 1));
            if pushes {
                assert(changed == earlier.push(current[n - 1]));
                if let Some(a) = spec_last_node_index(earlier, id, earlier.len() as int) {
                    lemma_last_node_index_bound(earlier, id, earlier.len() as int);
                    assert(changed[a] == earlier[a]);
                }
            } else {
                assert(changed == earlier);
            }
        }
    }
}

/// A consumer that applies the delta to the previous snapshot's nodes obtains exactly
/// the current snapshot's nodes, roots, and focus.
pub proof fn lemma_update_reconstructs_current(
    previous: SemanticSnapshotView,
    current: SemanticSnapshotView,
)
    requires
        ids_unique(previous.nodes),
        ids_unique(current.nodes),
    ensures
        apply_semantic_update(node_map(previous.nodes), spec_semantic_update(previous, current))
            == node_map(current.nodes),
        current.roots == match spec_semantic_update(previous, current).roots {
            Some(roots) => roots,
            None => previous.roots,
        },
        current.focused == match spec_semantic_update(previous, current).focus {
            Some(change) => change.spec_current(),
            None => previous.focused,
        },
{
    let update = spec_semantic_update(previous, current);
    let applied = apply_semantic_update(node_map(previous.nodes), update);
    let expected = node_map(current.nodes);
    assert forall|id: SemanticNodeId| #[trigger] applied.contains_key(id) <==> expected.contains_key(id) by {
        lemma_removed_contains(previous.nodes, current.nodes, previous.nodes.len() as int, id);
        lemma_added_node(previous.nodes, current.nodes, current.nodes.len() as int, id);
        lemma_changed_node(previous.nodes, current.nodes, current.nodes.len() as int, id);
    }
    assert forall|id: SemanticNodeId| #[trigger] applied.contains_key(id) implies applied[id]
        == expected[id] by {
        lemma_removed_contains(previous.nodes, current.nodes, previous.nodes.len() as int, id);
        lemma_added_node(previous.nodes, current.nodes, current.nodes.len() as int, id);
        lemma_changed_node(previous.nodes, current.nodes, current.nodes.len() as int, id);
        lemma_last_node_index_bound(current.nodes, id, current.nodes.len() as int);
    }
    assert(applied =~= expected);
    if previous.focused != current.focused {
        SemanticFocusChange::lemma_spec_change(previous.focused, current.focused);
    }
}

/// Semantic revisions are consecutive: the first staged publication of a surface is
/// revision `1` with no delta; every later staged publication advances the committed
/// revision by exactly one and carries a delta from the committed revision to the new
/// one; an unchanged product or no candidate stages nothing; planning fails only when
/// the committed revision is the last representable one and the product changed.
pub proof fn lemma_plan_revisions_are_consecutive(
    current: Option<SemanticPublicationView>,
    surface: SurfaceId,
    candidate: Option<SemanticCandidate>,
)
    ensures
        match spec_semantic_plan(current, surface, candidate) {
            Ok(plan) => match plan.publication {
                Some(p) => match current {
                    None => p.snapshot.revision@ == 1 && p.update is None,
                    Some(c) => {
                        &&& p.snapshot.revision@ == c.snapshot.revision@ + 1
                        &&& p.update matches Some(u)
                        &&& u.previous_revision == c.snapshot.revision
                        &&& u.revision == p.snapshot.revision
                    },
                },
                None => candidate is None || (current matches Some(c) && spec_candidate_matches(
                    candidate->0,
                    c.snapshot,
                )),
            },
            Err(_) => current matches Some(c) && c.snapshot.revision@ == u64::MAX
                && !spec_candidate_matches(candidate->0, c.snapshot),
        },
{
    SemanticRevision::lemma_spec_revision(1, SemanticRevision::spec_revision(1));
    if let Some(c) = current {
        let next = (c.snapshot.revision@ + 1) as u64;
        SemanticRevision::lemma_spec_revision(next, SemanticRevision::spec_revision(next));
    }
}

/// Diagnostics are publication-side observations rather than semantic revision identity:
/// two candidates that differ only in their diagnostics plan the same publication, or
/// fail alike, so a diagnostics-only change needs no new semantic snapshot revision.
pub proof fn lemma_diagnostics_do_not_revise(
    current: Option<SemanticPublicationView>,
    surface: SurfaceId,
    first: SemanticCandidate,
    second: SemanticCandidate,
)
    requires
        first.roots@ == second.roots@,
        node_views(first.nodes@) == node_views(second.nodes@),
        first.focused == second.focused,
    ensures
        match (spec_semantic_plan(current, surface, Some(first)), spec_semantic_plan(current, surface, Some(second))) {
            (Ok(a), Ok(b)) => a.publication == b.publication,
            (Err(a), Err(b)) => a == b,
            _ => false,
        },
{
    let a = spec_publication_from_candidate(surface, SemanticRevision::spec_revision(1), first, None);
    let b = spec_publication_from_candidate(surface, SemanticRevision::spec_revision(1), second, None);
    assert(a.snapshot == b.snapshot);
    if let Some(p) = current {
        let r = SemanticRevision::spec_revision((p.snapshot.revision@ + 1) as u64);
        let a2 = spec_publication_from_candidate(surface, r, first, Some(p.snapshot));
        let b2 = spec_publication_from_candidate(surface, r, second, Some(p.snapshot));
        assert(a2.snapshot == b2.snapshot);
    }
}

} // verus!
