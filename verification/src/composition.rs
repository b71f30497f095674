//! First-member contraction of node-effect and explicit owner-local paint groups.
//!
//! Topology nodes are indexed in mounted preorder, so every parent index precedes its
//! child. Group candidates are the nodes whose effects require a group, in node order,
//! followed by every resolved explicit group. A candidate is published only when some
//! paint item lies inside it; its anchor is the first such item, and every composition
//! bucket lists its entries in anchor order.

use vstd::prelude::*;

use crate::ids::MountedNodeId;
use crate::scene::{
    PaintSceneComposition, PaintSceneEntry, PaintSceneGroup, PaintSceneGroupId,
    PaintSceneGroupView, ungrouped_entries,
};

verus! {

/// Runtime-private staging reference to one resolved explicit owner-local group.
#[derive(Clone, Copy, Debug, PartialEq, Eq, Structural)]
pub struct ExplicitGroupId {
    index: usize,
}

impl View for ExplicitGroupId {
    type V = usize;

    closed spec fn view(&self) -> usize {
        self.index
    }
}

impl ExplicitGroupId {
    /// The reference value for position `index`.
    pub closed spec fn spec_id(index: usize) -> ExplicitGroupId {
        ExplicitGroupId { index }
    }

    /// The reference value names its position, and positions name one value.
    pub proof fn lemma_spec_id(index: usize, id: ExplicitGroupId)
        ensures
            Self::spec_id(index)@ == index,
            id@ == index <==> id == Self::spec_id(index),
    {
    }

    /// Reference to position `index` of the resolved explicit group table.
    pub fn new(index: usize) -> (id: ExplicitGroupId)
        ensures
            id@ == index,
            id == Self::spec_id(index),
    {
        ExplicitGroupId { index }
    }

    /// Position of the referenced group in the resolved explicit group table.
    pub fn index(self) -> (index: usize)
        ensures
            index == self@,
    {
        self.index
    }
}

/// Every `Some(p)` at position `i` names an earlier position.
pub open spec fn parents_precede(parent: Seq<Option<usize>>) -> bool {
    forall|i: int| 0 <= i < parent.len() ==> (#[trigger] parent[i] matches Some(p) ==> p < i)
}

/// Number of `true` values among the first `n` positions.
pub open spec fn count_true(flags: Seq<bool>, n: int) -> nat
    decreases n,
{
    if n <= 0 {
        0
    } else {
        count_true(flags, n - 1) + if flags[n - 1] {
            1nat
        } else {
            0nat
        }
    }
}

/// Group candidate owned by each node: the node's rank among the nodes that need one.
pub open spec fn spec_node_groups(requires_group: Seq<bool>) -> Seq<Option<usize>> {
    Seq::new(
        requires_group.len(),
        |n: int|
            if requires_group[n] {
                Some(count_true(requires_group, n) as usize)
            } else {
                None
            },
    )
}

/// The group of the nearest node at or above `cursor` that owns a group candidate.
pub open spec fn spec_nearest_node_group(
    cursor: Option<usize>,
    parent: Seq<Option<usize>>,
    node_groups: Seq<Option<usize>>,
) -> Option<usize>
    decreases
            match cursor {
                Some(c) => c + 1,
                None => 0,
            },
{
    match cursor {
        None => None,
        Some(node) => {
            if node >= node_groups.len() || node >= parent.len() {
                None
            } else if node_groups[node as int] is Some {
                node_groups[node as int]
            } else {
                match parent[node as int] {
                    Some(p) => if p < node {
                        spec_nearest_node_group(Some(p), parent, node_groups)
                    } else {
                        None
                    },
                    None => None,
                }
            }
        },
    }
}

proof fn lemma_count_true_monotone(flags: Seq<bool>, a: int, b: int)
    requires
        0 <= a <= b <= flags.len(),
    ensures
        count_true(flags, a) <= count_true(flags, b),
        (a < b && flags[a]) ==> count_true(flags, a) < count_true(flags, b),
    decreases b - a,
{
    if a < b {
        lemma_count_true_monotone(flags, a, b - 1);
        if flags[a] && a < b - 1 {
            lemma_count_true_monotone(flags, a + 1, b - 1);
        }
    }
}

/// The node `k` parent links above `node`: `node` itself for `k == 0`, and `None` once
/// the chain of parents ends.
pub open spec fn ancestor(parent: Seq<Option<usize>>, node: usize, k: nat) -> Option<usize>
    decreases k,
{
    if k == 0 {
        Some(node)
    } else if node < parent.len() {
        match parent[node as int] {
            Some(p) => ancestor(parent, p, (k - 1) as nat),
            None => None,
        }
    } else {
        None
    }
}

/// Whether the node `k` links above `node` exists and has no group.
pub open spec fn ungrouped_ancestor(
    parent: Seq<Option<usize>>,
    node_groups: Seq<Option<usize>>,
    node: usize,
    k: nat,
) -> bool {
    ancestor(parent, node, k) matches Some(a) ==> node_groups[a as int] is None
}

/// The nearest node group of a node is the group of its deepest ancestor-or-self that has
/// one, searching the whole chain of parents up to the root; there is none only when no
/// node on that chain has a group.
pub proof fn lemma_nearest_group_is_deepest_grouped_ancestor(
    cursor: usize,
    parent: Seq<Option<usize>>,
    node_groups: Seq<Option<usize>>,
)
    requires
        parents_precede(parent),
        parent.len() == node_groups.len(),
        cursor < parent.len(),
    ensures
        spec_nearest_node_group(Some(cursor), parent, node_groups) is None <==> forall|k: nat|
            #[trigger] ungrouped_ancestor(parent, node_groups, cursor, k),
        spec_nearest_node_group(Some(cursor), parent, node_groups) matches Some(g) ==> exists|k: nat|
            {
                &&& #[trigger] ancestor(parent, cursor, k) matches Some(a)
                &&& node_groups[a as int] == Some(g)
                &&& forall|j: nat| j < k ==> #[trigger] ungrouped_ancestor(parent, node_groups, cursor, j)
            },
    decreases cursor,
{
    let result = spec_nearest_node_group(Some(cursor), parent, node_groups);
    assert(ancestor(parent, cursor, 0) == Some(cursor));
    if node_groups[cursor as int] is Some {
        assert(!ungrouped_ancestor(parent, node_groups, cursor, 0));
        assert(forall|j: nat| j < 0 ==> #[trigger] ungrouped_ancestor(parent, node_groups, cursor, j));
    } else {
        match parent[cursor as int] {
            None => {
                assert forall|k: nat| #[trigger] ungrouped_ancestor(parent, node_groups, cursor, k) by {
                    if k > 0 {
                        assert(ancestor(parent, cursor, k) is None);
                    }
                }
            },
            Some(p) => {
                assert(p < cursor);
                lemma_nearest_group_is_deepest_grouped_ancestor(p, parent, node_groups);
                assert forall|k: nat| k > 0 implies #[trigger] ancestor(parent, cursor, k) == ancestor(
                    parent,
                    p,
                    (k - 1) as nat,
                ) by {}
                if result is None {
                    assert forall|k: nat| #[trigger] ungrouped_ancestor(parent, node_groups, cursor, k) by {
                        if k > 0 {
                            assert(ungrouped_ancestor(parent, node_groups, p, (k - 1) as nat));
                        }
                    }
                } else {
                    let g = result->0;
                    let k0 = choose|k: nat|
                        {
                            &&& #[trigger] ancestor(parent, p, k) matches Some(a)
                            &&& node_groups[a as int] == Some(g)
                            &&& forall|j: nat| j < k ==> #[trigger] ungrouped_ancestor(parent, node_groups, p, j)
                        };
                    assert(ancestor(parent, cursor, k0 + 1) == ancestor(parent, p, k0));
                    assert forall|j: nat| j < k0 + 1 implies #[trigger] ungrouped_ancestor(
                        parent,
                        node_groups,
                        cursor,
                        j,
                    ) by {
                        if j > 0 {
                            assert(ungrouped_ancestor(parent, node_groups, p, (j - 1) as nat));
                        }
                    }
                    assert(!ungrouped_ancestor(parent, node_groups, cursor, k0 + 1));
                }
            },
        }
    }
}

/// The nearest group of a cursor is the candidate of a node at or above it.
proof fn lemma_nearest_bound(
    cursor: Option<usize>,
    parent: Seq<Option<usize>>,
    requires_group: Seq<bool>,
)
    requires
        parent.len() == requires_group.len(),
        cursor matches Some(c) ==> c < parent.len(),
    ensures
        spec_nearest_node_group(cursor, parent, spec_node_groups(requires_group)) matches Some(g)
            ==> (cursor matches Some(c) && g < count_true(requires_group, c + 1)),
    decreases
            match cursor {
                Some(c) => c + 1,
                None => 0,
            },
{
    let node_groups = spec_node_groups(requires_group);
    if let Some(c) = cursor {
        lemma_count_true_monotone(requires_group, c as int, c + 1);
        if node_groups[c as int] is None {
            if let Some(p) = parent[c as int] {
                if p < c {
                    lemma_nearest_bound(Some(p), parent, requires_group);
                    lemma_count_true_monotone(requires_group, p + 1, c + 1);
                }
            }
        }
    }
}

/// Finds the group candidate of the nearest node at or above `cursor`.
pub fn nearest_node_group(
    cursor: Option<usize>,
    parent: &Vec<Option<usize>>,
    node_groups: &Vec<Option<usize>>,
) -> (group: Option<usize>)
    requires
        parents_precede(parent@),
        parent.len() == node_groups.len(),
        cursor matches Some(c) ==> c < parent.len(),
    ensures
        group == spec_nearest_node_group(cursor, parent@, node_groups@),
{
    let ghost target = spec_nearest_node_group(cursor, parent@, node_groups@);
    let mut node_cursor = cursor;
    loop
        invariant
            parents_precede(parent@),
            parent.len() == node_groups.len(),
            node_cursor matches Some(c) ==> c < parent.len(),
            spec_nearest_node_group(node_cursor, parent@, node_groups@) == target,
            target == spec_nearest_node_group(cursor, parent@, node_groups@),
        decreases
                match node_cursor {
                    Some(c) => c + 1,
                    None => 0,
                },
    {
        match node_cursor {
            None => {
                assert(spec_nearest_node_group(node_cursor, parent@, node_groups@) is None);
                return None;
            },
            Some(node) => {
                if let Some(group) = node_groups[node] {
                    assert(spec_nearest_node_group(node_cursor, parent@, node_groups@) == Some(group));
                    return Some(group);
                }
                let next = parent[node];
                proof {
                    let _ = parent@[node as int];
                }
                node_cursor = next;
            },
        }
    }
}


/// Which effects a group candidate realises.
#[derive(Clone, Copy, Debug, PartialEq, Eq, Structural)]
pub enum GroupSource {
    /// The node-effect group of topology node `usize`.
    Node(usize),
    /// One resolved explicit owner-local group.
    Explicit(ExplicitGroupId),
}

/// Surface-space structural facts of one valid explicit owner-local group.
#[derive(Clone, Copy, Debug, PartialEq, Eq, Structural)]
pub struct ResolvedExplicitGroup {
    /// Topology index of the owning node.
    pub owner: usize,
    /// Enclosing explicit group of the same owner, if any.
    pub parent: Option<ExplicitGroupId>,
}

/// Owners exist and every explicit parent was resolved before its child.
pub open spec fn explicit_groups_well_formed(
    groups: Seq<ResolvedExplicitGroup>,
    node_count: int,
) -> bool {
    forall|k: int|
        0 <= k < groups.len() ==> #[trigger] groups[k].owner < node_count && (
        groups[k].parent matches Some(p) ==> p@ < k)
}

/// Candidate table of node-effect groups followed by explicit groups.
pub open spec fn sources_match(
    sources: Seq<GroupSource>,
    requires_group: Seq<bool>,
    explicit_count: int,
) -> bool {
    let node_count = count_true(requires_group, requires_group.len() as int);
    &&& sources.len() == node_count + explicit_count
    &&& forall|n: int|
        0 <= n < requires_group.len() && #[trigger] requires_group[n] ==> sources[count_true(
            requires_group,
            n,
        ) as int] == GroupSource::Node(n as usize)
    &&& forall|c: int|
        0 <= c < sources.len() ==> match #[trigger] sources[c] {
            GroupSource::Node(n) => n < requires_group.len() && requires_group[n as int]
                && c == count_true(requires_group, n as int),
            GroupSource::Explicit(e) => c == node_count + e@ && e@ < explicit_count,
        }
}

/// Parent candidate of an explicit group: its explicit parent, else the owner's node group.
pub open spec fn spec_explicit_parent(
    group: ResolvedExplicitGroup,
    node_candidates: int,
    parent: Seq<Option<usize>>,
    node_groups: Seq<Option<usize>>,
) -> Option<usize> {
    match group.parent {
        Some(p) => Some((node_candidates + p@) as usize),
        None => spec_nearest_node_group(Some(group.owner), parent, node_groups),
    }
}

/// Immediate group candidate of one paint item.
pub open spec fn spec_item_group(
    explicit: Option<ExplicitGroupId>,
    owner: usize,
    node_candidates: int,
    parent: Seq<Option<usize>>,
    node_groups: Seq<Option<usize>>,
) -> Option<usize> {
    match explicit {
        Some(e) => Some((node_candidates + e@) as usize),
        None => spec_nearest_node_group(Some(owner), parent, node_groups),
    }
}

/// Parent candidate of candidate `c`.
pub open spec fn spec_candidate_parent(
    source: GroupSource,
    explicit_groups: Seq<ResolvedExplicitGroup>,
    requires_group: Seq<bool>,
    parent: Seq<Option<usize>>,
) -> Option<usize> {
    let node_groups = spec_node_groups(requires_group);
    match source {
        GroupSource::Node(n) => spec_nearest_node_group(parent[n as int], parent, node_groups),
        GroupSource::Explicit(e) => spec_explicit_parent(
            explicit_groups[e@ as int],
            count_true(requires_group, requires_group.len() as int) as int,
            parent,
            node_groups,
        ),
    }
}


/// Node-effect candidates of the first `n` nodes, in node order.
pub open spec fn spec_node_sources(requires_group: Seq<bool>, n: int) -> Seq<GroupSource>
    decreases n,
{
    if n <= 0 {
        Seq::empty()
    } else {
        let earlier = spec_node_sources(requires_group, n - 1);
        if requires_group[n - 1] {
            earlier.push(GroupSource::Node((n - 1) as usize))
        } else {
            earlier
        }
    }
}

/// The candidate table: node-effect groups in node order, then every explicit group.
pub open spec fn spec_sources(requires_group: Seq<bool>, explicit_count: nat) -> Seq<GroupSource> {
    spec_node_sources(requires_group, requires_group.len() as int) + Seq::new(
        explicit_count,
        |k: int| GroupSource::Explicit(ExplicitGroupId::spec_id(k as usize)),
    )
}

/// Parent candidate of every candidate.
pub open spec fn spec_parents(
    sources: Seq<GroupSource>,
    explicit_groups: Seq<ResolvedExplicitGroup>,
    requires_group: Seq<bool>,
    parent: Seq<Option<usize>>,
) -> Seq<Option<usize>> {
    Seq::new(
        sources.len(),
        |c: int| spec_candidate_parent(sources[c], explicit_groups, requires_group, parent),
    )
}

/// Immediate candidate of every paint item.
pub open spec fn spec_item_groups(
    item_explicit_groups: Seq<Option<ExplicitGroupId>>,
    item_owners: Seq<usize>,
    requires_group: Seq<bool>,
    parent: Seq<Option<usize>>,
) -> Seq<Option<usize>> {
    Seq::new(
        item_owners.len(),
        |i: int|
            spec_item_group(
                item_explicit_groups[i],
                item_owners[i],
                count_true(requires_group, requires_group.len() as int) as int,
                parent,
                spec_node_groups(requires_group),
            ),
    )
}

/// First-item anchor of every candidate.
pub open spec fn spec_anchors(item_groups: Seq<Option<usize>>, parents: Seq<Option<usize>>) -> Seq<
    Option<usize>,
> {
    Seq::new(
        parents.len(),
        |c: int| spec_anchor(item_groups, parents, c as usize, item_groups.len() as int),
    )
}

/// Whether the chain of group candidates starting at `start` passes through `group`.
pub open spec fn spec_reaches(start: Option<usize>, group: usize, parents: Seq<Option<usize>>) -> bool
    decreases
            match start {
                Some(s) => s + 1,
                None => 0,
            },
{
    match start {
        None => false,
        Some(s) => s == group || (s < parents.len() && match parents[s as int] {
            Some(p) => p < s && spec_reaches(Some(p), group, parents),
            None => false,
        }),
    }
}

/// First of the first `n` items whose group chain passes through `group`.
pub open spec fn spec_anchor(
    item_groups: Seq<Option<usize>>,
    parents: Seq<Option<usize>>,
    group: usize,
    n: int,
) -> Option<usize>
    decreases n,
{
    if n <= 0 {
        None
    } else {
        let earlier = spec_anchor(item_groups, parents, group, n - 1);
        if earlier is Some {
            earlier
        } else if spec_reaches(item_groups[n - 1], group, parents) {
            Some((n - 1) as usize)
        } else {
            None
        }
    }
}

proof fn lemma_reaches_below(start: Option<usize>, group: usize, parents: Seq<Option<usize>>)
    ensures
        spec_reaches(start, group, parents) ==> (start matches Some(s) && group <= s),
    decreases
            match start {
                Some(s) => s + 1,
                None => 0,
            },
{
    if let Some(s) = start {
        if s < parents.len() {
            if let Some(p) = parents[s as int] {
                if p < s {
                    lemma_reaches_below(Some(p), group, parents);
                }
            }
        }
    }
}

proof fn lemma_reaches_trans(
    start: Option<usize>,
    middle: usize,
    group: usize,
    parents: Seq<Option<usize>>,
)
    requires
        spec_reaches(start, middle, parents),
        spec_reaches(Some(middle), group, parents),
    ensures
        spec_reaches(start, group, parents),
    decreases
            match start {
                Some(s) => s + 1,
                None => 0,
            },
{
    if let Some(s) = start {
        if s != middle {
            let p = parents[s as int]->0;
            lemma_reaches_trans(Some(p), middle, group, parents);
        }
    }
}

proof fn lemma_anchor_below(
    item_groups: Seq<Option<usize>>,
    parents: Seq<Option<usize>>,
    group: usize,
    n: int,
)
    ensures
        spec_anchor(item_groups, parents, group, n) matches Some(a) ==> a < n,
    decreases n,
{
    if n > 0 {
        lemma_anchor_below(item_groups, parents, group, n - 1);
    }
}

/// Staged group candidates with their parents, first-item anchors, and item membership.
pub struct GroupPlan {
    /// Candidate table: node-effect groups in node order, then explicit groups.
    pub sources: Vec<GroupSource>,
    /// Parent candidate of each candidate.
    pub parents: Vec<Option<usize>>,
    /// First item inside each candidate, if any.
    pub anchors: Vec<Option<usize>>,
    /// Immediate candidate of each paint item.
    pub item_groups: Vec<Option<usize>>,
}

fn node_group_table(requires_group: &Vec<bool>, explicit_count: usize) -> (table: (
    Vec<GroupSource>,
    Vec<Option<usize>>,
))
    ensures
        sources_match(table.0@, requires_group@, explicit_count as int),
        table.0@ == spec_sources(requires_group@, explicit_count as nat),
        table.1@ == spec_node_groups(requires_group@),
{
    let mut sources: Vec<GroupSource> = Vec::new();
    let mut node_groups: Vec<Option<usize>> = Vec::new();
    for node in 0..requires_group.len()
        invariant
            sources.len() == count_true(requires_group@, node as int),
            sources@ == spec_node_sources(requires_group@, node as int),
            node_groups@ =~= spec_node_groups(requires_group@).take(node as int),
            forall|n: int|
                0 <= n < node && #[trigger] requires_group@[n] ==> sources@[count_true(
                    requires_group@,
                    n,
                ) as int] == GroupSource::Node(n as usize),
            forall|c: int|
                0 <= c < sources.len() ==> match #[trigger] sources@[c] {
                    GroupSource::Node(n) => n < node && requires_group@[n as int] && c
                        == count_true(requires_group@, n as int),
                    GroupSource::Explicit(_) => false,
                },
    {
        proof {
            lemma_count_true_monotone(requires_group@, node as int, node + 1);
            assert forall|n: int| 0 <= n < node && #[trigger] requires_group@[n] implies count_true(
                requires_group@,
                n,
            ) < sources.len() by {
                lemma_count_true_monotone(requires_group@, n, node as int);
            }
        }
        if requires_group[node] {
            node_groups.push(Some(sources.len()));
            sources.push(GroupSource::Node(node));
        } else {
            node_groups.push(None);
        }
    }
    let ghost node_count = sources.len();
    for k in 0..explicit_count
        invariant
            node_count == count_true(requires_group@, requires_group@.len() as int),
            sources.len() == node_count + k,
            sources@ =~= spec_node_sources(requires_group@, requires_group@.len() as int) + Seq::new(
                k as nat,
                |j: int| GroupSource::Explicit(ExplicitGroupId::spec_id(j as usize)),
            ),
            forall|n: int|
                0 <= n < requires_group@.len() && #[trigger] requires_group@[n]
                    ==> sources@[count_true(requires_group@, n) as int] == GroupSource::Node(
                    n as usize,
                ),
            forall|c: int|
                0 <= c < sources.len() ==> match #[trigger] sources@[c] {
                    GroupSource::Node(n) => n < requires_group@.len() && requires_group@[n as int]
                        && c == count_true(requires_group@, n as int),
                    GroupSource::Explicit(e) => c == node_count + e@ && e@ < k,
                },
    {
        proof {
            assert forall|n: int|
                0 <= n < requires_group@.len() && #[trigger] requires_group@[n] implies count_true(
                requires_group@,
                n,
            ) < node_count by {
                lemma_count_true_monotone(requires_group@, n, requires_group@.len() as int);
            }
        }
        sources.push(GroupSource::Explicit(ExplicitGroupId::new(k)));
    }
    proof {
        assert(node_groups@ =~= spec_node_groups(requires_group@));
        assert(sources@ =~= spec_sources(requires_group@, explicit_count as nat));
    }
    (sources, node_groups)
}

/// Derives the group candidates, their parents, item membership, and first-item anchors.
pub fn derive_group_plan(
    topology_parent: &Vec<Option<usize>>,
    requires_node_group: &Vec<bool>,
    explicit_groups: &Vec<ResolvedExplicitGroup>,
    item_owners: &Vec<usize>,
    item_explicit_groups: &Vec<Option<ExplicitGroupId>>,
) -> (plan: GroupPlan)
    requires
        parents_precede(topology_parent@),
        topology_parent.len() == requires_node_group.len(),
        explicit_groups_well_formed(explicit_groups@, topology_parent.len() as int),
        item_owners.len() == item_explicit_groups.len(),
        forall|i: int| 0 <= i < item_owners.len() ==> #[trigger] item_owners@[i] < topology_parent.len(),
        forall|i: int|
            0 <= i < item_explicit_groups.len() ==> (#[trigger] item_explicit_groups@[i] matches Some(
                e,
            ) ==> e@ < explicit_groups.len()),
    ensures
        sources_match(plan.sources@, requires_node_group@, explicit_groups.len() as int),
        plan.sources@ == spec_sources(requires_node_group@, explicit_groups.len() as nat),
        plan.parents@ == spec_parents(
            plan.sources@,
            explicit_groups@,
            requires_node_group@,
            topology_parent@,
        ),
        plan.item_groups@ == spec_item_groups(
            item_explicit_groups@,
            item_owners@,
            requires_node_group@,
            topology_parent@,
        ),
        plan.anchors@ == spec_anchors(plan.item_groups@, plan.parents@),
        forall|i: int|
            0 <= i < plan.item_groups.len() ==> (#[trigger] plan.item_groups@[i] matches Some(g) ==> g
                < plan.sources.len()),
        plan.parents.len() == plan.sources.len(),
        forall|c: int|
            0 <= c < plan.sources.len() ==> #[trigger] plan.parents@[c] == spec_candidate_parent(
                plan.sources@[c],
                explicit_groups@,
                requires_node_group@,
                topology_parent@,
            ),
        parents_precede(plan.parents@),
        plan.item_groups.len() == item_owners.len(),
        forall|i: int|
            0 <= i < item_owners.len() ==> #[trigger] plan.item_groups@[i] == spec_item_group(
                item_explicit_groups@[i],
                item_owners@[i],
                count_true(requires_node_group@, requires_node_group.len() as int) as int,
                topology_parent@,
                spec_node_groups(requires_node_group@),
            ),
        plan.anchors.len() == plan.sources.len(),
        forall|c: int|
            0 <= c < plan.sources.len() ==> #[trigger] plan.anchors@[c] == spec_anchor(
                plan.item_groups@,
                plan.parents@,
                c as usize,
                item_owners.len() as int,
            ),
{
    let (sources, node_groups) = node_group_table(requires_node_group, explicit_groups.len());
    let ghost req = requires_node_group@;
    let ghost node_count = count_true(req, req.len() as int);
    let node_candidates = sources.len() - explicit_groups.len();
    let mut parents: Vec<Option<usize>> = Vec::new();
    for c in 0..sources.len()
        invariant
            parents_precede(topology_parent@),
            topology_parent.len() == requires_node_group.len(),
            explicit_groups_well_formed(explicit_groups@, topology_parent.len() as int),
            sources_match(sources@, req, explicit_groups.len() as int),
            node_groups@ == spec_node_groups(req),
            req == requires_node_group@,
            node_count == count_true(req, req.len() as int),
            node_candidates == node_count,
            parents.len() == c,
            forall|d: int|
                0 <= d < c ==> #[trigger] parents@[d] == spec_candidate_parent(
                    sources@[d],
                    explicit_groups@,
                    req,
                    topology_parent@,
                ),
            forall|d: int| 0 <= d < c ==> (#[trigger] parents@[d] matches Some(p) ==> p < d),
    {
        let ghost source = sources@[c as int];
        let parent = match sources[c] {
            GroupSource::Node(node) => {
                proof {
                    lemma_nearest_bound(topology_parent@[node as int], topology_parent@, req);
                    let _ = topology_parent@[node as int];
                    if let Some(tp) = topology_parent@[node as int] {
                        lemma_count_true_monotone(req, tp + 1, node as int);
                    }
                }
                nearest_node_group(topology_parent[node], topology_parent, &node_groups)
            },
            GroupSource::Explicit(explicit) => {
                let group = explicit_groups[explicit.index()];
                proof {
                    let _ = explicit_groups@[explicit@ as int];
                    lemma_nearest_bound(Some(group.owner), topology_parent@, req);
                    lemma_count_true_monotone(req, group.owner + 1, req.len() as int);
                }
                match group.parent {
                    Some(p) => Some(node_candidates + p.index()),
                    None => nearest_node_group(Some(group.owner), topology_parent, &node_groups),
                }
            },
        };
        parents.push(parent);
    }
    let mut item_groups: Vec<Option<usize>> = Vec::new();
    for i in 0..item_owners.len()
        invariant
            parents_precede(topology_parent@),
            topology_parent.len() == requires_node_group.len(),
            node_groups@ == spec_node_groups(req),
            req == requires_node_group@,
            node_count == count_true(req, req.len() as int),
            node_candidates == node_count,
            sources.len() == node_count + explicit_groups.len(),
            item_owners.len() == item_explicit_groups.len(),
            forall|i: int| 0 <= i < item_owners.len() ==> #[trigger] item_owners@[i] < topology_parent.len(),
            forall|i: int|
                0 <= i < item_explicit_groups.len() ==> (#[trigger] item_explicit_groups@[i] matches Some(
                    e,
                ) ==> e@ < explicit_groups.len()),
            item_groups.len() == i,
            forall|j: int|
                0 <= j < i ==> #[trigger] item_groups@[j] == spec_item_group(
                    item_explicit_groups@[j],
                    item_owners@[j],
                    node_count as int,
                    topology_parent@,
                    node_groups@,
                ),
            forall|j: int| 0 <= j < i ==> (#[trigger] item_groups@[j] matches Some(g) ==> g < sources.len()),
    {
        let owner = item_owners[i];
        proof {
            lemma_nearest_bound(Some(owner), topology_parent@, req);
            lemma_count_true_monotone(req, owner + 1, req.len() as int);
        }
        let group = match item_explicit_groups[i] {
            Some(explicit) => Some(node_candidates + explicit.index()),
            None => nearest_node_group(Some(owner), topology_parent, &node_groups),
        };
        item_groups.push(group);
    }
    let anchors = first_item_anchors(&item_groups, &parents);
    proof {
        assert(parents@ =~= spec_parents(sources@, explicit_groups@, req, topology_parent@));
        assert(item_groups@ =~= spec_item_groups(
            item_explicit_groups@,
            item_owners@,
            req,
            topology_parent@,
        ));
        assert(anchors@ =~= spec_anchors(item_groups@, parents@));
    }
    GroupPlan { sources, parents, anchors, item_groups }
}

/// Records, for every candidate, the first item whose group chain passes through it.
fn first_item_anchors(item_groups: &Vec<Option<usize>>, parents: &Vec<Option<usize>>) -> (anchors:
    Vec<Option<usize>>)
    requires
        parents_precede(parents@),
        forall|i: int|
            0 <= i < item_groups.len() ==> (#[trigger] item_groups@[i] matches Some(g) ==> g
                < parents.len()),
    ensures
        anchors.len() == parents.len(),
        forall|c: int|
            0 <= c < parents.len() ==> #[trigger] anchors@[c] == spec_anchor(
                item_groups@,
                parents@,
                c as usize,
                item_groups.len() as int,
            ),
{
    let mut anchors: Vec<Option<usize>> = Vec::new();
    for c in 0..parents.len()
        invariant
            anchors.len() == c,
            forall|d: int| 0 <= d < c ==> #[trigger] anchors@[d] is None,
    {
        anchors.push(None);
    }
    for item_index in 0..item_groups.len()
        invariant
            parents_precede(parents@),
            forall|i: int|
                0 <= i < item_groups.len() ==> (#[trigger] item_groups@[i] matches Some(g) ==> g
                    < parents.len()),
            anchors.len() == parents.len(),
            forall|c: int|
                0 <= c < parents.len() ==> #[trigger] anchors@[c] == spec_anchor(
                    item_groups@,
                    parents@,
                    c as usize,
                    item_index as int,
                ),
    {
        let ghost start = item_groups@[item_index as int];
        let ghost before = anchors@;
        let mut cursor = item_groups[item_index];
        loop
            invariant
                parents_precede(parents@),
                anchors.len() == parents.len(),
                start == item_groups@[item_index as int],
                0 <= item_index < item_groups.len(),
                cursor matches Some(c) ==> c < parents.len() && spec_reaches(start, c, parents@),
                forall|c: int|
                    0 <= c < parents.len() ==> #[trigger] before[c] == spec_anchor(
                        item_groups@,
                        parents@,
                        c as usize,
                        item_index as int,
                    ),
                forall|c: int|
                    0 <= c < parents.len() ==> #[trigger] anchors@[c] == if spec_reaches(
                        start,
                        c as usize,
                        parents@,
                    ) && !spec_reaches(cursor, c as usize, parents@) {
                        spec_anchor(item_groups@, parents@, c as usize, item_index + 1)
                    } else {
                        spec_anchor(item_groups@, parents@, c as usize, item_index as int)
                    },
            ensures
                anchors.len() == parents.len(),
                forall|c: int|
                    0 <= c < parents.len() ==> #[trigger] anchors@[c] == if spec_reaches(
                        start,
                        c as usize,
                        parents@,
                    ) {
                        spec_anchor(item_groups@, parents@, c as usize, item_index + 1)
                    } else {
                        spec_anchor(item_groups@, parents@, c as usize, item_index as int)
                    },
            decreases
                    match cursor {
                        Some(c) => c + 1,
                        None => 0,
                    },
        {
            match cursor {
                None => {
                    break ;
                },
                Some(group) => {
                    proof {
                        lemma_anchor_below(item_groups@, parents@, group, item_index as int);
                        lemma_reaches_below(parents@[group as int], group, parents@);
                    }
                    let next = match anchors[group] {
                        None => item_index,
                        Some(anchor) => if anchor < item_index {
                            anchor
                        } else {
                            item_index
                        },
                    };
                    anchors.set(group, Some(next));
                    let ghost prev = cursor;
                    cursor = parents[group];
                    proof {
                        assert forall|c: int| 0 <= c < parents.len() implies #[trigger] anchors@[c]
                            == if spec_reaches(start, c as usize, parents@) && !spec_reaches(
                            cursor,
                            c as usize,
                            parents@,
                        ) {
                            spec_anchor(item_groups@, parents@, c as usize, item_index + 1)
                        } else {
                            spec_anchor(item_groups@, parents@, c as usize, item_index as int)
                        } by {
                            if c != group {
                                assert(spec_reaches(prev, c as usize, parents@) == spec_reaches(
                                    cursor,
                                    c as usize,
                                    parents@,
                                ));
                            }
                        }
                        if let Some(p) = cursor {
                            assert(spec_reaches(Some(p), p, parents@));
                            assert(spec_reaches(Some(group), p, parents@));
                            lemma_reaches_trans(start, group, p, parents@);
                        }
                    }
                },
            }
        }
        proof {
            assert forall|c: int| 0 <= c < parents.len() implies #[trigger] anchors@[c]
                == spec_anchor(item_groups@, parents@, c as usize, item_index + 1) by {
                lemma_anchor_below(item_groups@, parents@, c as usize, item_index as int);
            }
        }
    }
    anchors
}

/// `perm` places every input position exactly once, ordered by anchor and then by
/// input position: the arrangement a stable sort by anchor produces.
pub open spec fn stable_arrangement<T>(
    sorted: Seq<(usize, T)>,
    input: Seq<(usize, T)>,
    perm: Seq<int>,
) -> bool {
    &&& perm.len() == input.len()
    &&& sorted.len() == input.len()
    &&& forall|k: int|
        0 <= k < perm.len() ==> 0 <= #[trigger] perm[k] < input.len() && sorted[k] == input[perm[k]]
    &&& forall|a: int, b: int|
        0 <= a < b < perm.len() ==> input[#[trigger] perm[a]].0 < input[#[trigger] perm[b]].0 || (
        input[perm[a]].0 == input[perm[b]].0 && perm[a] < perm[b])
}

/// `sorted` is `input` stably sorted by anchor.
pub open spec fn is_stable_sort_by_anchor<T>(sorted: Seq<(usize, T)>, input: Seq<(usize, T)>) -> bool {
    exists|perm: Seq<int>| stable_arrangement(sorted, input, perm)
}

/// Stably sorts anchored entries by anchor: equal anchors keep their input order.
pub fn stable_sort_by_anchor<T: Copy>(input: &Vec<(usize, T)>) -> (sorted: Vec<(usize, T)>)
    ensures
        is_stable_sort_by_anchor(sorted@, input@),
{
    let mut out: Vec<(usize, T)> = Vec::new();
    let ghost mut perm: Seq<int> = Seq::empty();
    for i in 0..input.len()
        invariant
            out.len() == i,
            perm.len() == i,
            forall|k: int| 0 <= k < i ==> 0 <= #[trigger] perm[k] < i && out@[k] == input@[perm[k]],
            forall|a: int, b: int|
                0 <= a < b < i ==> input@[#[trigger] perm[a]].0 < input@[#[trigger] perm[b]].0 || (
                input@[perm[a]].0 == input@[perm[b]].0 && perm[a] < perm[b]),
    {
        let key = input[i].0;
        let mut pos: usize = 0;
        while pos < out.len() && out[pos].0 <= key
            invariant
                out.len() == i,
                perm.len() == i,
                pos <= out.len(),
                forall|k: int| 0 <= k < pos ==> #[trigger] out@[k].0 <= key,
            decreases out.len() - pos,
        {
            pos = pos + 1;
        }
        proof {
            // Keys are non-decreasing along `out`, so everything from `pos` on exceeds `key`.
            assert forall|k: int| pos <= k < i implies #[trigger] out@[k].0 > key by {
                if k > pos as int {
                    let _ = perm[pos as int];
                    let _ = perm[k];
                    assert(out@[pos as int] == input@[perm[pos as int]]);
                    assert(out@[k] == input@[perm[k]]);
                }
            }
        }
        let ghost old_out = out@;
        let ghost old_perm = perm;
        out.insert(pos, input[i]);
        proof {
            perm = perm.insert(pos as int, i as int);
            assert forall|k: int| 0 <= k < i + 1 implies 0 <= #[trigger] perm[k] < i + 1 && out@[k]
                == input@[perm[k]] by {
                if k < pos {
                    assert(perm[k] == old_perm[k]);
                } else if k > pos {
                    assert(perm[k] == old_perm[k - 1]);
                }
            }
            assert forall|a: int, b: int| 0 <= a < b < i + 1 implies input@[#[trigger] perm[a]].0
                < input@[#[trigger] perm[b]].0 || (input@[perm[a]].0 == input@[perm[b]].0 && perm[a]
                < perm[b]) by {
                let _ = old_perm[a];
                let _ = old_perm[b - 1];
                let _ = old_perm[a - 1];
                if b == pos {
                    assert(old_out[a] == input@[old_perm[a]]);
                } else if a == pos {
                    assert(old_out[b - 1] == input@[old_perm[b - 1]]);
                } else if a < pos && b > pos {
                    assert(perm[b] == old_perm[b - 1]);
                } else if a > pos {
                    assert(perm[a] == old_perm[a - 1]);
                    assert(perm[b] == old_perm[b - 1]);
                }
            }
        }
    }
    proof {
        assert(stable_arrangement(out@, input@, perm));
    }
    out
}

/// Number of `Some` values among the first `n` positions.
pub open spec fn count_some<T>(values: Seq<Option<T>>, n: int) -> nat
    decreases n,
{
    if n <= 0 {
        0
    } else {
        count_some(values, n - 1) + if values[n - 1] is Some {
            1nat
        } else {
            0nat
        }
    }
}

proof fn lemma_count_some_monotone<T>(values: Seq<Option<T>>, a: int, b: int)
    requires
        0 <= a <= b <= values.len(),
    ensures
        count_some(values, a) <= count_some(values, b),
        (a < b && values[a] is Some) ==> count_some(values, a) < count_some(values, b),
    decreases b - a,
{
    if a < b {
        lemma_count_some_monotone(values, a, b - 1);
        if values[a] is Some && a < b - 1 {
            lemma_count_some_monotone(values, a + 1, b - 1);
        }
    }
}

/// Dense snapshot-local group ids, in candidate order, of the anchored candidates.
pub open spec fn spec_scene_ids(anchors: Seq<Option<usize>>) -> Seq<Option<PaintSceneGroupId>> {
    Seq::new(
        anchors.len(),
        |c: int|
            if anchors[c] is Some {
                Some(PaintSceneGroupId::spec_id(count_some(anchors, c) as usize))
            } else {
                None
            },
    )
}

/// Issues dense snapshot-local group ids, in candidate order, to anchored candidates.
pub fn scene_group_ids(anchors: &Vec<Option<usize>>) -> (ids: Vec<Option<PaintSceneGroupId>>)
    ensures
        ids@ == spec_scene_ids(anchors@),
        ids.len() == anchors.len(),
        forall|c: int|
            0 <= c < anchors.len() ==> (#[trigger] ids@[c] is Some <==> anchors@[c] is Some),
        forall|c: int|
            0 <= c < anchors.len() ==> (#[trigger] ids@[c] matches Some(g) ==> g@ == count_some(
                anchors@,
                c,
            )),
{
    let mut ids: Vec<Option<PaintSceneGroupId>> = Vec::new();
    let mut next_group: usize = 0;
    for c in 0..anchors.len()
        invariant
            ids.len() == c,
            next_group == count_some(anchors@, c as int),
            next_group <= c,
            forall|d: int| 0 <= d < c ==> (#[trigger] ids@[d] is Some <==> anchors@[d] is Some),
            forall|d: int|
                0 <= d < c ==> (#[trigger] ids@[d] matches Some(g) ==> g@ == count_some(
                    anchors@,
                    d,
                )),
    {
        if anchors[c].is_some() {
            ids.push(Some(PaintSceneGroupId::new(next_group)));
            next_group = next_group + 1;
        } else {
            ids.push(None);
        }
    }
    proof {
        assert forall|c: int| 0 <= c < anchors.len() implies #[trigger] ids@[c] == spec_scene_ids(
            anchors@,
        )[c] by {
            if let Some(g) = ids@[c] {
                PaintSceneGroupId::lemma_spec_id(count_some(anchors@, c) as usize, g);
            }
        }
        assert(ids@ =~= spec_scene_ids(anchors@));
    }
    ids
}

/// Scene group of a candidate, by its snapshot-local id.
pub open spec fn spec_scene_group(
    candidate_to_scene: Seq<Option<PaintSceneGroupId>>,
    candidate: Option<usize>,
) -> Option<usize> {
    match candidate {
        Some(c) => match candidate_to_scene[c as int] {
            Some(g) => Some(g@),
            None => None,
        },
        None => None,
    }
}

/// Item entries, in item order, whose scene group is `bucket` (`None`: the scene root).
pub open spec fn item_bucket(
    item_groups: Seq<Option<usize>>,
    candidate_to_scene: Seq<Option<PaintSceneGroupId>>,
    bucket: Option<usize>,
    n: int,
) -> Seq<(usize, PaintSceneEntry)>
    decreases n,
{
    if n <= 0 {
        Seq::empty()
    } else {
        let earlier = item_bucket(item_groups, candidate_to_scene, bucket, n - 1);
        if spec_scene_group(candidate_to_scene, item_groups[n - 1]) == bucket {
            earlier.push(((n - 1) as usize, PaintSceneEntry::item_entry((n - 1) as usize)))
        } else {
            earlier
        }
    }
}

/// Published group entries, in candidate order, whose parent scene group is `bucket`.
pub open spec fn group_bucket(
    parents: Seq<Option<usize>>,
    anchors: Seq<Option<usize>>,
    candidate_to_scene: Seq<Option<PaintSceneGroupId>>,
    bucket: Option<usize>,
    n: int,
) -> Seq<(usize, PaintSceneEntry)>
    decreases n,
{
    if n <= 0 {
        Seq::empty()
    } else {
        let earlier = group_bucket(parents, anchors, candidate_to_scene, bucket, n - 1);
        match candidate_to_scene[n - 1] {
            Some(g) => if spec_scene_group(candidate_to_scene, parents[n - 1]) == bucket {
                earlier.push((anchors[n - 1]->0, PaintSceneEntry::group_entry(g)))
            } else {
                earlier
            },
            None => earlier,
        }
    }
}

/// Unordered direct children of one bucket: its items, then its published groups.
pub open spec fn bucket_members(
    item_groups: Seq<Option<usize>>,
    parents: Seq<Option<usize>>,
    anchors: Seq<Option<usize>>,
    candidate_to_scene: Seq<Option<PaintSceneGroupId>>,
    bucket: Option<usize>,
) -> Seq<(usize, PaintSceneEntry)> {
    item_bucket(item_groups, candidate_to_scene, bucket, item_groups.len() as int) + group_bucket(
        parents,
        anchors,
        candidate_to_scene,
        bucket,
        candidate_to_scene.len() as int,
    )
}

/// Candidate tables that `build_composition_entries` accepts.
pub open spec fn composition_inputs_aligned(
    item_groups: Seq<Option<usize>>,
    parents: Seq<Option<usize>>,
    anchors: Seq<Option<usize>>,
    candidate_to_scene: Seq<Option<PaintSceneGroupId>>,
) -> bool {
    &&& parents.len() == candidate_to_scene.len()
    &&& anchors.len() == candidate_to_scene.len()
    &&& forall|i: int|
        0 <= i < item_groups.len() ==> (#[trigger] item_groups[i] matches Some(c) ==> c
            < candidate_to_scene.len())
    &&& forall|c: int|
        0 <= c < parents.len() ==> (#[trigger] parents[c] matches Some(p) ==> p
            < candidate_to_scene.len())
    &&& forall|c: int|
        0 <= c < candidate_to_scene.len() ==> (#[trigger] candidate_to_scene[c] is Some
            ==> anchors[c] is Some)
    &&& forall|c: int|
        0 <= c < candidate_to_scene.len() ==> (#[trigger] candidate_to_scene[c] matches Some(g)
            ==> g@ < count_some(candidate_to_scene, candidate_to_scene.len() as int))
}

/// Contracted composition buckets: one per published group, and the scene root.
pub struct CompositionEntries {
    /// Direct children of each published group, in anchor order.
    pub grouped: Vec<Vec<(usize, PaintSceneEntry)>>,
    /// Direct children of the implicit scene root, in anchor order.
    pub root: Vec<(usize, PaintSceneEntry)>,
}

/// Places every item and published group in the bucket of its scene parent and orders
/// each bucket stably by anchor.
pub fn build_composition_entries(
    item_groups: &Vec<Option<usize>>,
    parents: &Vec<Option<usize>>,
    anchors: &Vec<Option<usize>>,
    candidate_to_scene: &Vec<Option<PaintSceneGroupId>>,
) -> (entries: CompositionEntries)
    requires
        composition_inputs_aligned(item_groups@, parents@, anchors@, candidate_to_scene@),
    ensures
        entries.grouped.len() == count_some(candidate_to_scene@, candidate_to_scene.len() as int),
        forall|k: int|
            0 <= k < entries.grouped.len() ==> is_stable_sort_by_anchor(
                (#[trigger] entries.grouped@[k])@,
                bucket_members(
                    item_groups@,
                    parents@,
                    anchors@,
                    candidate_to_scene@,
                    Some(k as usize),
                ),
            ),
        is_stable_sort_by_anchor(
            entries.root@,
            bucket_members(item_groups@, parents@, anchors@, candidate_to_scene@, None),
        ),
{
    let ghost ig = item_groups@;
    let ghost c2s = candidate_to_scene@;
    let mut group_count: usize = 0;
    for c in 0..candidate_to_scene.len()
        invariant
            group_count == count_some(candidate_to_scene@, c as int),
            group_count <= c,
    {
        if candidate_to_scene[c].is_some() {
            group_count = group_count + 1;
        }
    }
    let mut grouped: Vec<Vec<(usize, PaintSceneEntry)>> = Vec::new();
    for k in 0..group_count
        invariant
            grouped.len() == k,
            forall|j: int| 0 <= j < k ==> (#[trigger] grouped@[j])@ == Seq::<(usize, PaintSceneEntry)>::empty(),
    {
        grouped.push(Vec::new());
    }
    let mut root: Vec<(usize, PaintSceneEntry)> = Vec::new();
    for item_index in 0..item_groups.len()
        invariant
            composition_inputs_aligned(item_groups@, parents@, anchors@, candidate_to_scene@),
            group_count == count_some(candidate_to_scene@, candidate_to_scene.len() as int),
            grouped.len() == group_count,
            forall|j: int|
                0 <= j < group_count ==> (#[trigger] grouped@[j])@ == item_bucket(
                    item_groups@,
                    candidate_to_scene@,
                    Some(j as usize),
                    item_index as int,
                ),
            root@ == item_bucket(item_groups@, candidate_to_scene@, None, item_index as int),
    {
        let entry = (item_index, PaintSceneEntry::item(item_index));
        let scene = match item_groups[item_index] {
            Some(candidate) => candidate_to_scene[candidate],
            None => None,
        };
        match scene {
            Some(group) => {
                let index = group.index();
                let mut bucket = Vec::new();
                std::mem::swap(&mut bucket, &mut grouped[index]);
                bucket.push(entry);
                grouped.set(index, bucket);
            },
            None => {
                root.push(entry);
            },
        }
    }
    for candidate in 0..candidate_to_scene.len()
        invariant
            composition_inputs_aligned(item_groups@, parents@, anchors@, candidate_to_scene@),
            group_count == count_some(candidate_to_scene@, candidate_to_scene.len() as int),
            grouped.len() == group_count,
            forall|j: int|
                0 <= j < group_count ==> (#[trigger] grouped@[j])@ == item_bucket(
                    item_groups@,
                    candidate_to_scene@,
                    Some(j as usize),
                    item_groups.len() as int,
                ) + group_bucket(
                    parents@,
                    anchors@,
                    candidate_to_scene@,
                    Some(j as usize),
                    candidate as int,
                ),
            root@ == item_bucket(item_groups@, candidate_to_scene@, None, item_groups.len() as int)
                + group_bucket(parents@, anchors@, candidate_to_scene@, None, candidate as int),
    {
        if let Some(group) = candidate_to_scene[candidate] {
            let anchor = match anchors[candidate] {
                Some(anchor) => anchor,
                None => 0,
            };
            let entry = (anchor, PaintSceneEntry::group(group));
            let parent = match parents[candidate] {
                Some(p) => candidate_to_scene[p],
                None => None,
            };
            match parent {
                Some(parent_group) => {
                    let index = parent_group.index();
                    let mut bucket = Vec::new();
                    std::mem::swap(&mut bucket, &mut grouped[index]);
                    bucket.push(entry);
                    grouped.set(index, bucket);
                },
                None => {
                    root.push(entry);
                },
            }
        }
    }
    let mut sorted_grouped: Vec<Vec<(usize, PaintSceneEntry)>> = Vec::new();
    for k in 0..grouped.len()
        invariant
            sorted_grouped.len() == k,
            forall|j: int|
                0 <= j < k ==> is_stable_sort_by_anchor(
                    (#[trigger] sorted_grouped@[j])@,
                    grouped@[j]@,
                ),
    {
        sorted_grouped.push(stable_sort_by_anchor(&grouped[k]));
    }
    let sorted_root = stable_sort_by_anchor(&root);
    CompositionEntries { grouped: sorted_grouped, root: sorted_root }
}

proof fn lemma_count_some_same_shape<A, B>(a: Seq<Option<A>>, b: Seq<Option<B>>, n: int)
    requires
        0 <= n <= a.len(),
        a.len() == b.len(),
        forall|c: int| 0 <= c < a.len() ==> (#[trigger] a[c] is Some <==> b[c] is Some),
    ensures
        count_some(a, n) == count_some(b, n),
    decreases n,
{
    if n > 0 {
        lemma_count_some_same_shape(a, b, n - 1);
    }
}

/// Entries of anchored entries, anchors dropped.
pub open spec fn entries_of(anchored: Seq<(usize, PaintSceneEntry)>) -> Seq<PaintSceneEntry> {
    anchored.map_values(|e: (usize, PaintSceneEntry)| e.1)
}

/// `entries` are `members` stably sorted by anchor, anchors dropped.
pub open spec fn ordered_entries(
    entries: Seq<PaintSceneEntry>,
    members: Seq<(usize, PaintSceneEntry)>,
) -> bool {
    exists|sorted: Seq<(usize, PaintSceneEntry)>|
        is_stable_sort_by_anchor(sorted, members) && entries == entries_of(sorted)
}

fn strip_anchors(anchored: &Vec<(usize, PaintSceneEntry)>) -> (entries: Vec<PaintSceneEntry>)
    ensures
        entries@ == entries_of(anchored@),
{
    let mut entries: Vec<PaintSceneEntry> = Vec::new();
    for k in 0..anchored.len()
        invariant
            entries@ =~= entries_of(anchored@).take(k as int),
    {
        entries.push(anchored[k].1);
    }
    proof {
        assert(entries@ =~= entries_of(anchored@));
    }
    entries
}

/// Scene group id of a candidate.
pub open spec fn spec_scene_group_id(
    candidate_to_scene: Seq<Option<PaintSceneGroupId>>,
    candidate: Option<usize>,
) -> Option<PaintSceneGroupId> {
    match candidate {
        Some(c) => candidate_to_scene[c as int],
        None => None,
    }
}

/// Whether the inputs describe a scene that is published without any group.
pub open spec fn publishes_ungrouped(node_count: nat, item_count: nat, anchors: Seq<Option<usize>>) -> bool {
    item_count == 0 || node_count == 0 || count_some(anchors, anchors.len() as int) == 0
}


/// Published groups, in candidate order, with their parents, sources, and entries.
fn publish_groups(
    sources: &Vec<GroupSource>,
    parents: &Vec<Option<usize>>,
    candidate_to_scene: &Vec<Option<PaintSceneGroupId>>,
    grouped: &Vec<Vec<(usize, PaintSceneEntry)>>,
) -> (groups: Vec<PaintSceneGroup>)
    requires
        sources.len() == candidate_to_scene.len(),
        parents.len() == candidate_to_scene.len(),
        forall|c: int|
            0 <= c < parents.len() ==> (#[trigger] parents@[c] matches Some(p) ==> p
                < candidate_to_scene.len()),
        forall|c: int|
            0 <= c < candidate_to_scene.len() ==> (#[trigger] candidate_to_scene@[c] matches Some(
                g,
            ) ==> g@ == count_some(candidate_to_scene@, c)),
        grouped.len() == count_some(candidate_to_scene@, candidate_to_scene.len() as int),
    ensures
        groups.len() == count_some(candidate_to_scene@, candidate_to_scene.len() as int),
        forall|c: int|
            0 <= c < candidate_to_scene.len() && #[trigger] candidate_to_scene@[c] is Some ==> {
                let k = count_some(candidate_to_scene@, c);
                groups@[k as int]@ == PaintSceneGroupView {
                    parent: spec_scene_group_id(candidate_to_scene@, parents@[c]),
                    entries: entries_of(grouped@[k as int]@),
                    source: sources@[c],
                }
            },
{
    let mut groups: Vec<PaintSceneGroup> = Vec::new();
    for c in 0..candidate_to_scene.len()
        invariant
            sources.len() == candidate_to_scene.len(),
            parents.len() == candidate_to_scene.len(),
            forall|c: int|
                0 <= c < parents.len() ==> (#[trigger] parents@[c] matches Some(p) ==> p
                    < candidate_to_scene.len()),
            forall|c: int|
                0 <= c < candidate_to_scene.len() ==> (#[trigger] candidate_to_scene@[c] matches Some(
                    g,
                ) ==> g@ == count_some(candidate_to_scene@, c)),
            grouped.len() == count_some(candidate_to_scene@, candidate_to_scene.len() as int),
            groups.len() == count_some(candidate_to_scene@, c as int),
            forall|d: int|
                0 <= d < c && #[trigger] candidate_to_scene@[d] is Some ==> {
                    let k = count_some(candidate_to_scene@, d);
                    groups@[k as int]@ == PaintSceneGroupView {
                        parent: spec_scene_group_id(candidate_to_scene@, parents@[d]),
                        entries: entries_of(grouped@[k as int]@),
                        source: sources@[d],
                    }
                },
    {
        proof {
            lemma_count_some_monotone(candidate_to_scene@, c as int, candidate_to_scene.len() as int);
            lemma_count_some_monotone(candidate_to_scene@, c as int, c + 1);
        }
        if let Some(group) = candidate_to_scene[c] {
            let parent = match parents[c] {
                Some(p) => candidate_to_scene[p],
                None => None,
            };
            let stripped = strip_anchors(&grouped[group.index()]);
            let published = PaintSceneGroup::new(parent, stripped, sources[c]);
            let ghost before = groups@;
            groups.push(published);
            proof {
                assert forall|d: int| 0 <= d < c + 1 && #[trigger] candidate_to_scene@[d] is Some implies {
                    let k = count_some(candidate_to_scene@, d);
                    groups@[k as int]@ == PaintSceneGroupView {
                        parent: spec_scene_group_id(candidate_to_scene@, parents@[d]),
                        entries: entries_of(grouped@[k as int]@),
                        source: sources@[d],
                    }
                } by {
                    if d < c {
                        lemma_count_some_monotone(candidate_to_scene@, d, c as int);
                        assert(groups@[count_some(candidate_to_scene@, d) as int] == before[count_some(
                            candidate_to_scene@,
                            d,
                        ) as int]);
                    }
                }
            }
        }
    }
    groups
}

proof fn lemma_published_groups_ordered(
    groups: Seq<PaintSceneGroupView>,
    sources: Seq<GroupSource>,
    item_groups: Seq<Option<usize>>,
    parents: Seq<Option<usize>>,
    anchors: Seq<Option<usize>>,
    candidate_to_scene: Seq<Option<PaintSceneGroupId>>,
    grouped: Seq<Seq<(usize, PaintSceneEntry)>>,
)
    requires
        candidate_to_scene == spec_scene_ids(anchors),
        grouped.len() == count_some(candidate_to_scene, candidate_to_scene.len() as int),
        forall|c: int| 0 <= c <= anchors.len() ==> count_some(anchors, c) == count_some(candidate_to_scene, c),
        forall|k: int|
            0 <= k < grouped.len() ==> is_stable_sort_by_anchor(
                #[trigger] grouped[k],
                bucket_members(item_groups, parents, anchors, candidate_to_scene, Some(k as usize)),
            ),
        forall|c: int|
            0 <= c < candidate_to_scene.len() && #[trigger] candidate_to_scene[c] is Some ==> {
                let k = count_some(candidate_to_scene, c);
                groups[k as int] == PaintSceneGroupView {
                    parent: spec_scene_group_id(candidate_to_scene, parents[c]),
                    entries: entries_of(grouped[k as int]),
                    source: sources[c],
                }
            },
    ensures
        forall|c: int|
            0 <= c < anchors.len() && #[trigger] anchors[c] is Some ==> {
                let k = count_some(anchors, c);
                let group = groups[k as int];
                &&& group.parent == spec_scene_group_id(candidate_to_scene, parents[c])
                &&& group.source == sources[c]
                &&& ordered_entries(
                    group.entries,
                    bucket_members(item_groups, parents, anchors, candidate_to_scene, Some(k as usize)),
                )
            },
{
    assert forall|c: int| 0 <= c < anchors.len() && #[trigger] anchors[c] is Some implies {
        let k = count_some(anchors, c);
        let group = groups[k as int];
        &&& group.parent == spec_scene_group_id(candidate_to_scene, parents[c])
        &&& group.source == sources[c]
        &&& ordered_entries(
            group.entries,
            bucket_members(item_groups, parents, anchors, candidate_to_scene, Some(k as usize)),
        )
    } by {
        assert(candidate_to_scene[c] is Some);
        lemma_count_some_monotone(anchors, c, anchors.len() as int);
        let k = count_some(anchors, c);
        assert(is_stable_sort_by_anchor(
            grouped[k as int],
            bucket_members(item_groups, parents, anchors, candidate_to_scene, Some(k as usize)),
        ));
    }
}


proof fn lemma_count_some_bound<T>(values: Seq<Option<T>>, n: int)
    requires
        0 <= n <= values.len(),
    ensures
        count_some(values, n) <= n,
    decreases n,
{
    if n > 0 {
        lemma_count_some_bound(values, n - 1);
    }
}

/// Facts about the dense scene ids that the contraction steps rely on.
proof fn lemma_scene_ids_dense(anchors: Seq<Option<usize>>, candidate_to_scene: Seq<Option<PaintSceneGroupId>>)
    requires
        candidate_to_scene == spec_scene_ids(anchors),
        anchors.len() <= usize::MAX,
    ensures
        forall|c: int|
            0 <= c <= anchors.len() ==> #[trigger] count_some(anchors, c) == count_some(
                candidate_to_scene,
                c,
            ),
        forall|c: int|
            0 <= c < candidate_to_scene.len() ==> (#[trigger] candidate_to_scene[c] matches Some(g)
                ==> g@ == count_some(candidate_to_scene, c) && g@ < count_some(
                candidate_to_scene,
                candidate_to_scene.len() as int,
            )),
        forall|c: int|
            0 <= c < candidate_to_scene.len() ==> (#[trigger] candidate_to_scene[c] is Some
                <==> anchors[c] is Some),
{
    assert forall|c: int| 0 <= c < candidate_to_scene.len() implies (#[trigger] candidate_to_scene[c]
        is Some <==> anchors[c] is Some) by {}
    assert forall|c: int| 0 <= c <= anchors.len() implies #[trigger] count_some(anchors, c)
        == count_some(candidate_to_scene, c) by {
        lemma_count_some_same_shape(anchors, candidate_to_scene, c);
    }
    assert forall|c: int| 0 <= c < candidate_to_scene.len() implies (
    #[trigger] candidate_to_scene[c] matches Some(g) ==> g@ == count_some(candidate_to_scene, c)
        && g@ < count_some(candidate_to_scene, candidate_to_scene.len() as int)) by {
        if let Some(g) = candidate_to_scene[c] {
            lemma_count_some_bound(anchors, c);
            lemma_count_some_same_shape(anchors, candidate_to_scene, c);
            lemma_count_some_same_shape(anchors, candidate_to_scene, anchors.len() as int);
            lemma_count_some_monotone(anchors, c, anchors.len() as int);
            PaintSceneGroupId::lemma_spec_id(count_some(anchors, c) as usize, g);
        }
    }
}

fn item_scene_groups(
    item_groups: &Vec<Option<usize>>,
    candidate_to_scene: &Vec<Option<PaintSceneGroupId>>,
) -> (groups: Vec<Option<PaintSceneGroupId>>)
    requires
        forall|i: int|
            0 <= i < item_groups.len() ==> (#[trigger] item_groups@[i] matches Some(c) ==> c
                < candidate_to_scene.len()),
    ensures
        groups.len() == item_groups.len(),
        forall|i: int|
            0 <= i < item_groups.len() ==> #[trigger] groups@[i] == spec_scene_group_id(
                candidate_to_scene@,
                item_groups@[i],
            ),
{
    let mut groups: Vec<Option<PaintSceneGroupId>> = Vec::new();
    for i in 0..item_groups.len()
        invariant
            forall|i: int|
                0 <= i < item_groups.len() ==> (#[trigger] item_groups@[i] matches Some(c) ==> c
                    < candidate_to_scene.len()),
            groups.len() == i,
            forall|j: int|
                0 <= j < i ==> #[trigger] groups@[j] == spec_scene_group_id(
                    candidate_to_scene@,
                    item_groups@[j],
                ),
    {
        let group = match item_groups[i] {
            Some(candidate) => candidate_to_scene[candidate],
            None => None,
        };
        groups.push(group);
    }
    groups
}

/// Contracts a group plan into its composition.
fn compose_published_groups(plan: &GroupPlan, candidate_to_scene: Vec<Option<PaintSceneGroupId>>) -> (composed:
    ComposedScene)
    requires
        parents_precede(plan.parents@),
        plan.parents.len() == plan.sources.len(),
        plan.anchors.len() == plan.sources.len(),
        forall|i: int|
            0 <= i < plan.item_groups.len() ==> (#[trigger] plan.item_groups@[i] matches Some(g) ==> g
                < plan.sources.len()),
        plan.anchors@ == spec_anchors(plan.item_groups@, plan.parents@),
        candidate_to_scene@ == spec_scene_ids(plan.anchors@),
    ensures
        composed.item_groups.len() == plan.item_groups.len(),
        forall|i: int|
            0 <= i < plan.item_groups.len() ==> #[trigger] composed.item_groups@[i]
                == spec_scene_group_id(candidate_to_scene@, plan.item_groups@[i]),
        composed.composition@.groups.len() == count_some(plan.anchors@, plan.anchors.len() as int),
        forall|c: int|
            0 <= c < plan.anchors.len() && #[trigger] plan.anchors@[c] is Some ==> {
                let k = count_some(plan.anchors@, c);
                let group = composed.composition@.groups[k as int];
                &&& group.parent == spec_scene_group_id(candidate_to_scene@, plan.parents@[c])
                &&& group.source == plan.sources@[c]
                &&& ordered_entries(
                    group.entries,
                    bucket_members(
                        plan.item_groups@,
                        plan.parents@,
                        plan.anchors@,
                        candidate_to_scene@,
                        Some(k as usize),
                    ),
                )
            },
        ordered_entries(
            composed.composition@.root_entries,
            bucket_members(plan.item_groups@, plan.parents@, plan.anchors@, candidate_to_scene@, None),
        ),
{
    proof {
        lemma_scene_ids_dense(plan.anchors@, candidate_to_scene@);
        assert(composition_inputs_aligned(
            plan.item_groups@,
            plan.parents@,
            plan.anchors@,
            candidate_to_scene@,
        ));
    }
    let item_groups = item_scene_groups(&plan.item_groups, &candidate_to_scene);
    let entries = build_composition_entries(
        &plan.item_groups,
        &plan.parents,
        &plan.anchors,
        &candidate_to_scene,
    );
    let groups = publish_groups(&plan.sources, &plan.parents, &candidate_to_scene, &entries.grouped);
    proof {
        lemma_published_groups_ordered(
            groups@.map_values(|g: PaintSceneGroup| g@),
            plan.sources@,
            plan.item_groups@,
            plan.parents@,
            plan.anchors@,
            candidate_to_scene@,
            entries.grouped@.map_values(|b: Vec<(usize, PaintSceneEntry)>| b@),
        );
    }
    let root_entries = strip_anchors(&entries.root);
    let composition = PaintSceneComposition::new(groups, root_entries);
    ComposedScene { item_groups, composition }
}

/// A paint scene's item group assignment and composition forest.
pub struct ComposedScene {
    /// Published group of each paint item, if any.
    pub item_groups: Vec<Option<PaintSceneGroupId>>,
    /// The contracted composition forest.
    pub composition: PaintSceneComposition,
}

/// Applies node and explicit owner-local grouping to one ordered pre-group item sequence.
///
/// Items keep their sequence; only the separate composition forest contracts each
/// non-empty group at its first descendant item.
pub fn derive_composition_groups(
    topology_parent: &Vec<Option<usize>>,
    requires_node_group: &Vec<bool>,
    explicit_groups: &Vec<ResolvedExplicitGroup>,
    item_owners: &Vec<usize>,
    item_explicit_groups: &Vec<Option<ExplicitGroupId>>,
) -> (composed: ComposedScene)
    requires
        parents_precede(topology_parent@),
        topology_parent.len() == requires_node_group.len(),
        item_owners.len() == item_explicit_groups.len(),
        item_owners.len() > 0 && topology_parent.len() > 0 ==> {
            &&& explicit_groups_well_formed(explicit_groups@, topology_parent.len() as int)
            &&& forall|i: int|
                0 <= i < item_owners.len() ==> #[trigger] item_owners@[i] < topology_parent.len()
            &&& forall|i: int|
                0 <= i < item_explicit_groups.len() ==> (#[trigger] item_explicit_groups@[i] matches Some(
                    e,
                ) ==> e@ < explicit_groups.len())
        },
    ensures
        ({
            let req = requires_node_group@;
            let sources = spec_sources(req, explicit_groups.len() as nat);
            let parents = spec_parents(sources, explicit_groups@, req, topology_parent@);
            let item_groups = spec_item_groups(
                item_explicit_groups@,
                item_owners@,
                req,
                topology_parent@,
            );
            let anchors = spec_anchors(item_groups, parents);
            let scene_ids = spec_scene_ids(anchors);
            let view = composed.composition@;
            composed.item_groups.len() == item_owners.len() && if publishes_ungrouped(
                topology_parent.len() as nat,
                item_owners.len() as nat,
                anchors,
            ) {
                &&& forall|i: int| 0 <= i < item_owners.len() ==> #[trigger] composed.item_groups@[i] is None
                &&& view.groups.len() == 0
                &&& view.root_entries == ungrouped_entries(item_owners.len() as nat)
            } else {
                &&& forall|i: int|
                    0 <= i < item_owners.len() ==> #[trigger] composed.item_groups@[i]
                        == spec_scene_group_id(scene_ids, item_groups[i])
                &&& view.groups.len() == count_some(anchors, anchors.len() as int)
                &&& forall|c: int|
                    0 <= c < anchors.len() && #[trigger] anchors[c] is Some ==> {
                        let k = count_some(anchors, c);
                        let group = view.groups[k as int];
                        &&& group.parent == spec_scene_group_id(scene_ids, parents[c])
                        &&& group.source == sources[c]
                        &&& ordered_entries(
                            group.entries,
                            bucket_members(item_groups, parents, anchors, scene_ids, Some(k as usize)),
                        )
                    }
                &&& ordered_entries(
                    view.root_entries,
                    bucket_members(item_groups, parents, anchors, scene_ids, None),
                )
            }
        }),
{
    let item_count = item_owners.len();
    if item_count == 0 || topology_parent.len() == 0 {
        let mut item_groups: Vec<Option<PaintSceneGroupId>> = Vec::new();
        for i in 0..item_count
            invariant
                item_groups.len() == i,
                forall|j: int| 0 <= j < i ==> #[trigger] item_groups@[j] is None,
        {
            item_groups.push(None);
        }
        return ComposedScene { item_groups, composition: PaintSceneComposition::ungrouped(item_count) };
    }
    let plan = derive_group_plan(
        topology_parent,
        requires_node_group,
        explicit_groups,
        item_owners,
        item_explicit_groups,
    );
    let candidate_to_scene = scene_group_ids(&plan.anchors);
    let mut published: usize = 0;
    for c in 0..candidate_to_scene.len()
        invariant
            published == count_some(candidate_to_scene@, c as int),
            published <= c,
    {
        if candidate_to_scene[c].is_some() {
            published = published + 1;
        }
    }
    proof {
        lemma_count_some_same_shape(
            plan.anchors@,
            candidate_to_scene@,
            candidate_to_scene.len() as int,
        );
    }
    if published == 0 {
        let mut item_groups: Vec<Option<PaintSceneGroupId>> = Vec::new();
        for i in 0..item_count
            invariant
                item_groups.len() == i,
                forall|j: int| 0 <= j < i ==> #[trigger] item_groups@[j] is None,
        {
            item_groups.push(None);
        }
        return ComposedScene { item_groups, composition: PaintSceneComposition::ungrouped(item_count) };
    }
    compose_published_groups(&plan, candidate_to_scene)
}

/// Last position among the first `n` whose identity is `id`.
pub open spec fn spec_last_index_of(ids: Seq<MountedNodeId>, id: MountedNodeId, n: int) -> Option<usize>
    decreases n,
{
    if n <= 0 {
        None
    } else if ids[n - 1] == id {
        Some((n - 1) as usize)
    } else {
        spec_last_index_of(ids, id, n - 1)
    }
}

/// Topology parent index of every node, found by the parent's identity.
///
/// An identity that occurs more than once resolves to its last position.
pub fn topology_parents(ids: &Vec<MountedNodeId>, parents: &Vec<Option<MountedNodeId>>) -> (indices:
    Vec<Option<usize>>)
    ensures
        indices.len() == parents.len(),
        forall|i: int|
            0 <= i < parents.len() ==> #[trigger] indices@[i] == match parents@[i] {
                Some(p) => spec_last_index_of(ids@, p, ids.len() as int),
                None => None,
            },
{
    let mut indices: Vec<Option<usize>> = Vec::new();
    for i in 0..parents.len()
        invariant
            indices.len() == i,
            forall|j: int|
                0 <= j < i ==> #[trigger] indices@[j] == match parents@[j] {
                    Some(p) => spec_last_index_of(ids@, p, ids.len() as int),
                    None => None,
                },
    {
        let index = match parents[i] {
            None => None,
            Some(parent) => {
                let mut k = ids.len();
                let mut found: Option<usize> = None;
                while k > 0 && found.is_none()
                    invariant
                        k <= ids.len(),
                        found is None ==> spec_last_index_of(ids@, parent, ids.len() as int)
                            == spec_last_index_of(ids@, parent, k as int),
                        found is Some ==> found == spec_last_index_of(ids@, parent, ids.len() as int),
                    decreases k + if found is None {
                        1int
                    } else {
                        0int
                    },
                {
                    if ids[k - 1] == parent {
                        found = Some(k - 1);
                    } else {
                        k = k - 1;
                    }
                }
                found
            },
        };
        indices.push(index);
    }
    indices
}

/// Finiteness and invertibility of one explicit group clip's final transform.
#[derive(Clone, Copy, Debug, PartialEq, Eq, Structural)]
pub struct ClipTransformFacts {
    /// The clip-to-surface transform is representable finitely.
    pub finite: bool,
    /// The clip-to-surface transform is invertible.
    pub invertible: bool,
}

/// Diagnostic for one explicit group clip whose final transform is unusable.
#[derive(Clone, Copy, Debug, PartialEq, Eq, Structural)]
pub struct GroupClipDiagnostic {
    /// Owner-local order of the group.
    pub group_order: usize,
    /// Order of the clip within the group.
    pub clip_order: usize,
    /// `true`: the transform is not finite and the group subtree is excluded;
    /// `false`: the transform is not invertible and the clip covers nothing.
    pub non_finite: bool,
}

/// Diagnostics of one group's clips, stopping at the first non-finite one, and
/// whether every clip was finite.
pub open spec fn spec_clip_diagnostics(group_order: usize, clips: Seq<ClipTransformFacts>, n: int) -> (
    Seq<GroupClipDiagnostic>,
    bool,
)
    decreases n,
{
    if n <= 0 {
        (Seq::empty(), true)
    } else {
        let (earlier, finite) = spec_clip_diagnostics(group_order, clips, n - 1);
        if !finite {
            (earlier, false)
        } else if !clips[n - 1].finite {
            (
                earlier.push(
                    GroupClipDiagnostic { group_order, clip_order: (n - 1) as usize, non_finite: true },
                ),
                false,
            )
        } else if !clips[n - 1].invertible {
            (
                earlier.push(
                    GroupClipDiagnostic {
                        group_order,
                        clip_order: (n - 1) as usize,
                        non_finite: false,
                    },
                ),
                true,
            )
        } else {
            (earlier, true)
        }
    }
}

/// Owner-local explicit group resolution after `n` groups: the local-to-resolved
/// mapping, the appended resolved groups, and the clip diagnostics.
pub open spec fn spec_resolve_explicit(
    owner: usize,
    local_parents: Seq<Option<usize>>,
    clips: Seq<Seq<ClipTransformFacts>>,
    base: nat,
    n: int,
) -> (Seq<Option<ExplicitGroupId>>, Seq<ResolvedExplicitGroup>, Seq<GroupClipDiagnostic>)
    decreases n,
{
    if n <= 0 {
        (Seq::empty(), Seq::empty(), Seq::empty())
    } else {
        let (mapping, resolved, diagnostics) = spec_resolve_explicit(
            owner,
            local_parents,
            clips,
            base,
            n - 1,
        );
        let local = n - 1;
        let parent_rejected = match local_parents[local] {
            Some(p) => p >= mapping.len() || mapping[p as int] is None,
            None => false,
        };
        if parent_rejected {
            (mapping.push(None), resolved, diagnostics)
        } else {
            let (clip_diagnostics, finite) = spec_clip_diagnostics(
                local as usize,
                clips[local],
                clips[local].len() as int,
            );
            if !finite {
                (mapping.push(None), resolved, diagnostics + clip_diagnostics)
            } else {
                let parent = match local_parents[local] {
                    Some(p) => mapping[p as int],
                    None => None,
                };
                let id = ExplicitGroupId::spec_id((base + resolved.len()) as usize);
                (
                    mapping.push(Some(id)),
                    resolved.push(ResolvedExplicitGroup { owner, parent }),
                    diagnostics + clip_diagnostics,
                )
            }
        }
    }
}

fn clip_diagnostics(group_order: usize, clips: &Vec<ClipTransformFacts>, diagnostics: &mut Vec<
    GroupClipDiagnostic,
>) -> (finite: bool)
    ensures
        ({
            let (expected, all_finite) = spec_clip_diagnostics(group_order, clips@, clips.len() as int);
            &&& final(diagnostics)@ == old(diagnostics)@ + expected
            &&& finite == all_finite
        }),
{
    let ghost start = diagnostics@;
    let mut consumed: usize = 0;
    let mut finite = true;
    while finite && consumed < clips.len()
        invariant
            consumed <= clips.len(),
            finite == spec_clip_diagnostics(group_order, clips@, consumed as int).1,
            diagnostics@ == start + spec_clip_diagnostics(group_order, clips@, consumed as int).0,
        decreases clips.len() - consumed,
    {
        let facts = clips[consumed];
        if !facts.finite {
            diagnostics.push(GroupClipDiagnostic { group_order, clip_order: consumed, non_finite: true });
            finite = false;
        } else if !facts.invertible {
            diagnostics.push(GroupClipDiagnostic { group_order, clip_order: consumed, non_finite: false });
        }
        consumed = consumed + 1;
        proof {
            assert(diagnostics@ =~= start + spec_clip_diagnostics(
                group_order,
                clips@,
                consumed as int,
            ).0);
        }
    }
    proof {
        if !finite {
            lemma_clip_diagnostics_stop(group_order, clips@, consumed as int);
        }
    }
    finite
}

proof fn lemma_clip_diagnostics_stop(group_order: usize, clips: Seq<ClipTransformFacts>, n: int)
    requires
        1 <= n <= clips.len(),
        !spec_clip_diagnostics(group_order, clips, n).1,
    ensures
        spec_clip_diagnostics(group_order, clips, clips.len() as int) == spec_clip_diagnostics(
            group_order,
            clips,
            n,
        ),
    decreases clips.len() - n,
{
    if n < clips.len() {
        lemma_clip_diagnostics_stop(group_order, clips, n + 1);
    }
}

/// Resolves one widget's normalized explicit groups, appending the valid ones.
///
/// A group with a non-finite clip transform is rejected together with every
/// descendant group; its mapping entry is `None`.
pub fn append_resolved_explicit_groups(
    owner: usize,
    local_parents: &Vec<Option<usize>>,
    clips: &Vec<Vec<ClipTransformFacts>>,
    diagnostics: &mut Vec<GroupClipDiagnostic>,
    resolved: &mut Vec<ResolvedExplicitGroup>,
) -> (mapping: Vec<Option<ExplicitGroupId>>)
    requires
        local_parents.len() == clips.len(),
        old(resolved).len() + local_parents.len() <= usize::MAX,
    ensures
        ({
            let (expected_mapping, appended, expected_diagnostics) = spec_resolve_explicit(
                owner,
                local_parents@,
                clips@.map_values(|c: Vec<ClipTransformFacts>| c@),
                old(resolved).len() as nat,
                local_parents.len() as int,
            );
            &&& mapping@ == expected_mapping
            &&& final(resolved)@ == old(resolved)@ + appended
            &&& final(diagnostics)@ == old(diagnostics)@ + expected_diagnostics
        }),
        forall|node_count: int|
            explicit_groups_well_formed(old(resolved)@, node_count) && owner < node_count
                ==> explicit_groups_well_formed(final(resolved)@, node_count),
{
    let ghost clip_seqs = clips@.map_values(|c: Vec<ClipTransformFacts>| c@);
    let ghost base = resolved.len() as nat;
    let ghost start_resolved = resolved@;
    let ghost start_diagnostics = diagnostics@;
    let mut mapping: Vec<Option<ExplicitGroupId>> = Vec::new();
    for local_group in 0..local_parents.len()
        invariant
            local_parents.len() == clips.len(),
            clip_seqs == clips@.map_values(|c: Vec<ClipTransformFacts>| c@),
            base + local_parents.len() <= usize::MAX,
            ({
                let (m, r, d) = spec_resolve_explicit(
                    owner,
                    local_parents@,
                    clip_seqs,
                    base,
                    local_group as int,
                );
                &&& mapping@ == m
                &&& resolved@ == start_resolved + r
                &&& diagnostics@ == start_diagnostics + d
                &&& r.len() <= local_group
            }),
            start_resolved.len() == base,
            forall|j: int|
                0 <= j < mapping.len() ==> (#[trigger] mapping@[j] matches Some(id) ==> base <= id@
                    < resolved.len()),
            forall|k: int|
                base <= k < resolved.len() ==> (#[trigger] resolved@[k]).owner == owner && (
                resolved@[k].parent matches Some(p) ==> p@ < k),
    {
        let parent_local = local_parents[local_group];
        let parent_rejected = match parent_local {
            Some(parent) => parent >= mapping.len() || mapping[parent].is_none(),
            None => false,
        };
        if parent_rejected {
            mapping.push(None);
        } else {
        let finite = clip_diagnostics(local_group, &clips[local_group], diagnostics);
        proof {
            assert(clip_seqs[local_group as int] == clips@[local_group as int]@);
            assert(diagnostics@ =~= start_diagnostics + spec_resolve_explicit(
                owner,
                local_parents@,
                clip_seqs,
                base,
                local_group + 1,
            ).2);
        }
        if !finite {
            mapping.push(None);
        } else {
        let parent = match parent_local {
            Some(parent) => mapping[parent],
            None => None,
        };
        let id = ExplicitGroupId::new(resolved.len());
        resolved.push(ResolvedExplicitGroup { owner, parent });
        mapping.push(Some(id));
        proof {
            assert(resolved@ =~= start_resolved + spec_resolve_explicit(
                owner,
                local_parents@,
                clip_seqs,
                base,
                local_group + 1,
            ).1);
        }
        }
        }
    }
    proof {
        assert forall|node_count: int|
            explicit_groups_well_formed(start_resolved, node_count) && owner < node_count implies explicit_groups_well_formed(
            resolved@,
            node_count,
        ) by {
            assert forall|k: int| 0 <= k < resolved@.len() implies #[trigger] resolved@[k].owner
                < node_count && (resolved@[k].parent matches Some(p) ==> p@ < k) by {
                if k < base {
                    assert(resolved@[k] == start_resolved[k]);
                }
            }
        }
    }
    mapping
}

/// A candidate's anchor is the first item whose group chain passes through it.
pub proof fn lemma_anchor_is_first_member(
    item_groups: Seq<Option<usize>>,
    parents: Seq<Option<usize>>,
    group: usize,
    n: int,
)
    requires
        0 <= n <= item_groups.len(),
        item_groups.len() <= usize::MAX,
    ensures
        spec_anchor(item_groups, parents, group, n) matches Some(a) ==> a < n && spec_reaches(
            item_groups[a as int],
            group,
            parents,
        ) && forall|j: int| 0 <= j < a ==> !spec_reaches(#[trigger] item_groups[j], group, parents),
        spec_anchor(item_groups, parents, group, n) is None ==> forall|j: int|
            0 <= j < n ==> !spec_reaches(#[trigger] item_groups[j], group, parents),
    decreases n,
{
    if n > 0 {
        lemma_anchor_is_first_member(item_groups, parents, group, n - 1);
    }
}

/// Each item occurs in exactly one bucket: the bucket of its own scene group.
pub proof fn lemma_item_in_own_bucket(
    item_groups: Seq<Option<usize>>,
    candidate_to_scene: Seq<Option<PaintSceneGroupId>>,
    bucket: Option<usize>,
    n: int,
    item: int,
)
    requires
        0 <= item < n <= item_groups.len(),
        item_groups.len() <= usize::MAX,
    ensures
        item_bucket(item_groups, candidate_to_scene, bucket, n).contains(
            (item as usize, PaintSceneEntry::item_entry(item as usize)),
        ) <==> spec_scene_group(candidate_to_scene, item_groups[item]) == bucket,
    decreases n,
{
    let entry = (item as usize, PaintSceneEntry::item_entry(item as usize));
    let earlier = item_bucket(item_groups, candidate_to_scene, bucket, n - 1);
    lemma_item_bucket_indices(item_groups, candidate_to_scene, bucket, n - 1);
    if item < n - 1 {
        lemma_item_in_own_bucket(item_groups, candidate_to_scene, bucket, n - 1, item);
        if spec_scene_group(candidate_to_scene, item_groups[n - 1]) == bucket {
            let pushed = earlier.push(((n - 1) as usize, PaintSceneEntry::item_entry((n - 1) as usize)));
            if pushed.contains(entry) {
                let k = choose|k: int| 0 <= k < pushed.len() && pushed[k] == entry;
                if k < earlier.len() {
                    assert(earlier.contains(entry));
                }
            }
            if earlier.contains(entry) {
                let k = choose|k: int| 0 <= k < earlier.len() && earlier[k] == entry;
                assert(pushed[k] == entry);
            }
        }
    } else {
        if spec_scene_group(candidate_to_scene, item_groups[n - 1]) == bucket {
            let pushed = earlier.push(entry);
            assert(pushed[earlier.len() as int] == entry);
        } else {
            if earlier.contains(entry) {
                let k = choose|k: int| 0 <= k < earlier.len() && earlier[k] == entry;
                assert(earlier[k].0 < n - 1);
            }
        }
    }
}

proof fn lemma_item_bucket_indices(
    item_groups: Seq<Option<usize>>,
    candidate_to_scene: Seq<Option<PaintSceneGroupId>>,
    bucket: Option<usize>,
    n: int,
)
    requires
        0 <= n <= item_groups.len(),
        item_groups.len() <= usize::MAX,
    ensures
        forall|k: int|
            0 <= k < item_bucket(item_groups, candidate_to_scene, bucket, n).len() ==> (#[trigger] item_bucket(
                item_groups,
                candidate_to_scene,
                bucket,
                n,
            )[k]).0 < n,
    decreases n,
{
    if n > 0 {
        lemma_item_bucket_indices(item_groups, candidate_to_scene, bucket, n - 1);
        let earlier = item_bucket(item_groups, candidate_to_scene, bucket, n - 1);
        let current = item_bucket(item_groups, candidate_to_scene, bucket, n);
        assert forall|k: int| 0 <= k < current.len() implies (#[trigger] current[k]).0 < n by {
            if k < earlier.len() {
                assert(current[k] == earlier[k]);
            }
        }
    }
}

} // verus!
