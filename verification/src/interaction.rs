//! Ephemeral pointer and focus facts projected into one surface publication attempt,
//! and the cache decisions that read them.

use vstd::prelude::*;

use crate::ids::MountedNodeId;
use crate::phases::{DirtyPhase, DirtyPhases};

verus! {

/// Whether every member of `left` is in `right` and both hold as many entries.
pub open spec fn spec_same_membership(left: Seq<MountedNodeId>, right: Seq<MountedNodeId>) -> bool {
    left.len() == right.len() && forall|i: int| 0 <= i < left.len() ==> right.contains(#[trigger] left[i])
}

fn contains_id(ids: &Vec<MountedNodeId>, id: &MountedNodeId) -> (found: bool)
    ensures
        found == ids@.contains(*id),
{
    let mut k: usize = 0;
    while k < ids.len()
        invariant
            k <= ids@.len(),
            forall|j: int| 0 <= j < k ==> ids@[j] != *id,
        decreases ids.len() - k,
    {
        if ids[k] == *id {
            return true;
        }
        k = k + 1;
    }
    false
}

/// Compares two projected memberships, ignoring order.
pub fn same_membership(left: &Vec<MountedNodeId>, right: &Vec<MountedNodeId>) -> (same: bool)
    ensures
        same == spec_same_membership(left@, right@),
{
    if left.len() != right.len() {
        return false;
    }
    let mut k: usize = 0;
    while k < left.len()
        invariant
            k <= left@.len(),
            left@.len() == right@.len(),
            forall|i: int| 0 <= i < k ==> right@.contains(#[trigger] left@[i]),
        decreases left.len() - k,
    {
        if !contains_id(right, &left[k]) {
            return false;
        }
        k = k + 1;
    }
    true
}

/// Interaction facts of one node for style resolution.
#[derive(Clone, Copy, Debug, PartialEq, Eq, Structural)]
pub struct InteractionFacts {
    /// The pointer hovers the node.
    pub hover: bool,
    /// The node holds focus.
    pub focus: bool,
    /// The node is pressed.
    pub active: bool,
}

/// Ephemeral runtime interaction facts for one surface publication attempt.
#[derive(Clone, Debug)]
pub struct SurfaceInteractionProjection {
    /// Hovered nodes.
    pub hovered: Vec<MountedNodeId>,
    /// Pressed nodes.
    pub active: Vec<MountedNodeId>,
    /// Focused node.
    pub focused: Option<MountedNodeId>,
}

/// Whether two projections differ in content, ignoring membership order.
pub open spec fn spec_content_differs(
    left: SurfaceInteractionProjection,
    right: SurfaceInteractionProjection,
) -> bool {
    left.focused != right.focused || !spec_same_membership(left.hovered@, right.hovered@)
        || !spec_same_membership(left.active@, right.active@)
}

impl SurfaceInteractionProjection {
    /// Projection with the given hovered, pressed, and focused nodes.
    pub fn new(
        hovered: Vec<MountedNodeId>,
        active: Vec<MountedNodeId>,
        focused: Option<MountedNodeId>,
    ) -> (projection: SurfaceInteractionProjection)
        ensures
            projection.hovered@ == hovered@,
            projection.active@ == active@,
            projection.focused == focused,
    {
        SurfaceInteractionProjection { hovered, active, focused }
    }

    /// Projection with no interaction.
    pub fn empty() -> (projection: SurfaceInteractionProjection)
        ensures
            projection.hovered@ == Seq::<MountedNodeId>::empty(),
            projection.active@ == Seq::<MountedNodeId>::empty(),
            projection.focused is None,
    {
        SurfaceInteractionProjection { hovered: Vec::new(), active: Vec::new(), focused: None }
    }

    /// Interaction facts of node `id`.
    pub fn facts_for(&self, id: &MountedNodeId) -> (facts: InteractionFacts)
        ensures
            facts.hover == self.hovered@.contains(*id),
            facts.focus == (self.focused == Some(*id)),
            facts.active == self.active@.contains(*id),
    {
        let focus = match &self.focused {
            Some(focused) => *focused == *id,
            None => false,
        };
        InteractionFacts {
            hover: contains_id(&self.hovered, id),
            focus,
            active: contains_id(&self.active, id),
        }
    }

    /// Whether the two projections differ in content, ignoring membership order.
    pub fn content_differs(&self, other: &SurfaceInteractionProjection) -> (differs: bool)
        ensures
            differs == spec_content_differs(*self, *other),
    {
        self.focused != other.focused || !same_membership(&self.hovered, &other.hovered)
            || !same_membership(&self.active, &other.active)
    }
}

/// A projection never differs from itself.
pub proof fn lemma_projection_matches_itself(projection: SurfaceInteractionProjection)
    ensures
        !spec_content_differs(projection, projection),
{
    assert forall|i: int| 0 <= i < projection.hovered@.len() implies projection.hovered@.contains(
        #[trigger] projection.hovered@[i],
    ) by {}
    assert forall|i: int| 0 <= i < projection.active@.len() implies projection.active@.contains(
        #[trigger] projection.active@[i],
    ) by {}
}

/// Whether the retained style product must be resolved again: style work is pending,
/// the style environment changed, or the interaction projection changed in content.
pub fn style_product_is_dirty(
    pending: DirtyPhases,
    style_environment_changed: bool,
    retained: &SurfaceInteractionProjection,
    next: &SurfaceInteractionProjection,
) -> (dirty: bool)
    ensures
        dirty == (pending@.contains(DirtyPhase::Style) || style_environment_changed
            || spec_content_differs(*retained, *next)),
{
    pending.contains(DirtyPhase::Style) || style_environment_changed || retained.content_differs(next)
}

/// Whether the layout context changed: the normalized root constraints or the font
/// source differ.
pub fn layout_context_changed(
    retained_constraints: &[u32; 4],
    next_constraints: &[u32; 4],
    font_source_changed: bool,
) -> (changed: bool)
    ensures
        changed == (retained_constraints@ != next_constraints@ || font_source_changed),
{
    let mut k: usize = 0;
    while k < 4
        invariant
            k <= 4,
            retained_constraints@.len() == 4,
            next_constraints@.len() == 4,
            forall|j: int| 0 <= j < k ==> retained_constraints@[j] == next_constraints@[j],
        decreases 4 - k,
    {
        if retained_constraints[k] != next_constraints[k] {
            return true;
        }
        k = k + 1;
    }
    assert(retained_constraints@ =~= next_constraints@);
    font_source_changed
}

} // verus!
