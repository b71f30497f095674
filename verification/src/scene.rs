//! Snapshot-local paint identities and the composition forest of one paint scene.

use vstd::prelude::*;

use crate::composition::GroupSource;

verus! {

/// Surface-scoped non-zero renderer update identity.
#[derive(Clone, Copy, Debug, PartialEq, Eq, Hash, PartialOrd, Ord, Structural)]
pub struct PaintRevision {
    value: u64,
}

impl View for PaintRevision {
    type V = u64;

    closed spec fn view(&self) -> u64 {
        self.value
    }
}

impl PaintRevision {
    #[verifier::type_invariant]
    spec fn non_zero(self) -> bool {
        self.value != 0
    }

    /// Issues a revision for `value`, refusing zero.
    pub fn new(value: u64) -> (revision: Option<PaintRevision>)
        ensures
            revision is Some <==> value != 0,
            revision matches Some(r) ==> r@ == value,
    {
        if value == 0 {
            None
        } else {
            Some(PaintRevision { value })
        }
    }

    /// Returns the non-zero revision value.
    pub fn get(self) -> (value: u64)
        ensures
            value == self@,
            value != 0,
    {
        proof {
            use_type_invariant(&self);
        }
        self.value
    }
}

/// Conservative renderer damage for one changed paint publication.
#[non_exhaustive]
#[derive(Clone, Copy, Debug, PartialEq, Eq, Structural)]
pub enum PaintDamage {
    /// Reprocess the complete logical surface extent.
    FullSurface,
}

/// Snapshot-local reference to one immutable paint composition group.
#[derive(Clone, Copy, Debug, PartialEq, Eq, Structural)]
pub struct PaintSceneGroupId {
    index: usize,
}

impl View for PaintSceneGroupId {
    type V = usize;

    closed spec fn view(&self) -> usize {
        self.index
    }
}

impl PaintSceneGroupId {
    /// The group reference value for position `index`.
    pub closed spec fn spec_id(index: usize) -> PaintSceneGroupId {
        PaintSceneGroupId { index }
    }

    /// The reference value names its position, and positions name one value.
    pub proof fn lemma_spec_id(index: usize, id: PaintSceneGroupId)
        ensures
            Self::spec_id(index)@ == index,
            id@ == index <==> id == Self::spec_id(index),
    {
    }

    /// Issues the group reference for position `index` of the group table.
    pub fn new(index: usize) -> (id: PaintSceneGroupId)
        ensures
            id@ == index,
            id == Self::spec_id(index),
    {
        PaintSceneGroupId { index }
    }

    /// Returns the position of the referenced group in the group table.
    pub fn index(self) -> (index: usize)
        ensures
            index == self@,
    {
        self.index
    }
}

/// What one composition entry references.
#[derive(Clone, Copy, Debug, PartialEq, Eq, Structural)]
pub enum PaintSceneEntryKind {
    /// A pre-group paint item, by its index in the scene's item sequence.
    Item(usize),
    /// A nested composition group.
    Group(PaintSceneGroupId),
}

/// One already-ordered direct child of the implicit scene root or a paint group.
#[derive(Clone, Copy, Debug, PartialEq, Eq, Structural)]
pub struct PaintSceneEntry {
    kind: PaintSceneEntryKind,
}

impl View for PaintSceneEntry {
    type V = PaintSceneEntryKind;

    closed spec fn view(&self) -> PaintSceneEntryKind {
        self.kind
    }
}

impl PaintSceneEntry {
    /// The entry value that references paint item `item_index`.
    pub closed spec fn item_entry(item_index: usize) -> PaintSceneEntry {
        PaintSceneEntry { kind: PaintSceneEntryKind::Item(item_index) }
    }

    /// The entry value that references group `group`.
    pub closed spec fn group_entry(group: PaintSceneGroupId) -> PaintSceneEntry {
        PaintSceneEntry { kind: PaintSceneEntryKind::Group(group) }
    }

    /// What the entry values reference.
    pub proof fn lemma_entry_views(item_index: usize, group: PaintSceneGroupId)
        ensures
            Self::item_entry(item_index)@ == PaintSceneEntryKind::Item(item_index),
            Self::group_entry(group)@ == PaintSceneEntryKind::Group(group),
    {
    }

    /// Entry referencing paint item `item_index`.
    pub fn item(item_index: usize) -> (entry: PaintSceneEntry)
        ensures
            entry@ == PaintSceneEntryKind::Item(item_index),
            entry == Self::item_entry(item_index),
    {
        PaintSceneEntry { kind: PaintSceneEntryKind::Item(item_index) }
    }

    /// Entry referencing the nested group `group`.
    pub fn group(group: PaintSceneGroupId) -> (entry: PaintSceneEntry)
        ensures
            entry@ == PaintSceneEntryKind::Group(group),
            entry == Self::group_entry(group),
    {
        PaintSceneEntry { kind: PaintSceneEntryKind::Group(group) }
    }

    /// Returns the referenced pre-group paint-item index when this is an item.
    pub fn item_index(self) -> (index: Option<usize>)
        ensures
            match self@ {
                PaintSceneEntryKind::Item(i) => index == Some(i),
                PaintSceneEntryKind::Group(_) => index is None,
            },
    {
        match self.kind {
            PaintSceneEntryKind::Item(index) => Some(index),
            PaintSceneEntryKind::Group(_) => None,
        }
    }

    /// Returns the referenced snapshot-local group when this is a group.
    pub fn group_id(self) -> (group: Option<PaintSceneGroupId>)
        ensures
            match self@ {
                PaintSceneEntryKind::Item(_) => group is None,
                PaintSceneEntryKind::Group(g) => group == Some(g),
            },
    {
        match self.kind {
            PaintSceneEntryKind::Item(_) => None,
            PaintSceneEntryKind::Group(group) => Some(group),
        }
    }
}

/// Abstract content of one paint composition group.
pub ghost struct PaintSceneGroupView {
    /// Enclosing group, or `None` under the implicit root.
    pub parent: Option<PaintSceneGroupId>,
    /// Direct children in composition order.
    pub entries: Seq<PaintSceneEntry>,
    /// The effects the group realises.
    pub source: GroupSource,
}

/// One immutable renderer-neutral atomic paint-composition group.
///
/// Direct entries are in first-member-contraction order. The group's clips, opacity and
/// shadows are those of its `source`.
#[derive(Clone, Debug)]
pub struct PaintSceneGroup {
    parent: Option<PaintSceneGroupId>,
    entries: Vec<PaintSceneEntry>,
    source: GroupSource,
}

impl View for PaintSceneGroup {
    type V = PaintSceneGroupView;

    closed spec fn view(&self) -> PaintSceneGroupView {
        PaintSceneGroupView { parent: self.parent, entries: self.entries@, source: self.source }
    }
}

impl PaintSceneGroup {
    /// Assembles one published group.
    pub fn new(
        parent: Option<PaintSceneGroupId>,
        entries: Vec<PaintSceneEntry>,
        source: GroupSource,
    ) -> (group: PaintSceneGroup)
        ensures
            group@ == (PaintSceneGroupView { parent, entries: entries@, source }),
    {
        PaintSceneGroup { parent, entries, source }
    }

    /// Returns this group's immediate parent, or `None` under the implicit root.
    pub fn parent(&self) -> (parent: Option<PaintSceneGroupId>)
        ensures
            parent == self@.parent,
    {
        self.parent
    }

    /// Returns direct child items and groups in composition order.
    pub fn entries(&self) -> (entries: &[PaintSceneEntry])
        ensures
            entries@ == self@.entries,
    {
        self.entries.as_slice()
    }

    /// Returns the effects this group realises.
    pub fn source(&self) -> (source: GroupSource)
        ensures
            source == self@.source,
    {
        self.source
    }
}

/// Abstract content of a scene's composition forest.
pub ghost struct PaintSceneCompositionView {
    /// Group table indexed by snapshot-local group id.
    pub groups: Seq<PaintSceneGroupView>,
    /// Direct children of the implicit scene root.
    pub root_entries: Seq<PaintSceneEntry>,
}

/// Scene-level aggregate of immutable group storage and contracted root entries.
#[derive(Clone, Debug)]
pub struct PaintSceneComposition {
    groups: Vec<PaintSceneGroup>,
    root_entries: Vec<PaintSceneEntry>,
}

impl View for PaintSceneComposition {
    type V = PaintSceneCompositionView;

    closed spec fn view(&self) -> PaintSceneCompositionView {
        PaintSceneCompositionView {
            groups: self.groups@.map_values(|g: PaintSceneGroup| g@),
            root_entries: self.root_entries@,
        }
    }
}

/// Root entries that list every item, in item order, with no groups.
pub open spec fn ungrouped_entries(item_count: nat) -> Seq<PaintSceneEntry> {
    Seq::new(item_count, |i: int| PaintSceneEntry::item_entry(i as usize))
}

impl PaintSceneComposition {
    /// A composition without groups: every item is a direct root entry, in item order.
    pub fn ungrouped(item_count: usize) -> (composition: PaintSceneComposition)
        ensures
            composition@.groups.len() == 0,
            composition@.root_entries == ungrouped_entries(item_count as nat),
    {
        let mut root_entries: Vec<PaintSceneEntry> = Vec::new();
        for i in 0..item_count
            invariant
                root_entries@ =~= ungrouped_entries(i as nat),
        {
            root_entries.push(PaintSceneEntry::item(i));
        }
        let composition = PaintSceneComposition { groups: Vec::new(), root_entries };
        proof {
            assert(composition@.groups =~= Seq::<PaintSceneGroupView>::empty());
        }
        composition
    }

    /// Assembles a composition from its group table and root entries.
    pub fn new(groups: Vec<PaintSceneGroup>, root_entries: Vec<PaintSceneEntry>) -> (composition:
        PaintSceneComposition)
        ensures
            composition@.groups == groups@.map_values(|g: PaintSceneGroup| g@),
            composition@.root_entries == root_entries@,
    {
        PaintSceneComposition { groups, root_entries }
    }

    /// Returns the group table.
    pub fn groups(&self) -> (groups: &[PaintSceneGroup])
        ensures
            groups@.map_values(|g: PaintSceneGroup| g@) == self@.groups,
    {
        self.groups.as_slice()
    }

    /// Returns the direct children of the implicit scene root.
    pub fn root_entries(&self) -> (entries: &[PaintSceneEntry])
        ensures
            entries@ == self@.root_entries,
    {
        self.root_entries.as_slice()
    }

    /// Returns the group named by `id`, if this composition issued it.
    pub fn group(&self, id: PaintSceneGroupId) -> (group: Option<&PaintSceneGroup>)
        ensures
            id@ < self@.groups.len() ==> (group matches Some(g) && g@ == self@.groups[id@ as int]),
            id@ >= self@.groups.len() ==> group is None,
    {
        let index = id.index();
        if index < self.groups.len() {
            Some(&self.groups[index])
        } else {
            None
        }
    }
}

} // verus!
