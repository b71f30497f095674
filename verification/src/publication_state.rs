//! Runtime-owned surface publication state: the bounded ring of displayed hit-test
//! snapshots, the publication counters, and the redraw revision.

use vstd::prelude::*;

use crate::ids::{MountedNodeId, SurfaceId};
use crate::phases::{SurfacePhase, SurfacePhaseReport};
use crate::scene::PaintRevision;

verus! {

/// A publication counter that can run out.
#[derive(Clone, Copy, Debug, PartialEq, Eq, Structural)]
pub enum SurfacePublicationCounter {
    HitTestGeneration,
    CoordinateRevision,
    PaintRevision,
    SemanticRevision,
    RedrawRevision,
}

/// Why an input context does not name a usable displayed snapshot.
#[derive(Clone, Copy, Debug, PartialEq, Eq, Structural)]
pub enum SurfaceSnapshotError {
    ForeignSurfaceContext,
    ForeignSurface,
    RetiredSurfaceContext,
    MissingSurfaceGeneration,
    CoordinateRevisionMismatch,
    NoTarget,
    TargetNotInSnapshot,
}

/// Why a surface identity does not name this surface.
#[derive(Clone, Copy, Debug, PartialEq, Eq, Structural)]
pub enum SurfaceIdentityError {
    Foreign,
    Wrong,
}

/// Whether a validated snapshot is the latest displayed one or an older retained one.
#[derive(Clone, Copy, Debug, PartialEq, Eq, Structural)]
pub enum SurfaceSnapshotKind {
    Current,
    Retained,
}

/// Input context of one displayed snapshot: the runtime namespace that issued it, the
/// surface, and the snapshot's coordinate revision and hit-test generation.
#[derive(Clone, Copy, Debug, PartialEq, Eq, Structural)]
pub struct SurfaceInputContext {
    pub namespace: u64,
    pub surface: SurfaceId,
    pub coordinate_revision: u64,
    pub hit_test_generation: u64,
}

/// The displayed snapshot that an input context selected.
#[derive(Clone, Copy, Debug, PartialEq, Eq, Structural)]
pub struct SurfaceSnapshotSelection {
    pub snapshot_kind: SurfaceSnapshotKind,
    pub hit_test_generation: u64,
    pub coordinate_revision: u64,
}

impl SurfaceSnapshotSelection {
    /// Selection of the snapshot with the given kind, generation, and revision.
    pub open spec fn spec_new(kind: SurfaceSnapshotKind, generation: u64, revision: u64) -> Self {
        SurfaceSnapshotSelection {
            snapshot_kind: kind,
            hit_test_generation: generation,
            coordinate_revision: revision,
        }
    }

    /// Whether the selected snapshot is current or retained.
    pub fn snapshot_kind(self) -> (kind: SurfaceSnapshotKind)
        ensures
            kind == self.snapshot_kind,
    {
        self.snapshot_kind
    }

    /// Hit-test generation of the selected snapshot.
    pub fn hit_test_generation(self) -> (generation: u64)
        ensures
            generation == self.hit_test_generation,
    {
        self.hit_test_generation
    }

    /// Coordinate revision of the selected snapshot.
    pub fn coordinate_revision(self) -> (revision: u64)
        ensures
            revision == self.coordinate_revision,
    {
        self.coordinate_revision
    }
}

/// A validated snapshot selection and the mounted target it resolved.
#[derive(Clone, Copy, Debug, PartialEq, Eq, Structural)]
pub struct SurfaceTargetResolution {
    pub target: MountedNodeId,
    pub selection: SurfaceSnapshotSelection,
}

impl SurfaceTargetResolution {
    /// Whether the selected snapshot is current or retained.
    pub fn snapshot_kind(&self) -> (kind: SurfaceSnapshotKind)
        ensures
            kind == self.selection.snapshot_kind,
    {
        self.selection.snapshot_kind()
    }

    /// Hit-test generation of the selected snapshot.
    pub fn hit_test_generation(&self) -> (generation: u64)
        ensures
            generation == self.selection.hit_test_generation,
    {
        self.selection.hit_test_generation()
    }

    /// Coordinate revision of the selected snapshot.
    pub fn coordinate_revision(&self) -> (revision: u64)
        ensures
            revision == self.selection.coordinate_revision,
    {
        self.selection.coordinate_revision()
    }

    /// The resolved target.
    pub fn into_target(self) -> (target: MountedNodeId)
        ensures
            target == self.target,
    {
        self.target
    }
}

/// A validated snapshot selection and the physical hit target under a point, if any.
#[derive(Clone, Copy, Debug, PartialEq, Eq, Structural)]
pub struct SurfacePointResolution {
    pub target: Option<MountedNodeId>,
    pub selection: SurfaceSnapshotSelection,
}

impl SurfacePointResolution {
    /// Whether the selected snapshot is current or retained.
    pub fn snapshot_kind(&self) -> (kind: SurfaceSnapshotKind)
        ensures
            kind == self.selection.snapshot_kind,
    {
        self.selection.snapshot_kind()
    }

    /// The hit target, if any.
    pub fn into_target(self) -> (target: Option<MountedNodeId>)
        ensures
            target == self.target,
    {
        self.target
    }

    /// The target under the point, refusing a point over no target.
    pub fn require_target(self) -> (resolution: Result<SurfaceTargetResolution, SurfaceSnapshotError>)
        ensures
            match self.target {
                Some(t) => resolution == Ok::<SurfaceTargetResolution, SurfaceSnapshotError>(
                    SurfaceTargetResolution { target: t, selection: self.selection },
                ),
                None => resolution == Err::<SurfaceTargetResolution, SurfaceSnapshotError>(
                    SurfaceSnapshotError::NoTarget,
                ),
            },
    {
        match self.target {
            Some(target) => Ok(SurfaceTargetResolution { target, selection: self.selection }),
            None => Err(SurfaceSnapshotError::NoTarget),
        }
    }
}

/// Reservation of the hit-test generation and coordinate revision of one publication.
#[derive(Clone, Copy, Debug, PartialEq, Eq, Structural)]
pub struct SurfacePublicationAdmission {
    pub hit_test_generation: u64,
    pub coordinate_revision: u64,
}

impl SurfacePublicationAdmission {
    /// Reserved hit-test generation.
    pub open spec fn spec_hit_test_generation(self) -> u64 {
        self.hit_test_generation
    }

    /// Reserved coordinate revision.
    pub open spec fn spec_coordinate_revision(self) -> u64 {
        self.coordinate_revision
    }

    /// The reserved hit-test generation and coordinate revision.
    pub fn into_parts(self) -> (parts: (u64, u64))
        ensures
            parts == (self.hit_test_generation, self.coordinate_revision),
    {
        (self.hit_test_generation, self.coordinate_revision)
    }
}

/// Reservation of the next redraw revision.
#[derive(Clone, Copy, Debug, PartialEq, Eq, Structural)]
pub struct RedrawRevisionAdmission {
    pub revision: u64,
}

impl RedrawRevisionAdmission {
    /// Reserved redraw revision.
    pub open spec fn spec_revision(self) -> u64 {
        self.revision
    }
}

/// A pending redraw of one runtime, at one redraw revision.
#[derive(Clone, Copy, Debug, PartialEq, Eq, Structural)]
pub struct RedrawRequest {
    pub namespace: u64,
    pub revision: u64,
}

/// Why a redraw acknowledgement was refused.
#[derive(Clone, Copy, Debug, PartialEq, Eq, Structural)]
pub enum RedrawAcknowledgeError {
    ForeignRuntime,
    FutureRevision,
}

/// One displayed hit-test snapshot kept for late input: its generation, its coordinate
/// revision, and the mounted targets its hit-test scene holds.
#[derive(Clone, Debug)]
pub struct RetainedSurfaceSnapshot {
    pub hit_test_generation: u64,
    pub coordinate_revision: u64,
    pub targets: Vec<MountedNodeId>,
}

/// Abstract content of one retained snapshot.
pub ghost struct RetainedSnapshotView {
    pub generation: u64,
    pub revision: u64,
    pub targets: Seq<MountedNodeId>,
}

impl View for RetainedSurfaceSnapshot {
    type V = RetainedSnapshotView;

    open spec fn view(&self) -> RetainedSnapshotView {
        RetainedSnapshotView {
            generation: self.hit_test_generation,
            revision: self.coordinate_revision,
            targets: self.targets@,
        }
    }
}

/// Views of retained snapshots.
pub open spec fn snapshot_views(snapshots: Seq<RetainedSurfaceSnapshot>) -> Seq<RetainedSnapshotView> {
    snapshots.map_values(|s: RetainedSurfaceSnapshot| s@)
}

/// Abstract content of the surface publication state.
pub ghost struct SurfacePublicationStateView {
    pub namespace: u64,
    pub surface: SurfaceId,
    pub limit: nat,
    pub snapshots: Seq<RetainedSnapshotView>,
    pub retired_through: Option<u64>,
    pub current_paint_revision: Option<u64>,
    pub next_paint_revision: Option<u64>,
    pub next_hit_test_generation: Option<u64>,
    pub next_coordinate_revision: Option<u64>,
    pub redraw_revision: u64,
    pub redraw_acknowledged: u64,
    pub phase_report: Seq<SurfacePhase>,
    pub motion_deadline: Option<u64>,
}

/// Runtime-owned publication state of one surface: retained displayed snapshots,
/// publication counters, the current paint revision, and the redraw revision.
pub struct SurfacePublicationState {
    namespace: u64,
    surface_id: SurfaceId,
    retained_snapshot_limit: usize,
    snapshots: Vec<RetainedSurfaceSnapshot>,
    retired_through_generation: Option<u64>,
    current_paint_revision: Option<u64>,
    next_paint_revision: Option<u64>,
    next_hit_test_generation: Option<u64>,
    next_coordinate_revision: Option<u64>,
    redraw_revision: u64,
    redraw_acknowledged: u64,
    phase_report: SurfacePhaseReport,
    motion_deadline: Option<u64>,
}

impl View for SurfacePublicationState {
    type V = SurfacePublicationStateView;

    closed spec fn view(&self) -> SurfacePublicationStateView {
        SurfacePublicationStateView {
            namespace: self.namespace,
            surface: self.surface_id,
            limit: self.retained_snapshot_limit as nat,
            snapshots: snapshot_views(self.snapshots@),
            retired_through: self.retired_through_generation,
            current_paint_revision: self.current_paint_revision,
            next_paint_revision: self.next_paint_revision,
            next_hit_test_generation: self.next_hit_test_generation,
            next_coordinate_revision: self.next_coordinate_revision,
            redraw_revision: self.redraw_revision,
            redraw_acknowledged: self.redraw_acknowledged,
            phase_report: self.phase_report@,
            motion_deadline: self.motion_deadline,
        }
    }
}

/// The state's invariant: a bounded ring of snapshots in strictly increasing generation
/// order, all newer than every retired generation and older than the next one; paint
/// revisions issued below the next one; redraw acknowledgement never ahead of requests.
pub open spec fn state_wf(v: SurfacePublicationStateView) -> bool {
    &&& 0 < v.limit
    &&& v.snapshots.len() <= v.limit
    &&& forall|i: int, j: int|
        0 <= i < j < v.snapshots.len() ==> #[trigger] v.snapshots[i].generation
            < #[trigger] v.snapshots[j].generation
    &&& forall|i: int|
        0 <= i < v.snapshots.len() ==> match v.retired_through {
            Some(r) => r < #[trigger] v.snapshots[i].generation,
            None => true,
        }
    &&& forall|i: int|
        0 <= i < v.snapshots.len() ==> match v.next_hit_test_generation {
            Some(n) => #[trigger] v.snapshots[i].generation < n,
            None => true,
        }
    &&& (match (v.retired_through, v.next_hit_test_generation) {
        (Some(r), Some(n)) => r < n,
        _ => true,
    })
    &&& (match v.next_paint_revision {
        Some(n) => 1 <= n && match v.current_paint_revision {
            Some(c) => c < n,
            None => true,
        },
        None => true,
    })
    &&& (match v.current_paint_revision {
        Some(c) => 1 <= c,
        None => true,
    })
    &&& v.redraw_acknowledged <= v.redraw_revision
}

/// Whether a retained snapshot has hit-test generation `generation`.
pub open spec fn spec_has_generation(snapshots: Seq<RetainedSnapshotView>, generation: u64) -> bool {
    exists|i: int| 0 <= i < snapshots.len() && #[trigger] snapshots[i].generation == generation
}

/// Position of the retained snapshot with hit-test generation `generation`.
pub open spec fn spec_generation_index(snapshots: Seq<RetainedSnapshotView>, generation: u64) -> int {
    choose|i: int| 0 <= i < snapshots.len() && #[trigger] snapshots[i].generation == generation
}

/// The snapshot that `context` selects, or why it selects none.
pub open spec fn spec_validate_context(
    v: SurfacePublicationStateView,
    context: SurfaceInputContext,
) -> Result<SurfaceSnapshotSelection, SurfaceSnapshotError> {
    if context.namespace != v.namespace {
        Err(SurfaceSnapshotError::ForeignSurfaceContext)
    } else if context.surface != v.surface {
        Err(SurfaceSnapshotError::ForeignSurface)
    } else if !spec_has_generation(v.snapshots, context.hit_test_generation) {
        match v.retired_through {
            Some(r) => if context.hit_test_generation <= r {
                Err(SurfaceSnapshotError::RetiredSurfaceContext)
            } else {
                Err(SurfaceSnapshotError::MissingSurfaceGeneration)
            },
            None => Err(SurfaceSnapshotError::MissingSurfaceGeneration),
        }
    } else {
        let i = spec_generation_index(v.snapshots, context.hit_test_generation);
        if v.snapshots[i].revision != context.coordinate_revision {
            Err(SurfaceSnapshotError::CoordinateRevisionMismatch)
        } else {
            Ok(
                SurfaceSnapshotSelection::spec_new(
                    if i == v.snapshots.len() - 1 {
                        SurfaceSnapshotKind::Current
                    } else {
                        SurfaceSnapshotKind::Retained
                    },
                    context.hit_test_generation,
                    context.coordinate_revision,
                ),
            )
        }
    }
}

/// The snapshots after retaining `snapshot` in a ring bounded by `limit`.
pub open spec fn spec_retain(
    snapshots: Seq<RetainedSnapshotView>,
    limit: nat,
    snapshot: RetainedSnapshotView,
) -> Seq<RetainedSnapshotView> {
    if snapshots.len() == limit && snapshots.len() > 0 {
        snapshots.drop_first().push(snapshot)
    } else {
        snapshots.push(snapshot)
    }
}

/// The state after committing one admitted publication.
pub open spec fn spec_commit_publication(
    v: SurfacePublicationStateView,
    admission: SurfacePublicationAdmission,
    targets: Seq<MountedNodeId>,
    allocated_paint_revision: Option<u64>,
    report: Seq<SurfacePhase>,
    motion_deadline: Option<u64>,
) -> SurfacePublicationStateView {
    SurfacePublicationStateView {
        snapshots: spec_retain(
            v.snapshots,
            v.limit,
            RetainedSnapshotView {
                generation: admission.hit_test_generation,
                revision: admission.coordinate_revision,
                targets,
            },
        ),
        retired_through: if v.snapshots.len() == v.limit {
            Some(v.snapshots[0].generation)
        } else {
            v.retired_through
        },
        current_paint_revision: match allocated_paint_revision {
            Some(r) => Some(r),
            None => v.current_paint_revision,
        },
        next_paint_revision: match allocated_paint_revision {
            Some(r) => if r == u64::MAX {
                None
            } else {
                Some((r + 1) as u64)
            },
            None => v.next_paint_revision,
        },
        next_hit_test_generation: if admission.hit_test_generation == u64::MAX {
            None
        } else {
            Some((admission.hit_test_generation + 1) as u64)
        },
        next_coordinate_revision: if admission.coordinate_revision == u64::MAX {
            None
        } else {
            Some((admission.coordinate_revision + 1) as u64)
        },
        phase_report: report,
        motion_deadline,
        ..v
    }
}

/// Whether a requested redraw is not yet acknowledged.
pub open spec fn spec_is_dirty(v: SurfacePublicationStateView) -> bool {
    v.redraw_revision > v.redraw_acknowledged
}

/// The pending redraw request, if any.
pub open spec fn spec_redraw_request(v: SurfacePublicationStateView) -> Option<RedrawRequest> {
    if spec_is_dirty(v) {
        Some(RedrawRequest { namespace: v.namespace, revision: v.redraw_revision })
    } else {
        None
    }
}

/// The issued redraw revision and the state after requesting a redraw.
pub open spec fn spec_request_redraw(v: SurfacePublicationStateView) -> (Option<u64>, SurfacePublicationStateView) {
    if v.redraw_revision == u64::MAX {
        (None, v)
    } else {
        (
            Some((v.redraw_revision + 1) as u64),
            SurfacePublicationStateView { redraw_revision: (v.redraw_revision + 1) as u64, ..v },
        )
    }
}

/// The outcome of acknowledging `request`.
pub open spec fn spec_acknowledge_redraw(
    v: SurfacePublicationStateView,
    request: RedrawRequest,
) -> Result<(), RedrawAcknowledgeError> {
    if request.namespace != v.namespace {
        Err(RedrawAcknowledgeError::ForeignRuntime)
    } else if request.revision > v.redraw_revision {
        Err(RedrawAcknowledgeError::FutureRevision)
    } else {
        Ok(())
    }
}

/// The state after acknowledging `request`.
pub open spec fn spec_acknowledged_state(
    v: SurfacePublicationStateView,
    request: RedrawRequest,
) -> SurfacePublicationStateView {
    if spec_acknowledge_redraw(v, request) is Ok && request.revision > v.redraw_acknowledged {
        SurfacePublicationStateView { redraw_acknowledged: request.revision, ..v }
    } else {
        v
    }
}

impl SurfacePublicationState {
    /// The state's invariant holds.
    pub closed spec fn wf(&self) -> bool {
        &&& state_wf(self@)
        &&& self.retained_snapshot_limit > 0
    }

    /// A well-formed state satisfies the invariant `state_wf` over its view: a bounded
    /// ring of snapshots in generation order, and a redraw acknowledgement never ahead of
    /// the issued redraw revision.
    pub proof fn lemma_wf(&self)
        requires
            self.wf(),
        ensures
            state_wf(self@),
    {
    }

    /// Fresh state of surface `surface` issued by runtime `namespace`, keeping at most
    /// `retained_snapshot_limit` displayed snapshots.
    pub fn new(surface: SurfaceId, retained_snapshot_limit: usize) -> (state: Self)
        requires
            retained_snapshot_limit > 0,
        ensures
            state.wf(),
            state@ == (SurfacePublicationStateView {
                namespace: surface.namespace,
                surface,
                limit: retained_snapshot_limit as nat,
                snapshots: Seq::empty(),
                retired_through: None,
                current_paint_revision: None,
                next_paint_revision: Some(1),
                next_hit_test_generation: Some(1),
                next_coordinate_revision: Some(1),
                redraw_revision: 1,
                redraw_acknowledged: 0,
                phase_report: Seq::empty(),
                motion_deadline: None,
            }),
    {
        let state = SurfacePublicationState {
            namespace: surface.namespace,
            surface_id: surface,
            retained_snapshot_limit,
            snapshots: Vec::new(),
            retired_through_generation: None,
            current_paint_revision: None,
            next_paint_revision: Some(1),
            next_hit_test_generation: Some(1),
            next_coordinate_revision: Some(1),
            redraw_revision: 1,
            redraw_acknowledged: 0,
            phase_report: SurfacePhaseReport::new(),
            motion_deadline: None,
        };
        proof {
            assert(snapshot_views(state.snapshots@) =~= Seq::<RetainedSnapshotView>::empty());
        }
        state
    }

    /// The surface this state publishes.
    pub fn surface_id(&self) -> (surface: &SurfaceId)
        ensures
            *surface == self@.surface,
    {
        &self.surface_id
    }

    /// Reserves the next hit-test generation and coordinate revision, refusing when
    /// either counter ran out.
    pub fn admit_publication(&self) -> (admission: Result<
        SurfacePublicationAdmission,
        SurfacePublicationCounter,
    >)
        ensures
            match (self@.next_hit_test_generation, self@.next_coordinate_revision) {
                (None, _) => admission == Err::<SurfacePublicationAdmission, SurfacePublicationCounter>(
                    SurfacePublicationCounter::HitTestGeneration,
                ),
                (Some(_), None) => admission == Err::<
                    SurfacePublicationAdmission,
                    SurfacePublicationCounter,
                >(SurfacePublicationCounter::CoordinateRevision),
                (Some(g), Some(r)) => admission matches Ok(a) && a.spec_hit_test_generation() == g
                    && a.spec_coordinate_revision() == r,
            },
    {
        let hit_test_generation = match self.next_hit_test_generation {
            Some(g) => g,
            None => {
                return Err(SurfacePublicationCounter::HitTestGeneration);
            },
        };
        let coordinate_revision = match self.next_coordinate_revision {
            Some(r) => r,
            None => {
                return Err(SurfacePublicationCounter::CoordinateRevision);
            },
        };
        Ok(SurfacePublicationAdmission { hit_test_generation, coordinate_revision })
    }

    /// Checks that `surface` was issued by this runtime and names this surface.
    pub fn validate_surface_id(&self, surface: &SurfaceId) -> (result: Result<
        (),
        SurfaceIdentityError,
    >)
        ensures
            result == if surface.namespace != self@.namespace {
                Err::<(), SurfaceIdentityError>(SurfaceIdentityError::Foreign)
            } else if *surface != self@.surface {
                Err(SurfaceIdentityError::Wrong)
            } else {
                Ok(())
            },
    {
        if surface.namespace != self.namespace {
            return Err(SurfaceIdentityError::Foreign);
        }
        if *surface != self.surface_id {
            return Err(SurfaceIdentityError::Wrong);
        }
        Ok(())
    }

    /// Checks only the runtime namespace and the surface of `context`.
    pub fn validate_surface_identity(&self, context: &SurfaceInputContext) -> (result: Result<
        SurfaceId,
        SurfaceSnapshotError,
    >)
        ensures
            result == if context.namespace != self@.namespace {
                Err::<SurfaceId, SurfaceSnapshotError>(SurfaceSnapshotError::ForeignSurfaceContext)
            } else if context.surface != self@.surface {
                Err(SurfaceSnapshotError::ForeignSurface)
            } else {
                Ok(context.surface)
            },
    {
        if context.namespace != self.namespace {
            return Err(SurfaceSnapshotError::ForeignSurfaceContext);
        }
        if context.surface != self.surface_id {
            return Err(SurfaceSnapshotError::ForeignSurface);
        }
        Ok(context.surface)
    }

    fn find_generation(&self, generation: u64) -> (index: Option<usize>)
        requires
            self.wf(),
        ensures
            match index {
                Some(i) => i < self@.snapshots.len() && self@.snapshots[i as int].generation
                    == generation && i == spec_generation_index(self@.snapshots, generation),
                None => !spec_has_generation(self@.snapshots, generation),
            },
    {
        let ghost views = self@.snapshots;
        let mut k: usize = 0;
        while k < self.snapshots.len()
            invariant
                k <= self.snapshots@.len(),
                views == snapshot_views(self.snapshots@),
                views == self@.snapshots,
                state_wf(self@),
                forall|j: int| 0 <= j < k ==> #[trigger] views[j].generation != generation,
            decreases self.snapshots.len() - k,
        {
            if self.snapshots[k].hit_test_generation == generation {
                proof {
                    assert(views[k as int].generation == generation);
                    let c = spec_generation_index(views, generation);
                    assert(0 <= c < views.len() && views[c].generation == generation);
                    if c != k as int {
                        if c < k as int {
                            assert(views[c].generation < views[k as int].generation);
                        } else {
                            assert(views[k as int].generation < views[c].generation);
                        }
                    }
                }
                return Some(k);
            }
            proof {
                assert(views[k as int].generation != generation);
            }
            k = k + 1;
        }
        None
    }

    /// Selects the displayed snapshot that `context` names, or says why none is usable:
    /// a foreign runtime or surface, a generation already retired, an unknown generation,
    /// or a coordinate revision other than the snapshot's.
    pub fn validate_context(&self, context: &SurfaceInputContext) -> (result: Result<
        SurfaceSnapshotSelection,
        SurfaceSnapshotError,
    >)
        requires
            self.wf(),
        ensures
            result == spec_validate_context(self@, *context),
    {
        if context.namespace != self.namespace {
            return Err(SurfaceSnapshotError::ForeignSurfaceContext);
        }
        if context.surface != self.surface_id {
            return Err(SurfaceSnapshotError::ForeignSurface);
        }
        let index = match self.find_generation(context.hit_test_generation) {
            Some(i) => i,
            None => {
                let retired = match self.retired_through_generation {
                    Some(r) => context.hit_test_generation <= r,
                    None => false,
                };
                return Err(
                    if retired {
                        SurfaceSnapshotError::RetiredSurfaceContext
                    } else {
                        SurfaceSnapshotError::MissingSurfaceGeneration
                    },
                );
            },
        };
        if self.snapshots[index].coordinate_revision != context.coordinate_revision {
            return Err(SurfaceSnapshotError::CoordinateRevisionMismatch);
        }
        let kind = if index == self.snapshots.len() - 1 {
            SurfaceSnapshotKind::Current
        } else {
            SurfaceSnapshotKind::Retained
        };
        Ok(
            SurfaceSnapshotSelection {
                snapshot_kind: kind,
                hit_test_generation: context.hit_test_generation,
                coordinate_revision: context.coordinate_revision,
            },
        )
    }

    /// Validates `context` and pairs its selection with the physical hit target that the
    /// selected snapshot's geometry found under the point, if any.
    pub fn resolve_pointer_point(&self, context: &SurfaceInputContext, hit: Option<MountedNodeId>) -> (result:
        Result<SurfacePointResolution, SurfaceSnapshotError>)
        requires
            self.wf(),
        ensures
            match spec_validate_context(self@, *context) {
                Ok(selection) => result == Ok::<SurfacePointResolution, SurfaceSnapshotError>(
                    SurfacePointResolution { target: hit, selection },
                ),
                Err(e) => result == Err::<SurfacePointResolution, SurfaceSnapshotError>(e),
            },
    {
        let selection = match self.validate_context(context) {
            Ok(selection) => selection,
            Err(e) => {
                return Err(e);
            },
        };
        Ok(SurfacePointResolution { target: hit, selection })
    }

    /// Validates `context` and requires a hit target under the point.
    pub fn resolve_point(&self, context: &SurfaceInputContext, hit: Option<MountedNodeId>) -> (result:
        Result<SurfaceTargetResolution, SurfaceSnapshotError>)
        requires
            self.wf(),
        ensures
            match spec_validate_context(self@, *context) {
                Ok(selection) => match hit {
                    Some(t) => result == Ok::<SurfaceTargetResolution, SurfaceSnapshotError>(
                        SurfaceTargetResolution { target: t, selection },
                    ),
                    None => result == Err::<SurfaceTargetResolution, SurfaceSnapshotError>(
                        SurfaceSnapshotError::NoTarget,
                    ),
                },
                Err(e) => result == Err::<SurfaceTargetResolution, SurfaceSnapshotError>(e),
            },
    {
        match self.resolve_pointer_point(context, hit) {
            Ok(resolution) => resolution.require_target(),
            Err(e) => Err(e),
        }
    }

    /// Validates `context` and checks that its snapshot holds `target`.
    pub fn validate_resolved_target(&self, context: &SurfaceInputContext, target: &MountedNodeId) -> (result:
        Result<SurfaceSnapshotSelection, SurfaceSnapshotError>)
        requires
            self.wf(),
        ensures
            match spec_validate_context(self@, *context) {
                Ok(selection) => if self@.snapshots[spec_generation_index(
                    self@.snapshots,
                    context.hit_test_generation,
                )].targets.contains(*target) {
                    result == Ok::<SurfaceSnapshotSelection, SurfaceSnapshotError>(selection)
                } else {
                    result == Err::<SurfaceSnapshotSelection, SurfaceSnapshotError>(
                        SurfaceSnapshotError::TargetNotInSnapshot,
                    )
                },
                Err(e) => result == Err::<SurfaceSnapshotSelection, SurfaceSnapshotError>(e),
            },
    {
        let selection = match self.validate_context(context) {
            Ok(selection) => selection,
            Err(e) => {
                return Err(e);
            },
        };
        let index = match self.find_generation(context.hit_test_generation) {
            Some(i) => i,
            None => {
                return Err(SurfaceSnapshotError::MissingSurfaceGeneration);
            },
        };
        let targets = &self.snapshots[index].targets;
        assert(targets@ == self@.snapshots[index as int].targets);
        let mut k: usize = 0;
        while k < targets.len()
            invariant
                k <= targets@.len(),
                targets@ == self@.snapshots[index as int].targets,
                index as int == spec_generation_index(self@.snapshots, context.hit_test_generation),
                spec_validate_context(self@, *context) == Ok::<
                    SurfaceSnapshotSelection,
                    SurfaceSnapshotError,
                >(selection),
                forall|j: int| 0 <= j < k ==> targets@[j] != *target,
            decreases targets.len() - k,
        {
            if targets[k] == *target {
                return Ok(selection);
            }
            k = k + 1;
        }
        Err(SurfaceSnapshotError::TargetNotInSnapshot)
    }

    /// Input context of the latest displayed snapshot, if any.
    pub fn current_surface_input_context(&self) -> (context: Option<SurfaceInputContext>)
        ensures
            match context {
                Some(c) => self@.snapshots.len() > 0 && c == (SurfaceInputContext {
                    namespace: self@.namespace,
                    surface: self@.surface,
                    coordinate_revision: self@.snapshots.last().revision,
                    hit_test_generation: self@.snapshots.last().generation,
                }),
                None => self@.snapshots.len() == 0,
            },
    {
        let n = self.snapshots.len();
        if n == 0 {
            return None;
        }
        let last = &self.snapshots[n - 1];
        Some(
            SurfaceInputContext {
                namespace: self.namespace,
                surface: self.surface_id,
                coordinate_revision: last.coordinate_revision,
                hit_test_generation: last.hit_test_generation,
            },
        )
    }


    /// Stages the paint revision of a candidate. A candidate whose paint differs from
    /// the current paint publication, or the first one, takes the next paint revision
    /// with the current revision as its base; an unchanged one takes none.
    pub fn stage_paint_revision(&self, paint_differs: bool) -> (staged: Result<
        Option<(PaintRevision, Option<PaintRevision>)>,
        SurfacePublicationCounter,
    >)
        requires
            self.wf(),
        ensures
            if self@.current_paint_revision is Some && !paint_differs {
                staged == Ok::<
                    Option<(PaintRevision, Option<PaintRevision>)>,
                    SurfacePublicationCounter,
                >(None)
            } else {
                match self@.next_paint_revision {
                    None => staged == Err::<
                        Option<(PaintRevision, Option<PaintRevision>)>,
                        SurfacePublicationCounter,
                    >(SurfacePublicationCounter::PaintRevision),
                    Some(n) => staged matches Ok(Some((revision, base))) && revision@ == n && match
                        self@.current_paint_revision {
                        Some(c) => base matches Some(b) && b@ == c,
                        None => base is None,
                    },
                }
            },
    {
        let changed = match self.current_paint_revision {
            None => true,
            Some(_) => paint_differs,
        };
        if !changed {
            return Ok(None);
        }
        let value = match self.next_paint_revision {
            Some(value) => value,
            None => {
                return Err(SurfacePublicationCounter::PaintRevision);
            },
        };
        let revision = match PaintRevision::new(value) {
            Some(revision) => revision,
            None => {
                return Err(SurfacePublicationCounter::PaintRevision);
            },
        };
        let base = match self.current_paint_revision {
            Some(current) => PaintRevision::new(current),
            None => None,
        };
        Ok(Some((revision, base)))
    }

    /// Commits one admitted publication: the allocated paint revision becomes current and
    /// the paint counter advances past it; the phase report and motion deadline are
    /// replaced; the admitted counters advance; and the new displayed snapshot is
    /// retained, retiring the oldest one when the ring is full.
    pub fn commit_publication(
        &mut self,
        admission: SurfacePublicationAdmission,
        targets: Vec<MountedNodeId>,
        allocated_paint_revision: Option<u64>,
        report: SurfacePhaseReport,
        motion_deadline: Option<u64>,
    )
        requires
            old(self).wf(),
            old(self)@.next_hit_test_generation == Some(admission.hit_test_generation),
            old(self)@.next_coordinate_revision == Some(admission.coordinate_revision),
            match allocated_paint_revision {
                Some(r) => old(self)@.next_paint_revision == Some(r),
                None => true,
            },
        ensures
            final(self).wf(),
            final(self)@ == spec_commit_publication(
                old(self)@,
                admission,
                targets@,
                allocated_paint_revision,
                report@,
                motion_deadline,
            ),
    {
        if let Some(revision) = allocated_paint_revision {
            self.next_paint_revision = revision.checked_add(1);
            self.current_paint_revision = Some(revision);
        }
        self.phase_report = report;
        self.motion_deadline = motion_deadline;
        self.retain_new_snapshot(admission, targets);
    }

    /// Retains the snapshot of an admitted publication in the bounded ring: the new snapshot
    /// comes last; while the ring has room every older snapshot stays, and when it is full
    /// the oldest is dropped and its generation retired; the hit-test generation and
    /// coordinate revision counters move one past the admitted ones.
    pub fn retain_new_snapshot(&mut self, admission: SurfacePublicationAdmission, targets: Vec<MountedNodeId>)
        requires
            old(self).wf(),
            old(self)@.next_hit_test_generation == Some(admission.hit_test_generation),
            old(self)@.next_coordinate_revision == Some(admission.coordinate_revision),
        ensures
            final(self).wf(),
            final(self)@.snapshots.last() == (RetainedSnapshotView {
                generation: admission.hit_test_generation,
                revision: admission.coordinate_revision,
                targets: targets@,
            }),
            final(self)@.snapshots.len() == if old(self)@.snapshots.len() < old(self)@.limit {
                old(self)@.snapshots.len() + 1
            } else {
                old(self)@.limit + 0
            },
            old(self)@.snapshots.len() < old(self)@.limit ==> final(self)@.snapshots.drop_last()
                == old(self)@.snapshots && final(self)@.retired_through == old(self)@.retired_through,
            old(self)@.snapshots.len() == old(self)@.limit ==> final(self)@.snapshots.drop_last()
                == old(self)@.snapshots.drop_first() && final(self)@.retired_through == Some(
                old(self)@.snapshots[0].generation,
            ),
            final(self)@.next_hit_test_generation == admission.hit_test_generation.checked_add(1),
            final(self)@.next_coordinate_revision == admission.coordinate_revision.checked_add(1),
            final(self)@ == (SurfacePublicationStateView {
                snapshots: spec_retain(
                    old(self)@.snapshots,
                    old(self)@.limit,
                    RetainedSnapshotView {
                        generation: admission.hit_test_generation,
                        revision: admission.coordinate_revision,
                        targets: targets@,
                    },
                ),
                retired_through: if old(self)@.snapshots.len() == old(self)@.limit {
                    Some(old(self)@.snapshots[0].generation)
                } else {
                    old(self)@.retired_through
                },
                next_hit_test_generation: admission.hit_test_generation.checked_add(1),
                next_coordinate_revision: admission.coordinate_revision.checked_add(1),
                ..old(self)@
            }),
    {
        let ghost before = self@;
        let generation = admission.hit_test_generation;
        self.next_hit_test_generation = generation.checked_add(1);
        self.next_coordinate_revision = admission.coordinate_revision.checked_add(1);
        if self.snapshots.len() == self.retained_snapshot_limit {
            let retired = self.snapshots.remove(0);
            self.retired_through_generation = Some(retired.hit_test_generation);
        }
        let snapshot = RetainedSurfaceSnapshot {
            hit_test_generation: generation,
            coordinate_revision: admission.coordinate_revision,
            targets,
        };
        self.snapshots.push(snapshot);
        proof {
            let entry = RetainedSnapshotView {
                generation,
                revision: admission.coordinate_revision,
                targets: snapshot@.targets,
            };
            assert(self@.snapshots =~= spec_retain(before.snapshots, before.limit, entry));
            if before.snapshots.len() == before.limit {
                assert(self@.snapshots.drop_last() =~= before.snapshots.drop_first());
            } else {
                assert(self@.snapshots.drop_last() =~= before.snapshots);
            }
        }
    }

    /// Drops the retained surface cache: every displayed snapshot retires.
    pub fn clear_cache(&mut self)
        requires
            old(self).wf(),
        ensures
            final(self).wf(),
            final(self)@ == (SurfacePublicationStateView {
                snapshots: Seq::empty(),
                retired_through: if old(self)@.snapshots.len() > 0 {
                    Some(old(self)@.snapshots.last().generation)
                } else {
                    old(self)@.retired_through
                },
                ..old(self)@
            }),
    {
        let n = self.snapshots.len();
        if n > 0 {
            self.retired_through_generation = Some(self.snapshots[n - 1].hit_test_generation);
        }
        self.snapshots = Vec::new();
        proof {
            assert(snapshot_views(self.snapshots@) =~= Seq::<RetainedSnapshotView>::empty());
        }
    }

    /// Records that the last attempt only validated focus.
    pub fn note_focus_validation(&mut self)
        requires
            old(self).wf(),
        ensures
            final(self).wf(),
            final(self)@ == (SurfacePublicationStateView {
                phase_report: seq![SurfacePhase::FocusValidation],
                ..old(self)@
            }),
    {
        self.phase_report = SurfacePhaseReport::one(SurfacePhase::FocusValidation);
    }

    /// Phases executed by the last attempt.
    pub fn phase_report(&self) -> (report: &SurfacePhaseReport)
        ensures
            report@ == self@.phase_report,
    {
        &self.phase_report
    }

    /// Deadline of the next motion sample, if motion is live.
    pub fn motion_deadline(&self) -> (deadline: Option<u64>)
        ensures
            deadline == self@.motion_deadline,
    {
        self.motion_deadline
    }

    /// Whether live motion is due at `now`.
    pub fn motion_deadline_is_due(&self, now: u64) -> (due: bool)
        ensures
            due == match self@.motion_deadline {
                Some(deadline) => now >= deadline,
                None => false,
            },
    {
        match self.motion_deadline {
            Some(deadline) => now >= deadline,
            None => false,
        }
    }

    /// Forgets the motion deadline after motion was retired or cleared.
    pub fn clear_motion_deadline(&mut self)
        requires
            old(self).wf(),
        ensures
            final(self).wf(),
            final(self)@ == (SurfacePublicationStateView { motion_deadline: None, ..old(self)@ }),
    {
        self.motion_deadline = None;
    }

    /// Reserves the next redraw revision, refusing when it would overflow.
    pub fn admit_redraw_request(&self) -> (admission: Result<
        RedrawRevisionAdmission,
        SurfacePublicationCounter,
    >)
        ensures
            if self@.redraw_revision == u64::MAX {
                admission == Err::<RedrawRevisionAdmission, SurfacePublicationCounter>(
                    SurfacePublicationCounter::RedrawRevision,
                )
            } else {
                admission == Ok::<RedrawRevisionAdmission, SurfacePublicationCounter>(
                    RedrawRevisionAdmission { revision: (self@.redraw_revision + 1) as u64 },
                )
            },
    {
        match self.redraw_revision.checked_add(1) {
            Some(revision) => Ok(RedrawRevisionAdmission { revision }),
            None => Err(SurfacePublicationCounter::RedrawRevision),
        }
    }

    /// Commits a reserved redraw revision and returns it.
    pub fn commit_redraw_request(&mut self, admission: RedrawRevisionAdmission) -> (revision: u64)
        requires
            old(self).wf(),
            admission.revision == old(self)@.redraw_revision + 1,
        ensures
            final(self).wf(),
            revision == admission.revision,
            final(self)@ == (SurfacePublicationStateView { redraw_revision: revision, ..old(self)@ }),
    {
        self.redraw_revision = admission.revision;
        admission.revision
    }

    /// Requests a redraw at the next redraw revision, if one can be issued.
    pub fn request_redraw(&mut self) -> (revision: Option<u64>)
        requires
            old(self).wf(),
        ensures
            final(self).wf(),
            (revision, final(self)@) == spec_request_redraw(old(self)@),
    {
        let admission = match self.admit_redraw_request() {
            Ok(admission) => admission,
            Err(_) => {
                return None;
            },
        };
        Some(self.commit_redraw_request(admission))
    }

    /// The pending redraw, when a requested revision is not yet acknowledged.
    pub fn take_redraw_request(&self) -> (request: Option<RedrawRequest>)
        ensures
            request == spec_redraw_request(self@),
    {
        if self.redraw_revision > self.redraw_acknowledged {
            Some(RedrawRequest { namespace: self.namespace, revision: self.redraw_revision })
        } else {
            None
        }
    }

    /// Acknowledges a presented redraw of this runtime, never moving the acknowledgement
    /// backwards; refuses a request of another runtime or one from the future.
    pub fn acknowledge_redraw(&mut self, request: &RedrawRequest) -> (result: Result<
        (),
        RedrawAcknowledgeError,
    >)
        requires
            old(self).wf(),
        ensures
            final(self).wf(),
            result == spec_acknowledge_redraw(old(self)@, *request),
            final(self)@ == spec_acknowledged_state(old(self)@, *request),
            old(self)@.redraw_acknowledged <= final(self)@.redraw_acknowledged,
            final(self)@.redraw_acknowledged <= final(self)@.redraw_revision,
    {
        if request.namespace != self.namespace {
            return Err(RedrawAcknowledgeError::ForeignRuntime);
        }
        if request.revision > self.redraw_revision {
            return Err(RedrawAcknowledgeError::FutureRevision);
        }
        if request.revision > self.redraw_acknowledged {
            self.redraw_acknowledged = request.revision;
        }
        Ok(())
    }

    /// Whether a requested redraw is not yet acknowledged.
    pub fn is_dirty(&self) -> (dirty: bool)
        ensures
            dirty == spec_is_dirty(self@),
    {
        self.redraw_revision > self.redraw_acknowledged
    }

}

/// A granted redraw request leaves the state dirty and pending at the new revision;
/// acknowledging the pending request of a dirty state succeeds and leaves it clean.
pub proof fn lemma_redraw_round_trip(v: SurfacePublicationStateView)
    requires
        state_wf(v),
    ensures
        ({
            let (issued, requested) = spec_request_redraw(v);
            issued matches Some(r) ==> spec_is_dirty(requested) && spec_redraw_request(requested)
                == Some(RedrawRequest { namespace: v.namespace, revision: r })
        }),
        spec_redraw_request(v) matches Some(request) ==> spec_acknowledge_redraw(v, request) is Ok
            && !spec_is_dirty(spec_acknowledged_state(v, request)),
        forall|request: RedrawRequest|
            state_wf(#[trigger] spec_acknowledged_state(v, request)),
{
}

/// Committing a publication keeps the state's invariant; the new snapshot's context is
/// then current; the snapshot it displaced stays valid as retained unless it retired;
/// a retired generation is reported as retired; and at most `limit` snapshots remain.
pub proof fn lemma_commit_selects_new_snapshot(
    v: SurfacePublicationStateView,
    admission: SurfacePublicationAdmission,
    targets: Seq<MountedNodeId>,
    allocated_paint_revision: Option<u64>,
    report: Seq<SurfacePhase>,
    motion_deadline: Option<u64>,
)
    requires
        state_wf(v),
        v.next_hit_test_generation == Some(admission.hit_test_generation),
        v.next_coordinate_revision == Some(admission.coordinate_revision),
        match allocated_paint_revision {
            Some(r) => v.next_paint_revision == Some(r),
            None => true,
        },
    ensures
        ({
            let next = spec_commit_publication(
                v,
                admission,
                targets,
                allocated_paint_revision,
                report,
                motion_deadline,
            );
            let context = SurfaceInputContext {
                namespace: v.namespace,
                surface: v.surface,
                coordinate_revision: admission.coordinate_revision,
                hit_test_generation: admission.hit_test_generation,
            };
            &&& state_wf(next)
            &&& spec_validate_context(next, context) == Ok::<
                SurfaceSnapshotSelection,
                SurfaceSnapshotError,
            >(
                SurfaceSnapshotSelection::spec_new(
                    SurfaceSnapshotKind::Current,
                    admission.hit_test_generation,
                    admission.coordinate_revision,
                ),
            )
            &&& (v.snapshots.len() > 0 && v.snapshots.len() < v.limit) ==> spec_validate_context(
                next,
                SurfaceInputContext {
                    namespace: v.namespace,
                    surface: v.surface,
                    coordinate_revision: v.snapshots.last().revision,
                    hit_test_generation: v.snapshots.last().generation,
                },
            ) == Ok::<SurfaceSnapshotSelection, SurfaceSnapshotError>(
                SurfaceSnapshotSelection::spec_new(
                    SurfaceSnapshotKind::Retained,
                    v.snapshots.last().generation,
                    v.snapshots.last().revision,
                ),
            )
            &&& forall|c: SurfaceInputContext|
                c.namespace == v.namespace && c.surface == v.surface && (next.retired_through matches Some(
                    r,
                ) && c.hit_test_generation <= r) ==> #[trigger] spec_validate_context(next, c)
                    == Err::<SurfaceSnapshotSelection, SurfaceSnapshotError>(
                    SurfaceSnapshotError::RetiredSurfaceContext,
                )
        }),
{
    let next = spec_commit_publication(
        v,
        admission,
        targets,
        allocated_paint_revision,
        report,
        motion_deadline,
    );
    let g = admission.hit_test_generation;
    let n = next.snapshots.len();
    assert(next.snapshots[n - 1].generation == g);
    assert(spec_has_generation(next.snapshots, g));
    let c = spec_generation_index(next.snapshots, g);
    if c != n - 1 {
        assert(next.snapshots[c].generation < next.snapshots[n - 1].generation);
    }
    if v.snapshots.len() > 0 && v.snapshots.len() < v.limit {
        let m = v.snapshots.len() - 1;
        let last = v.snapshots[m];
        assert(next.snapshots[m] == last);
        assert(spec_has_generation(next.snapshots, last.generation));
        let d = spec_generation_index(next.snapshots, last.generation);
        if d != m {
            if d < m {
                assert(next.snapshots[d].generation < next.snapshots[m].generation);
            } else {
                assert(next.snapshots[m].generation < next.snapshots[d].generation);
            }
        }
    }
    assert forall|ctx: SurfaceInputContext|
        ctx.namespace == v.namespace && ctx.surface == v.surface && (next.retired_through matches Some(
            r,
        ) && ctx.hit_test_generation <= r) implies #[trigger] spec_validate_context(next, ctx)
        == Err::<SurfaceSnapshotSelection, SurfaceSnapshotError>(
        SurfaceSnapshotError::RetiredSurfaceContext,
    ) by {
        if spec_has_generation(next.snapshots, ctx.hit_test_generation) {
            let i = choose|i: int|
                0 <= i < next.snapshots.len() && #[trigger] next.snapshots[i].generation
                    == ctx.hit_test_generation;
            assert(next.retired_through->0 < next.snapshots[i].generation);
        }
    }
}

/// Retention is a ring of at most `limit` snapshots: a commit appends the new snapshot last;
/// while the ring has room it keeps every older snapshot, and when it is full it drops the
/// oldest and reports that one's generation as retired; the hit-test generation and
/// coordinate revision counters move one past the committed ones.
pub proof fn lemma_commit_retains_a_bounded_ring(
    v: SurfacePublicationStateView,
    admission: SurfacePublicationAdmission,
    targets: Seq<MountedNodeId>,
    allocated_paint_revision: Option<u64>,
    report: Seq<SurfacePhase>,
    motion_deadline: Option<u64>,
)
    requires
        state_wf(v),
        v.next_hit_test_generation == Some(admission.hit_test_generation),
        v.next_coordinate_revision == Some(admission.coordinate_revision),
    ensures
        ({
            let next = spec_commit_publication(
                v,
                admission,
                targets,
                allocated_paint_revision,
                report,
                motion_deadline,
            );
            let snapshot = RetainedSnapshotView {
                generation: admission.hit_test_generation,
                revision: admission.coordinate_revision,
                targets,
            };
            &&& next.snapshots.last() == snapshot
            &&& next.snapshots.len() == if v.snapshots.len() < v.limit {
                v.snapshots.len() + 1
            } else {
                v.limit + 0
            }
            &&& next.snapshots.len() <= v.limit
            &&& v.snapshots.len() < v.limit ==> next.snapshots.drop_last() == v.snapshots
                && next.retired_through == v.retired_through
            &&& v.snapshots.len() == v.limit ==> next.snapshots.drop_last() == v.snapshots.drop_first()
                && next.retired_through == Some(v.snapshots[0].generation)
            &&& next.next_hit_test_generation == admission.hit_test_generation.checked_add(1)
            &&& next.next_coordinate_revision == admission.coordinate_revision.checked_add(1)
        }),
{
    let next = spec_commit_publication(
        v,
        admission,
        targets,
        allocated_paint_revision,
        report,
        motion_deadline,
    );
    if v.snapshots.len() == v.limit {
        assert(next.snapshots.drop_last() =~= v.snapshots.drop_first());
    } else {
        assert(next.snapshots.drop_last() =~= v.snapshots);
    }
}

} // verus!

