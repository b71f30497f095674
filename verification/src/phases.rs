//! Surface phases: the dirty-phase set of a mounted tree, the report of executed
//! phases, and the decisions that pick the phases of one publication attempt.

use vstd::prelude::*;


verus! {

/// One phase of surface publication, as reported to callers.
#[non_exhaustive]
#[derive(Clone, Copy, Debug, PartialEq, Eq, Structural)]
pub enum SurfacePhase {
    Tree,
    Style,
    Layout,
    HitTesting,
    Paint,
    Semantics,
    Diagnostics,
    FocusValidation,
}

/// Phases executed by one publication attempt, in first-execution order, each once.
#[derive(Debug)]
pub struct SurfacePhaseReport {
    executed: Vec<SurfacePhase>,
}

impl View for SurfacePhaseReport {
    type V = Seq<SurfacePhase>;

    closed spec fn view(&self) -> Seq<SurfacePhase> {
        self.executed@
    }
}

impl SurfacePhaseReport {
    #[verifier::type_invariant]
    spec fn once_each(self) -> bool {
        self.executed@.no_duplicates()
    }

    /// Report with no executed phase.
    pub fn new() -> (report: SurfacePhaseReport)
        ensures
            report@ == Seq::<SurfacePhase>::empty(),
    {
        SurfacePhaseReport { executed: Vec::new() }
    }

    /// Executed phases in first-execution order.
    pub fn executed(&self) -> (executed: &[SurfacePhase])
        ensures
            executed@ == self@,
            executed@.no_duplicates(),
    {
        proof {
            use_type_invariant(self);
        }
        self.executed.as_slice()
    }

    /// Whether `phase` was executed.
    pub fn contains(&self, phase: SurfacePhase) -> (executed: bool)
        ensures
            executed == self@.contains(phase),
    {
        let mut k: usize = 0;
        while k < self.executed.len()
            invariant
                k <= self.executed@.len(),
                forall|j: int| 0 <= j < k ==> self.executed@[j] != phase,
            decreases self.executed.len() - k,
        {
            if self.executed[k] == phase {
                return true;
            }
            k = k + 1;
        }
        false
    }

    /// Report of exactly one executed phase.
    pub fn one(phase: SurfacePhase) -> (report: SurfacePhaseReport)
        ensures
            report@ == seq![phase],
    {
        let mut executed = Vec::new();
        executed.push(phase);
        SurfacePhaseReport { executed }
    }

    /// Records `phase` after the phases already executed, unless it was executed before.
    pub fn record(&mut self, phase: SurfacePhase)
        ensures
            final(self)@ == if old(self)@.contains(phase) {
                old(self)@
            } else {
                old(self)@.push(phase)
            },
    {
        proof {
            use_type_invariant(&*self);
        }
        if !self.contains(phase) {
            let mut executed = self.executed.clone();
            proof {
                assert(executed@ =~= self.executed@);
            }
            executed.push(phase);
            proof {
                assert forall|i: int, j: int|
                    0 <= i < j < executed@.len() implies executed@[i] != executed@[j] by {
                    if j == executed@.len() - 1 {
                        assert(old(self)@[i] == executed@[i]);
                    }
                }
            }
            *self = SurfacePhaseReport { executed };
        }
    }
}

impl Clone for SurfacePhaseReport {
    fn clone(&self) -> (copy: SurfacePhaseReport)
        ensures
            copy@ == self@,
    {
        proof {
            use_type_invariant(self);
        }
        let executed = self.executed.clone();
        proof {
            assert(executed@ =~= self.executed@);
        }
        SurfacePhaseReport { executed }
    }
}

impl Default for SurfacePhaseReport {
    fn default() -> (report: SurfacePhaseReport)
        ensures
            report@ == Seq::<SurfacePhase>::empty(),
    {
        SurfacePhaseReport::new()
    }
}

/// One kind of pending work of a mounted tree.
#[derive(Clone, Copy, Debug, PartialEq, Eq, Structural)]
pub enum DirtyPhase {
    Tree,
    Style,
    Layout,
    HitTest,
    Paint,
    Semantics,
    Diagnostics,
    FocusValidation,
    Motion,
}

/// A set of pending or completed kinds of work.
#[derive(Clone, Copy, Debug, PartialEq, Eq, Structural)]
pub struct DirtyPhases {
    tree: bool,
    style: bool,
    layout: bool,
    hit_test: bool,
    paint: bool,
    semantics: bool,
    diagnostics: bool,
    focus_validation: bool,
    motion: bool,
}

/// Whether `phases` holds `phase`.
pub open spec fn spec_has(phases: Set<DirtyPhase>, phase: DirtyPhase) -> bool {
    phases.contains(phase)
}

impl DirtyPhases {
    /// Whether this set holds `phase`.
    pub closed spec fn spec_contains(self, phase: DirtyPhase) -> bool {
        match phase {
            DirtyPhase::Tree => self.tree,
            DirtyPhase::Style => self.style,
            DirtyPhase::Layout => self.layout,
            DirtyPhase::HitTest => self.hit_test,
            DirtyPhase::Paint => self.paint,
            DirtyPhase::Semantics => self.semantics,
            DirtyPhase::Diagnostics => self.diagnostics,
            DirtyPhase::FocusValidation => self.focus_validation,
            DirtyPhase::Motion => self.motion,
        }
    }
}

impl View for DirtyPhases {
    type V = Set<DirtyPhase>;

    open spec fn view(&self) -> Set<DirtyPhase> {
        Set::new(|phase: DirtyPhase| self.spec_contains(phase))
    }
}

impl DirtyPhases {
    /// The empty set.
    pub fn none() -> (phases: DirtyPhases)
        ensures
            phases@ == Set::<DirtyPhase>::empty(),
    {
        let phases = DirtyPhases {
            tree: false,
            style: false,
            layout: false,
            hit_test: false,
            paint: false,
            semantics: false,
            diagnostics: false,
            focus_validation: false,
            motion: false,
        };
        assert(phases@ =~= Set::<DirtyPhase>::empty());
        phases
    }

    /// The set of every kind of work.
    pub fn all() -> (phases: DirtyPhases)
        ensures
            phases@ == Set::<DirtyPhase>::full(),
    {
        let phases = DirtyPhases {
            tree: true,
            style: true,
            layout: true,
            hit_test: true,
            paint: true,
            semantics: true,
            diagnostics: true,
            focus_validation: true,
            motion: true,
        };
        assert forall|p: DirtyPhase| phases@.contains(p) by {
            match p {
                DirtyPhase::Tree => {},
                DirtyPhase::Style => {},
                DirtyPhase::Layout => {},
                DirtyPhase::HitTest => {},
                DirtyPhase::Paint => {},
                DirtyPhase::Semantics => {},
                DirtyPhase::Diagnostics => {},
                DirtyPhase::FocusValidation => {},
                DirtyPhase::Motion => {},
            }
        }
        assert(phases@ =~= Set::<DirtyPhase>::full());
        phases
    }

    /// Whether `phase` is in the set.
    pub fn contains(&self, phase: DirtyPhase) -> (present: bool)
        ensures
            present == self@.contains(phase),
    {
        match phase {
            DirtyPhase::Tree => self.tree,
            DirtyPhase::Style => self.style,
            DirtyPhase::Layout => self.layout,
            DirtyPhase::HitTest => self.hit_test,
            DirtyPhase::Paint => self.paint,
            DirtyPhase::Semantics => self.semantics,
            DirtyPhase::Diagnostics => self.diagnostics,
            DirtyPhase::FocusValidation => self.focus_validation,
            DirtyPhase::Motion => self.motion,
        }
    }

    /// Adds `phase` to the set.
    pub fn insert(&mut self, phase: DirtyPhase)
        ensures
            final(self)@ == old(self)@.insert(phase),
    {
        match phase {
            DirtyPhase::Tree => self.tree = true,
            DirtyPhase::Style => self.style = true,
            DirtyPhase::Layout => self.layout = true,
            DirtyPhase::HitTest => self.hit_test = true,
            DirtyPhase::Paint => self.paint = true,
            DirtyPhase::Semantics => self.semantics = true,
            DirtyPhase::Diagnostics => self.diagnostics = true,
            DirtyPhase::FocusValidation => self.focus_validation = true,
            DirtyPhase::Motion => self.motion = true,
        }
        assert(self@ =~= old(self)@.insert(phase));
    }
}

impl Default for DirtyPhases {
    fn default() -> (phases: DirtyPhases)
        ensures
            phases@ == Set::<DirtyPhase>::empty(),
    {
        DirtyPhases::none()
    }
}

/// The phases of every entry whose flag is set.
pub open spec fn spec_flagged_phases(entries: Seq<(bool, DirtyPhase)>) -> Set<DirtyPhase> {
    Set::new(|phase: DirtyPhase| exists|i: int| 0 <= i < entries.len() && entries[i].0 && entries[i].1 == phase)
}

/// Collects the phases whose dirtiness flag is set.
pub fn surface_capability_phases(entries: [(bool, DirtyPhase); 4]) -> (phases: DirtyPhases)
    ensures
        phases@ == spec_flagged_phases(entries@),
{
    let mut phases = DirtyPhases::none();
    let mut k: usize = 0;
    while k < 4
        invariant
            k <= 4,
            entries@.len() == 4,
            phases@ == spec_flagged_phases(entries@.take(k as int)),
        decreases 4 - k,
    {
        let (is_dirty, phase) = entries[k];
        let ghost before = phases@;
        if is_dirty {
            phases.insert(phase);
        }
        proof {
            let prefix = entries@.take(k as int);
            let next = entries@.take(k + 1);
            assert forall|p: DirtyPhase| phases@.contains(p) <==> spec_flagged_phases(next).contains(p) by {
                if spec_flagged_phases(prefix).contains(p) {
                    let i = choose|i: int| 0 <= i < prefix.len() && prefix[i].0 && prefix[i].1 == p;
                    assert(next[i] == prefix[i]);
                }
                if spec_flagged_phases(next).contains(p) {
                    let i = choose|i: int| 0 <= i < next.len() && next[i].0 && next[i].1 == p;
                    if i < k {
                        assert(prefix[i] == next[i]);
                    }
                }
                if is_dirty && p == phase {
                    assert(next[k as int] == entries@[k as int]);
                }
            }
            assert(phases@ =~= spec_flagged_phases(next));
        }
        k = k + 1;
    }
    assert(entries@.take(4) =~= entries@);
    phases
}

/// Completes the publication phases of a non-structural attempt: a presentation change
/// adds hit testing and paint; pending semantics, a presentation change, or pending
/// focus validation make semantics dirty. Returns the phases and semantic dirtiness.
pub fn complete_non_structural_publication_phases(
    pending: DirtyPhases,
    presentation_dirty: bool,
    phases: DirtyPhases,
) -> (result: (DirtyPhases, bool))
    ensures
        result.1 == (pending@.contains(DirtyPhase::Semantics) || presentation_dirty
            || pending@.contains(DirtyPhase::FocusValidation)),
        result.0@ == phases@ + (if presentation_dirty {
            set![DirtyPhase::HitTest, DirtyPhase::Paint]
        } else {
            Set::empty()
        }) + (if result.1 {
            set![DirtyPhase::Semantics]
        } else {
            Set::empty()
        }),
{
    let mut phases = phases;
    let ghost start = phases@;
    if presentation_dirty {
        phases.insert(DirtyPhase::HitTest);
        phases.insert(DirtyPhase::Paint);
    }
    let semantic_dirty = pending.contains(DirtyPhase::Semantics) || presentation_dirty
        || pending.contains(DirtyPhase::FocusValidation);
    if semantic_dirty {
        phases.insert(DirtyPhase::Semantics);
    }
    assert(phases@ =~= start + (if presentation_dirty {
        set![DirtyPhase::HitTest, DirtyPhase::Paint]
    } else {
        Set::empty()
    }) + (if semantic_dirty {
        set![DirtyPhase::Semantics]
    } else {
        Set::empty()
    }));
    (phases, semantic_dirty)
}

/// Which downstream products a change of effective publication inputs invalidates.
#[derive(Clone, Copy, Debug, Default, PartialEq, Eq, Structural)]
pub struct EffectiveEffects {
    /// Layout inputs changed.
    pub layout: bool,
    /// Paint inputs changed.
    pub paint: bool,
    /// Presentation inputs changed.
    pub presentation: bool,
}

impl EffectiveEffects {
    /// Whether layout inputs changed.
    pub fn layout(self) -> (changed: bool)
        ensures
            changed == self.layout,
    {
        self.layout
    }

    /// Whether paint inputs changed.
    pub fn paint(self) -> (changed: bool)
        ensures
            changed == self.paint,
    {
        self.paint
    }

    /// Whether presentation inputs changed.
    pub fn presentation(self) -> (changed: bool)
        ensures
            changed == self.presentation,
    {
        self.presentation
    }

    /// Folds the effects of one changed node into the effects gathered so far.
    pub fn merge(self, other: EffectiveEffects) -> (merged: EffectiveEffects)
        ensures
            merged.layout == (self.layout || other.layout),
            merged.paint == (self.paint || other.paint),
            merged.presentation == (self.presentation || other.presentation),
    {
        EffectiveEffects {
            layout: self.layout || other.layout,
            paint: self.paint || other.paint,
            presentation: self.presentation || other.presentation,
        }
    }
}

/// Folds the per-node effects of a change of effective inputs: a product is invalidated
/// when any node invalidates it.
pub fn fold_effects(changes: &Vec<EffectiveEffects>) -> (effects: EffectiveEffects)
    ensures
        effects.layout == exists|i: int| 0 <= i < changes@.len() && #[trigger] changes@[i].layout,
        effects.paint == exists|i: int| 0 <= i < changes@.len() && #[trigger] changes@[i].paint,
        effects.presentation == exists|i: int|
            0 <= i < changes@.len() && #[trigger] changes@[i].presentation,
{
    let mut effects = EffectiveEffects { layout: false, paint: false, presentation: false };
    let mut k: usize = 0;
    while k < changes.len()
        invariant
            k <= changes@.len(),
            effects.layout == exists|i: int| 0 <= i < k && #[trigger] changes@[i].layout,
            effects.paint == exists|i: int| 0 <= i < k && #[trigger] changes@[i].paint,
            effects.presentation == exists|i: int| 0 <= i < k && #[trigger] changes@[i].presentation,
        decreases changes.len() - k,
    {
        effects = effects.merge(changes[k]);
        k = k + 1;
    }
    effects
}

/// Layout, presentation, and paint dirtiness after motion settled the effective inputs.
/// A layout change always dirties presentation.
pub fn dirty_after_motion(effects: EffectiveEffects, layout_dirty: bool, paint_dirty: bool) -> (dirty: (
    bool,
    bool,
    bool,
))
    ensures
        dirty.0 == (layout_dirty || effects.layout),
        dirty.1 == (dirty.0 || effects.presentation),
        dirty.2 == (paint_dirty || effects.paint),
{
    let layout_dirty = layout_dirty || effects.layout();
    let presentation_dirty = layout_dirty || effects.presentation();
    let paint_dirty = paint_dirty || effects.paint();
    (layout_dirty, presentation_dirty, paint_dirty)
}

/// Whether the staged layout/debug publication must be composed again.
pub fn publication_needs_recompose(
    effective_changed: bool,
    report: &SurfacePhaseReport,
    scene_diagnostics_changed: bool,
) -> (recompose: bool)
    ensures
        recompose == (effective_changed || report@.contains(SurfacePhase::Style) || report@.contains(
            SurfacePhase::Layout,
        ) || report@.contains(SurfacePhase::Diagnostics) || scene_diagnostics_changed),
{
    effective_changed || report.contains(SurfacePhase::Style) || report.contains(SurfacePhase::Layout)
        || report.contains(SurfacePhase::Diagnostics) || scene_diagnostics_changed
}

/// Per-axis overflow of one laid-out node.
#[derive(Clone, Copy, Debug, PartialEq, Eq, Structural)]
pub struct LayoutOverflow {
    width: bool,
    height: bool,
}

impl LayoutOverflow {
    /// Overflow with the given per-axis flags.
    pub fn new(width: bool, height: bool) -> (overflow: LayoutOverflow)
        ensures
            overflow.spec_width() == width,
            overflow.spec_height() == height,
    {
        LayoutOverflow { width, height }
    }

    /// Whether content overflows horizontally.
    pub closed spec fn spec_width(self) -> bool {
        self.width
    }

    /// Whether content overflows vertically.
    pub closed spec fn spec_height(self) -> bool {
        self.height
    }

    /// Whether content overflows horizontally.
    pub fn width(&self) -> (width: bool)
        ensures
            width == self.spec_width(),
    {
        self.width
    }

    /// Whether content overflows vertically.
    pub fn height(&self) -> (height: bool)
        ensures
            height == self.spec_height(),
    {
        self.height
    }

    /// Whether content overflows on either axis.
    pub fn any(&self) -> (any: bool)
        ensures
            any == (self.spec_width() || self.spec_height()),
    {
        self.width || self.height
    }
}

impl Default for LayoutOverflow {
    fn default() -> (overflow: LayoutOverflow)
        ensures
            !overflow.spec_width(),
            !overflow.spec_height(),
    {
        LayoutOverflow::new(false, false)
    }
}

/// Error returned when a renderer raster scale is not finite and strictly positive.
#[derive(Clone, Copy, Debug, PartialEq, Eq, Structural)]
pub enum RasterScaleError {
    /// The supplied scale was NaN or positive/negative infinity.
    NotFinite,
    /// The supplied finite scale was zero or negative.
    NotPositive,
}

impl RasterScaleError {
    /// Human-readable description of the refusal.
    pub fn message(&self) -> (text: &'static str)
        ensures
            text@ == match self {
                RasterScaleError::NotFinite => "raster scale must be finite"@,
                RasterScaleError::NotPositive => "raster scale must be strictly positive"@,
            },
    {
        match self {
            RasterScaleError::NotFinite => "raster scale must be finite",
            RasterScaleError::NotPositive => "raster scale must be strictly positive",
        }
    }
}

/// Whether a publication attempt must rebuild the whole surface: there is no retained
/// cache, or the mounted tree changed structurally.
pub fn publication_is_structural(has_cache: bool, pending: DirtyPhases) -> (structural: bool)
    ensures
        structural == (!has_cache || pending@.contains(DirtyPhase::Tree)),
{
    !has_cache || pending.contains(DirtyPhase::Tree)
}

/// Phases that a non-structural attempt runs once motion settled its effective inputs.
#[derive(Clone, Copy, Debug, PartialEq, Eq, Structural)]
pub struct PublicationPhases {
    /// Layout is resolved again.
    pub layout: bool,
    /// Presentation geometry is resolved again.
    pub presentation: bool,
    /// Capability phases of the attempt.
    pub phases: DirtyPhases,
    /// Semantics are finalized again.
    pub semantics: bool,
}

/// The phases of a non-structural attempt.
pub open spec fn spec_publication_phases(
    pending: Set<DirtyPhase>,
    layout_context_changed: bool,
    effects: EffectiveEffects,
) -> (bool, bool, Set<DirtyPhase>, bool) {
    let layout = pending.contains(DirtyPhase::Layout) || layout_context_changed || effects.layout;
    let presentation = layout || effects.presentation;
    let paint = pending.contains(DirtyPhase::Paint) || effects.paint;
    let semantics = pending.contains(DirtyPhase::Semantics) || presentation || pending.contains(
        DirtyPhase::FocusValidation,
    );
    let phases = Set::new(
        |p: DirtyPhase|
            (p == DirtyPhase::Layout && layout) || (p == DirtyPhase::HitTest && (pending.contains(
                DirtyPhase::HitTest,
            ) || presentation)) || (p == DirtyPhase::Paint && (paint || presentation)) || (p
                == DirtyPhase::Diagnostics && pending.contains(DirtyPhase::Diagnostics)) || (p
                == DirtyPhase::Semantics && semantics),
    );
    (layout, presentation, phases, semantics)
}

/// Picks the phases of a non-structural attempt from the pending work, whether the
/// layout context changed, and what motion changed in the effective inputs.
pub fn plan_publication_phases(
    pending: DirtyPhases,
    layout_context_changed: bool,
    effects: EffectiveEffects,
) -> (plan: PublicationPhases)
    ensures
        (plan.layout, plan.presentation, plan.phases@, plan.semantics) == spec_publication_phases(
            pending@,
            layout_context_changed,
            effects,
        ),
{
    let layout_dirty = pending.contains(DirtyPhase::Layout) || layout_context_changed;
    let hit_dirty = pending.contains(DirtyPhase::HitTest);
    let paint_dirty = pending.contains(DirtyPhase::Paint);
    let (layout_dirty, presentation_dirty, paint_dirty) = dirty_after_motion(
        effects,
        layout_dirty,
        paint_dirty,
    );
    let entries = [
        (layout_dirty, DirtyPhase::Layout),
        (hit_dirty, DirtyPhase::HitTest),
        (paint_dirty, DirtyPhase::Paint),
        (pending.contains(DirtyPhase::Diagnostics), DirtyPhase::Diagnostics),
    ];
    let flagged = surface_capability_phases(entries);
    let (phases, semantics) = complete_non_structural_publication_phases(
        pending,
        presentation_dirty,
        flagged,
    );
    let ghost expected = spec_publication_phases(pending@, layout_context_changed, effects);
    proof {
        assert forall|p: DirtyPhase| phases@.contains(p) <==> expected.2.contains(p) by {
            if spec_flagged_phases(entries@).contains(p) {
                let i = choose|i: int| 0 <= i < entries@.len() && entries@[i].0 && entries@[i].1 == p;
                assert(0 <= i < 4);
            }
            if p == DirtyPhase::Layout && layout_dirty {
                assert(entries@[0] == (layout_dirty, DirtyPhase::Layout));
            }
            if p == DirtyPhase::HitTest && hit_dirty {
                assert(entries@[1] == (hit_dirty, DirtyPhase::HitTest));
            }
            if p == DirtyPhase::Paint && paint_dirty {
                assert(entries@[2] == (paint_dirty, DirtyPhase::Paint));
            }
            if p == DirtyPhase::Diagnostics && pending@.contains(DirtyPhase::Diagnostics) {
                assert(entries@[3].0 && entries@[3].1 == DirtyPhase::Diagnostics);
            }
        }
        assert(phases@ =~= expected.2);
    }
    PublicationPhases { layout: layout_dirty, presentation: presentation_dirty, phases, semantics }
}

/// A changed layout always re-resolves presentation, and a changed presentation always
/// re-runs hit testing, paint, and semantics; pending semantics or focus validation
/// always re-runs semantics.
pub proof fn lemma_presentation_drives_downstream_phases(
    pending: Set<DirtyPhase>,
    layout_context_changed: bool,
    effects: EffectiveEffects,
)
    ensures
        ({
            let (layout, presentation, phases, semantics) = spec_publication_phases(
                pending,
                layout_context_changed,
                effects,
            );
            &&& layout ==> presentation
            &&& presentation ==> phases.contains(DirtyPhase::HitTest) && phases.contains(
                DirtyPhase::Paint,
            ) && semantics
            &&& (pending.contains(DirtyPhase::Semantics) || pending.contains(
                DirtyPhase::FocusValidation,
            )) ==> semantics && phases.contains(DirtyPhase::Semantics)
            &&& layout <==> phases.contains(DirtyPhase::Layout)
            &&& !phases.contains(DirtyPhase::Tree) && !phases.contains(DirtyPhase::Style)
        }),
{
}

/// Executed phases and completed work of a non-structural attempt, in execution
/// order: style, layout, hit testing, paint, semantics, diagnostics. Motion always
/// completes.
#[verifier::spinoff_prover]
#[verifier::rlimit(60)]
pub fn non_structural_outcome(
    pending: DirtyPhases,
    style_dirty: bool,
    plan: PublicationPhases,
) -> (outcome: (SurfacePhaseReport, DirtyPhases))
    ensures
        outcome.0@ == seq![SurfacePhase::Style].take(if style_dirty { 1int } else { 0 }) + seq![
            SurfacePhase::Layout,
        ].take(if plan.layout { 1int } else { 0 }) + seq![SurfacePhase::HitTesting].take(
            if plan.phases@.contains(DirtyPhase::HitTest) { 1int } else { 0 },
        ) + seq![SurfacePhase::Paint].take(
            if plan.phases@.contains(DirtyPhase::Paint) { 1int } else { 0 },
        ) + seq![SurfacePhase::Semantics].take(if plan.semantics { 1int } else { 0 }) + seq![
            SurfacePhase::Diagnostics,
        ].take(if pending@.contains(DirtyPhase::Diagnostics) { 1int } else { 0 }),
        outcome.1@ == Set::new(
            |p: DirtyPhase|
                (p == DirtyPhase::Style && style_dirty) || p == DirtyPhase::Motion || (p
                    == DirtyPhase::Layout && plan.layout) || (p == DirtyPhase::HitTest
                    && plan.phases@.contains(DirtyPhase::HitTest)) || (p == DirtyPhase::Paint
                    && plan.phases@.contains(DirtyPhase::Paint)) || (p == DirtyPhase::Semantics
                    && plan.semantics) || (p == DirtyPhase::Diagnostics && pending@.contains(
                    DirtyPhase::Diagnostics,
                )),
        ),
{
    let mut report = SurfacePhaseReport::new();
    let mut completed = DirtyPhases::none();
    if style_dirty {
        report.record(SurfacePhase::Style);
        completed.insert(DirtyPhase::Style);
    }
    completed.insert(DirtyPhase::Motion);
    if plan.layout {
        report.record(SurfacePhase::Layout);
        completed.insert(DirtyPhase::Layout);
    }
    if plan.phases.contains(DirtyPhase::HitTest) {
        report.record(SurfacePhase::HitTesting);
        completed.insert(DirtyPhase::HitTest);
    }
    if plan.phases.contains(DirtyPhase::Paint) {
        report.record(SurfacePhase::Paint);
        completed.insert(DirtyPhase::Paint);
    }
    if plan.semantics {
        report.record(SurfacePhase::Semantics);
        completed.insert(DirtyPhase::Semantics);
    }
    if pending.contains(DirtyPhase::Diagnostics) {
        report.record(SurfacePhase::Diagnostics);
        completed.insert(DirtyPhase::Diagnostics);
    }
    proof {
        assert(report@ =~= seq![SurfacePhase::Style].take(if style_dirty { 1int } else { 0 }) + seq![
            SurfacePhase::Layout,
        ].take(if plan.layout { 1int } else { 0 }) + seq![SurfacePhase::HitTesting].take(
            if plan.phases@.contains(DirtyPhase::HitTest) { 1int } else { 0 },
        ) + seq![SurfacePhase::Paint].take(
            if plan.phases@.contains(DirtyPhase::Paint) { 1int } else { 0 },
        ) + seq![SurfacePhase::Semantics].take(if plan.semantics { 1int } else { 0 }) + seq![
            SurfacePhase::Diagnostics,
        ].take(if pending@.contains(DirtyPhase::Diagnostics) { 1int } else { 0 }));
        assert(completed@ =~= Set::new(
            |p: DirtyPhase|
                (p == DirtyPhase::Style && style_dirty) || p == DirtyPhase::Motion || (p
                    == DirtyPhase::Layout && plan.layout) || (p == DirtyPhase::HitTest
                    && plan.phases@.contains(DirtyPhase::HitTest)) || (p == DirtyPhase::Paint
                    && plan.phases@.contains(DirtyPhase::Paint)) || (p == DirtyPhase::Semantics
                    && plan.semantics) || (p == DirtyPhase::Diagnostics && pending@.contains(
                    DirtyPhase::Diagnostics,
                )),
        ));
    }
    (report, completed)
}

/// Executed phases of a structural rebuild: every phase but focus validation, in order.
pub fn structural_phase_report() -> (report: SurfacePhaseReport)
    ensures
        report@ == seq![
            SurfacePhase::Tree,
            SurfacePhase::Style,
            SurfacePhase::Layout,
            SurfacePhase::HitTesting,
            SurfacePhase::Paint,
            SurfacePhase::Semantics,
            SurfacePhase::Diagnostics,
        ],
{
    let mut report = SurfacePhaseReport::new();
    report.record(SurfacePhase::Tree);
    report.record(SurfacePhase::Style);
    report.record(SurfacePhase::Layout);
    report.record(SurfacePhase::HitTesting);
    report.record(SurfacePhase::Paint);
    report.record(SurfacePhase::Semantics);
    report.record(SurfacePhase::Diagnostics);
    proof {
        assert(report@ =~= seq![
            SurfacePhase::Tree,
            SurfacePhase::Style,
            SurfacePhase::Layout,
            SurfacePhase::HitTesting,
            SurfacePhase::Paint,
            SurfacePhase::Semantics,
            SurfacePhase::Diagnostics,
        ]);
    }
    report
}

} // verus!
