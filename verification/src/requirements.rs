//! Renderer-neutral resource requirements of a paint scene, consumer capabilities, and
//! the hit-test resolution of one point.

use vstd::prelude::*;

use crate::ids::MountedNodeId;
use crate::scheduler::{insert_sorted_unique, strictly_increasing};

verus! {

/// Resource kinds in canonical order: ascending, each once, holding exactly the kinds
/// of `kinds`.
pub open spec fn is_canonical(canonical: Seq<u64>, kinds: Seq<u64>) -> bool {
    strictly_increasing(canonical) && canonical.to_set() == kinds.to_set()
}

/// Sorts resource kinds and drops repeats.
pub fn canonical_resource_kinds(kinds: &Vec<u64>) -> (canonical: Vec<u64>)
    ensures
        is_canonical(canonical@, kinds@),
{
    let mut canonical: Vec<u64> = Vec::new();
    let mut k: usize = 0;
    while k < kinds.len()
        invariant
            k <= kinds@.len(),
            strictly_increasing(canonical@),
            canonical@.to_set() == kinds@.take(k as int).to_set(),
        decreases kinds.len() - k,
    {
        insert_sorted_unique(&mut canonical, kinds[k]);
        proof {
            assert(kinds@.take(k + 1) =~= kinds@.take(k as int).push(kinds@[k as int]));
            kinds@.take(k as int).lemma_push_to_set_commute(kinds@[k as int]);
        }
        k = k + 1;
    }
    proof {
        assert(kinds@.take(kinds@.len() as int) =~= kinds@);
    }
    canonical
}

/// Canonical resource-kind requirements of one paint scene.
#[derive(Clone, Debug, Default)]
pub struct SceneRequirements {
    resource_kinds: Vec<u64>,
}

impl View for SceneRequirements {
    type V = Seq<u64>;

    closed spec fn view(&self) -> Seq<u64> {
        self.resource_kinds@
    }
}

/// Resource kinds that items reference, in item order, skipping items without one.
pub open spec fn spec_referenced_kinds(item_kinds: Seq<Option<u64>>, n: int) -> Seq<u64>
    decreases n,
{
    if n <= 0 {
        Seq::empty()
    } else {
        let prefix = spec_referenced_kinds(item_kinds, n - 1);
        match item_kinds[n - 1] {
            Some(kind) => prefix.push(kind),
            None => prefix,
        }
    }
}

impl SceneRequirements {
    /// Requirements of a scene whose items reference the given resource kinds.
    pub fn from_item_kinds(item_kinds: &Vec<Option<u64>>) -> (requirements: SceneRequirements)
        ensures
            is_canonical(requirements@, spec_referenced_kinds(item_kinds@, item_kinds@.len() as int)),
    {
        let mut kinds: Vec<u64> = Vec::new();
        let mut k: usize = 0;
        while k < item_kinds.len()
            invariant
                k <= item_kinds@.len(),
                kinds@ == spec_referenced_kinds(item_kinds@, k as int),
            decreases item_kinds.len() - k,
        {
            if let Some(kind) = item_kinds[k] {
                kinds.push(kind);
            }
            k = k + 1;
        }
        SceneRequirements { resource_kinds: canonical_resource_kinds(&kinds) }
    }

    /// Required resource kinds in canonical order.
    pub fn resource_kinds(&self) -> (kinds: &[u64])
        ensures
            kinds@ == self@,
    {
        self.resource_kinds.as_slice()
    }

    /// Whether the scene requires no resource kind.
    pub fn is_empty(&self) -> (empty: bool)
        ensures
            empty == (self@.len() == 0),
    {
        self.resource_kinds.len() == 0
    }
}

/// Resource kinds that one external scene consumer supports, in canonical order.
#[derive(Debug)]
pub struct SceneCapabilities {
    resource_kinds: Vec<u64>,
}

impl Default for SceneCapabilities {
    fn default() -> (capabilities: SceneCapabilities)
        ensures
            capabilities@ == Seq::<u64>::empty(),
    {
        SceneCapabilities { resource_kinds: Vec::new() }
    }
}

impl Clone for SceneCapabilities {
    fn clone(&self) -> (copy: SceneCapabilities)
        ensures
            copy@ == self@,
    {
        proof {
            use_type_invariant(self);
        }
        let resource_kinds = self.resource_kinds.clone();
        proof {
            assert(resource_kinds@ =~= self.resource_kinds@);
        }
        SceneCapabilities { resource_kinds }
    }
}

impl View for SceneCapabilities {
    type V = Seq<u64>;

    closed spec fn view(&self) -> Seq<u64> {
        self.resource_kinds@
    }
}

/// First requirement, in requirement order, that the capabilities lack.
pub open spec fn spec_first_unsupported(requirements: Seq<u64>, supported: Seq<u64>, n: int) -> Option<u64>
    decreases n,
{
    if n <= 0 {
        None
    } else {
        match spec_first_unsupported(requirements, supported, n - 1) {
            Some(kind) => Some(kind),
            None => if supported.contains(requirements[n - 1]) {
                None
            } else {
                Some(requirements[n - 1])
            },
        }
    }
}

/// A requirement that a scene consumer does not support.
#[derive(Clone, Copy, Debug, PartialEq, Eq, Structural)]
pub struct UnsupportedSceneRequirement {
    pub resource_kind: u64,
}

impl UnsupportedSceneRequirement {
    /// The unsupported resource kind.
    pub fn resource_kind(self) -> (kind: u64)
        ensures
            kind == self.resource_kind,
    {
        self.resource_kind
    }

    /// Stable diagnostic code of an unsupported resource kind.
    pub fn code(self) -> (code: &'static str)
        ensures
            code@ == "runenui.scene.unsupported-resource-kind"@,
    {
        "runenui.scene.unsupported-resource-kind"
    }
}

impl SceneCapabilities {
    #[verifier::type_invariant]
    spec fn canonical(self) -> bool {
        strictly_increasing(self.resource_kinds@)
    }

    /// Capabilities of the given kinds; order and repeats do not matter.
    pub fn new(resource_kinds: &Vec<u64>) -> (capabilities: SceneCapabilities)
        ensures
            is_canonical(capabilities@, resource_kinds@),
    {
        SceneCapabilities { resource_kinds: canonical_resource_kinds(resource_kinds) }
    }

    /// Supported resource kinds in canonical order.
    pub fn resource_kinds(&self) -> (kinds: &[u64])
        ensures
            kinds@ == self@,
            strictly_increasing(kinds@),
    {
        proof {
            use_type_invariant(self);
        }
        self.resource_kinds.as_slice()
    }

    /// Whether `kind` is supported, by binary search over the canonical kinds.
    pub fn supports_resource_kind(&self, kind: u64) -> (supported: bool)
        ensures
            supported == self@.contains(kind),
    {
        proof {
            use_type_invariant(self);
        }
        let kinds = &self.resource_kinds;
        let mut low: usize = 0;
        let mut high: usize = kinds.len();
        while low < high
            invariant
                high <= kinds@.len(),
                low <= high,
                kinds@ == self@,
                strictly_increasing(kinds@),
                forall|i: int| 0 <= i < low ==> kinds@[i] < kind,
                forall|i: int| high <= i < kinds@.len() ==> kinds@[i] > kind,
            decreases high - low,
        {
            let mid = low + (high - low) / 2;
            if kinds[mid] == kind {
                assert(kinds@[mid as int] == kind);
                return true;
            } else if kinds[mid] < kind {
                proof {
                    assert forall|i: int| 0 <= i < mid + 1 implies kinds@[i] < kind by {
                        if i < mid {
                            assert(kinds@[i] < kinds@[mid as int]);
                        }
                    }
                }
                low = mid + 1;
            } else {
                proof {
                    assert forall|i: int| mid <= i < kinds@.len() implies kinds@[i] > kind by {
                        if i > mid {
                            assert(kinds@[mid as int] < kinds@[i]);
                        }
                    }
                }
                high = mid;
            }
        }
        proof {
            assert forall|i: int| 0 <= i < kinds@.len() implies kinds@[i] != kind by {}
        }
        false
    }

    /// Checks requirements in their canonical order, refusing the first unsupported kind.
    pub fn check_requirements(&self, requirements: &SceneRequirements) -> (result: Result<
        (),
        UnsupportedSceneRequirement,
    >)
        ensures
            match spec_first_unsupported(requirements@, self@, requirements@.len() as int) {
                Some(kind) => result == Err::<(), UnsupportedSceneRequirement>(
                    UnsupportedSceneRequirement { resource_kind: kind },
                ),
                None => result == Ok::<(), UnsupportedSceneRequirement>(()),
            },
    {
        let kinds = requirements.resource_kinds();
        let mut k: usize = 0;
        while k < kinds.len()
            invariant
                k <= kinds@.len(),
                kinds@ == requirements@,
                spec_first_unsupported(requirements@, self@, k as int) is None,
            decreases kinds.len() - k,
        {
            if !self.supports_resource_kind(kinds[k]) {
                proof {
                    lemma_first_unsupported_stays(requirements@, self@, k as int + 1, requirements@.len() as int);
                }
                return Err(UnsupportedSceneRequirement { resource_kind: kinds[k] });
            }
            k = k + 1;
        }
        Ok(())
    }
}

proof fn lemma_first_unsupported_stays(requirements: Seq<u64>, supported: Seq<u64>, m: int, n: int)
    requires
        0 <= m <= n <= requirements.len(),
        spec_first_unsupported(requirements, supported, m) is Some,
    ensures
        spec_first_unsupported(requirements, supported, n) == spec_first_unsupported(requirements, supported, m),
    decreases n - m,
{
    if n > m {
        lemma_first_unsupported_stays(requirements, supported, m, n - 1);
    }
}

/// How a hit-test region answers a point it covers.
#[derive(Clone, Copy, Debug, PartialEq, Eq, Structural)]
pub enum PointerPolicy {
    /// The region's mounted owner is the target.
    Target,
    /// Resolution stops with no target.
    Block,
}

/// The target of the topmost covering region among the first `n`, if any: a targeting
/// region yields its owner and a blocking one yields nothing.
pub open spec fn spec_topmost_target(
    regions: Seq<(MountedNodeId, PointerPolicy)>,
    covered: Seq<bool>,
    n: int,
) -> Option<MountedNodeId>
    decreases n,
{
    if n <= 0 {
        None
    } else if covered[n - 1] {
        match regions[n - 1].1 {
            PointerPolicy::Target => Some(regions[n - 1].0),
            PointerPolicy::Block => None,
        }
    } else {
        spec_topmost_target(regions, covered, n - 1)
    }
}

/// Resolves a point from the regions in paint order and whether each covers the point:
/// the last covering region decides.
pub fn topmost_target(regions: &Vec<(MountedNodeId, PointerPolicy)>, covered: &Vec<bool>) -> (target:
    Option<MountedNodeId>)
    requires
        regions@.len() == covered@.len(),
    ensures
        target == spec_topmost_target(regions@, covered@, regions@.len() as int),
{
    let mut k: usize = regions.len();
    while k > 0
        invariant
            k <= regions@.len(),
            regions@.len() == covered@.len(),
            spec_topmost_target(regions@, covered@, regions@.len() as int) == spec_topmost_target(
                regions@,
                covered@,
                k as int,
            ),
        decreases k,
    {
        if covered[k - 1] {
            return match regions[k - 1].1 {
                PointerPolicy::Target => Some(regions[k - 1].0),
                PointerPolicy::Block => None,
            };
        }
        k = k - 1;
    }
    None
}

/// Whether `target` belongs to a snapshot's mounted targets.
pub fn contains_mounted_target(targets: &Vec<MountedNodeId>, target: &MountedNodeId) -> (found: bool)
    ensures
        found == targets@.contains(*target),
{
    let mut k: usize = 0;
    while k < targets.len()
        invariant
            k <= targets@.len(),
            forall|j: int| 0 <= j < k ==> targets@[j] != *target,
        decreases targets.len() - k,
    {
        if targets[k] == *target {
            return true;
        }
        k = k + 1;
    }
    false
}

proof fn lemma_increasing_same_set_prefix(a: Seq<u64>, b: Seq<u64>, i: int)
    requires
        strictly_increasing(a),
        strictly_increasing(b),
        a.to_set() == b.to_set(),
        0 <= i < a.len(),
        i < b.len(),
        forall|j: int| 0 <= j < i ==> a[j] == b[j],
    ensures
        a[i] == b[i],
{
    assert(a.to_set().contains(a[i]));
    assert(b.contains(a[i]));
    let m = choose|m: int| 0 <= m < b.len() && b[m] == a[i];
    assert(a.to_set().contains(b[i]));
    assert(a.contains(b[i]));
    let n = choose|n: int| 0 <= n < a.len() && a[n] == b[i];
    if m < i {
        assert(a[m] == b[m]);
        assert(a[m] < a[i]);
    }
    if n < i {
        assert(b[n] == a[n]);
        assert(b[n] < b[i]);
    }
    if m > i {
        assert(b[i] < b[m]);
        if n > i {
            assert(a[i] < a[n]);
        }
    }
}

/// Canonical kinds depend only on which kinds occur: inputs with the same kinds, in any
/// order and with any repeats, give the same canonical sequence.
pub proof fn lemma_canonical_kinds_ignore_order_and_repeats(
    first: Seq<u64>,
    first_kinds: Seq<u64>,
    second: Seq<u64>,
    second_kinds: Seq<u64>,
)
    requires
        is_canonical(first, first_kinds),
        is_canonical(second, second_kinds),
        first_kinds.to_set() == second_kinds.to_set(),
    ensures
        first == second,
{
    let a = first;
    let b = second;
    let n = if a.len() < b.len() { a.len() as int } else { b.len() as int };
    assert forall|i: int| 0 <= i < n implies a[i] == b[i] by {
        lemma_prefix_equal(a, b, i);
    }
    if a.len() < b.len() {
        assert(b.to_set().contains(b[n]));
        assert(a.contains(b[n]));
        let m = choose|m: int| 0 <= m < a.len() && a[m] == b[n];
        assert(a[m] == b[m]);
        assert(b[m] < b[n]);
    } else if b.len() < a.len() {
        assert(a.to_set().contains(a[n]));
        assert(b.contains(a[n]));
        let m = choose|m: int| 0 <= m < b.len() && b[m] == a[n];
        assert(a[m] == b[m]);
        assert(a[m] < a[n]);
    }
    assert(a =~= b);
}

proof fn lemma_prefix_equal(a: Seq<u64>, b: Seq<u64>, i: int)
    requires
        strictly_increasing(a),
        strictly_increasing(b),
        a.to_set() == b.to_set(),
        0 <= i < a.len(),
        i < b.len(),
    ensures
        forall|j: int| 0 <= j <= i ==> a[j] == b[j],
    decreases i,
{
    if i > 0 {
        lemma_prefix_equal(a, b, i - 1);
    }
    lemma_increasing_same_set_prefix(a, b, i);
}

} // verus!
