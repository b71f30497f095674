//! Scheduling decisions over runtime-owned work: subscription reconciliation, local
//! polling order, timer promotion order, and the scheduler observation.

use vstd::prelude::*;

use crate::ids::MountedNodeId;
use crate::routed::{RuntimeTerminalReason, WorkFamily};

verus! {

/// Owner of runtime-owned work.
#[derive(Clone, Copy, Debug, PartialEq, Eq, Structural)]
pub enum WorkOwner {
    Application,
    Mounted(MountedNodeId),
}

/// One declared subscription: its owner-local key, source type, and revision.
#[derive(Clone, Copy, Debug, PartialEq, Eq, Structural)]
pub struct SubscriptionDeclaration {
    pub key: u64,
    pub source_type: u64,
    pub revision: u64,
}

/// One live subscription: its work generation, owner, key, source type, and revision.
#[derive(Clone, Copy, Debug, PartialEq, Eq, Structural)]
pub struct LiveSubscriptionEntry {
    pub generation: u64,
    pub owner: WorkOwner,
    pub key: u64,
    pub source_type: u64,
    pub revision: u64,
}

/// Number of declarations among the first `n` with key `key`.
pub open spec fn spec_key_count(declarations: Seq<SubscriptionDeclaration>, key: u64, n: int) -> nat
    decreases n,
{
    if n <= 0 {
        0
    } else {
        spec_key_count(declarations, key, n - 1) + if declarations[n - 1].key == key {
            1nat
        } else {
            0nat
        }
    }
}

/// Number of declarations with key `key`.
pub open spec fn spec_declared(declarations: Seq<SubscriptionDeclaration>, key: u64) -> nat {
    spec_key_count(declarations, key, declarations.len() as int)
}

/// Whether a declaration with exactly this key, source type, and revision exists and its
/// key is declared once.
pub open spec fn spec_desired(
    declarations: Seq<SubscriptionDeclaration>,
    key: u64,
    source_type: u64,
    revision: u64,
) -> bool {
    spec_declared(declarations, key) == 1 && exists|i: int|
        0 <= i < declarations.len() && #[trigger] declarations[i] == (SubscriptionDeclaration {
            key,
            source_type,
            revision,
        })
}

/// Whether live subscription `s` of `owner` is no longer desired.
pub open spec fn spec_invalidates(
    s: LiveSubscriptionEntry,
    owner: WorkOwner,
    declarations: Seq<SubscriptionDeclaration>,
) -> bool {
    s.owner == owner && !spec_desired(declarations, s.key, s.source_type, s.revision)
}

/// Generations of the first `n` live subscriptions that the declarations invalidate.
pub open spec fn spec_invalidated(
    live: Seq<LiveSubscriptionEntry>,
    owner: WorkOwner,
    declarations: Seq<SubscriptionDeclaration>,
    n: int,
) -> Seq<u64>
    decreases n,
{
    if n <= 0 {
        Seq::empty()
    } else {
        let prefix = spec_invalidated(live, owner, declarations, n - 1);
        if spec_invalidates(live[n - 1], owner, declarations) {
            prefix.push(live[n - 1].generation)
        } else {
            prefix
        }
    }
}

/// Whether the declaration is unique by key and no live subscription of `owner` already
/// matches it exactly.
pub open spec fn spec_starts(
    d: SubscriptionDeclaration,
    live: Seq<LiveSubscriptionEntry>,
    owner: WorkOwner,
    declarations: Seq<SubscriptionDeclaration>,
) -> bool {
    spec_declared(declarations, d.key) == 1 && !exists|j: int|
        0 <= j < live.len() && #[trigger] live[j] == (LiveSubscriptionEntry {
            generation: live[j].generation,
            owner,
            key: d.key,
            source_type: d.source_type,
            revision: d.revision,
        })
}

/// Positions among the first `n` declarations that start new subscriptions.
pub open spec fn spec_started(
    live: Seq<LiveSubscriptionEntry>,
    owner: WorkOwner,
    declarations: Seq<SubscriptionDeclaration>,
    n: int,
) -> Seq<usize>
    decreases n,
{
    if n <= 0 {
        Seq::empty()
    } else {
        let prefix = spec_started(live, owner, declarations, n - 1);
        if spec_starts(declarations[n - 1], live, owner, declarations) {
            prefix.push((n - 1) as usize)
        } else {
            prefix
        }
    }
}

/// Whether `keys` is strictly increasing.
pub open spec fn strictly_increasing(keys: Seq<u64>) -> bool {
    forall|i: int, j: int| 0 <= i < j < keys.len() ==> #[trigger] keys[i] < #[trigger] keys[j]
}

/// Reconciliation of one owner's declared subscriptions against the live ones.
#[derive(Clone, Debug)]
pub struct SubscriptionDiff {
    /// Generations of live subscriptions to cancel, in live order.
    pub invalidated: Vec<u64>,
    /// Positions of declarations to start, in declaration order.
    pub starts: Vec<usize>,
    /// Keys declared more than once, ascending.
    pub duplicate_keys: Vec<u64>,
}

fn key_count(declarations: &Vec<SubscriptionDeclaration>, key: u64) -> (count: usize)
    ensures
        count == spec_declared(declarations@, key),
{
    let mut count: usize = 0;
    let mut k: usize = 0;
    while k < declarations.len()
        invariant
            k <= declarations@.len(),
            count == spec_key_count(declarations@, key, k as int),
            count <= k,
        decreases declarations.len() - k,
    {
        if declarations[k].key == key {
            count = count + 1;
        }
        k = k + 1;
    }
    count
}

fn is_desired(declarations: &Vec<SubscriptionDeclaration>, s: &LiveSubscriptionEntry) -> (desired: bool)
    ensures
        desired == spec_desired(declarations@, s.key, s.source_type, s.revision),
{
    if key_count(declarations, s.key) != 1 {
        return false;
    }
    let wanted = SubscriptionDeclaration {
        key: s.key,
        source_type: s.source_type,
        revision: s.revision,
    };
    let mut k: usize = 0;
    while k < declarations.len()
        invariant
            k <= declarations@.len(),
            spec_declared(declarations@, s.key) == 1,
            wanted == (SubscriptionDeclaration {
                key: s.key,
                source_type: s.source_type,
                revision: s.revision,
            }),
            forall|j: int| 0 <= j < k ==> declarations@[j] != wanted,
        decreases declarations.len() - k,
    {
        if declarations[k] == wanted {
            return true;
        }
        k = k + 1;
    }
    false
}

fn already_live(live: &Vec<LiveSubscriptionEntry>, owner: WorkOwner, d: SubscriptionDeclaration) -> (found:
    bool)
    ensures
        found == exists|j: int|
            0 <= j < live@.len() && #[trigger] live@[j] == (LiveSubscriptionEntry {
                generation: live@[j].generation,
                owner,
                key: d.key,
                source_type: d.source_type,
                revision: d.revision,
            }),
{
    let mut k: usize = 0;
    while k < live.len()
        invariant
            k <= live@.len(),
            forall|j: int|
                0 <= j < k ==> #[trigger] live@[j] != (LiveSubscriptionEntry {
                    generation: live@[j].generation,
                    owner,
                    key: d.key,
                    source_type: d.source_type,
                    revision: d.revision,
                }),
        decreases live.len() - k,
    {
        let s = live[k];
        if s.owner == owner && s.key == d.key && s.source_type == d.source_type && s.revision
            == d.revision {
            return true;
        }
        k = k + 1;
    }
    false
}

/// Inserts `key` into an ascending vector unless present.
pub(crate) fn insert_sorted_unique(keys: &mut Vec<u64>, key: u64)
    requires
        strictly_increasing(old(keys)@),
    ensures
        strictly_increasing(final(keys)@),
        final(keys)@.to_set() == old(keys)@.to_set().insert(key),
{
    let mut pos: usize = 0;
    while pos < keys.len() && keys[pos] < key
        invariant
            pos <= keys@.len(),
            strictly_increasing(keys@),
            forall|j: int| 0 <= j < pos ==> keys@[j] < key,
        decreases keys.len() - pos,
    {
        pos = pos + 1;
    }
    if pos < keys.len() && keys[pos] == key {
        assert(keys@.to_set() =~= keys@.to_set().insert(key)) by {
            assert(keys@.contains(key) && keys@[pos as int] == key);
        }
        return;
    }
    let ghost before = keys@;
    keys.insert(pos, key);
    proof {
        assert forall|i: int, j: int| 0 <= i < j < keys@.len() implies #[trigger] keys@[i]
            < #[trigger] keys@[j] by {
            if i < pos && j == pos {
            } else if i == pos && j > pos {
                assert(keys@[j] == before[j - 1]);
                assert(before[pos as int] >= key);
                if j - 1 > pos {
                    assert(before[pos as int] < before[j - 1]);
                }
            } else if i < pos && j > pos {
                assert(keys@[j] == before[j - 1]);
            } else if i > pos {
                assert(keys@[i] == before[i - 1]);
                assert(keys@[j] == before[j - 1]);
            }
        }
        assert forall|x: u64| keys@.to_set().contains(x) <==> before.to_set().insert(key).contains(x) by {
            if keys@.contains(x) {
                let i = choose|i: int| 0 <= i < keys@.len() && keys@[i] == x;
                if i < pos {
                    assert(before[i] == x);
                } else if i > pos {
                    assert(before[i - 1] == x);
                }
            }
            if before.contains(x) {
                let i = choose|i: int| 0 <= i < before.len() && before[i] == x;
                if i < pos {
                    assert(keys@[i] == x);
                } else {
                    assert(keys@[i + 1] == x);
                }
            }
            if x == key {
                assert(keys@[pos as int] == key);
            }
        }
        assert(keys@.to_set() =~= before.to_set().insert(key));
    }
}

/// Reconciles `owner`'s declared subscriptions against the live ones: keys declared
/// more than once are reported and neither start nor keep a subscription; a live
/// subscription of the owner is cancelled unless a unique declaration matches its key,
/// source type, and revision exactly; a unique declaration starts unless such a live
/// subscription already exists.
pub fn derive_subscription_diff(
    live: &Vec<LiveSubscriptionEntry>,
    owner: WorkOwner,
    declarations: &Vec<SubscriptionDeclaration>,
) -> (diff: SubscriptionDiff)
    ensures
        diff.invalidated@ == spec_invalidated(live@, owner, declarations@, live@.len() as int),
        diff.starts@ == spec_started(live@, owner, declarations@, declarations@.len() as int),
        strictly_increasing(diff.duplicate_keys@),
        forall|key: u64|
            diff.duplicate_keys@.contains(key) <==> spec_declared(declarations@, key) > 1,
{
    let mut invalidated: Vec<u64> = Vec::new();
    let mut k: usize = 0;
    while k < live.len()
        invariant
            k <= live@.len(),
            invalidated@ == spec_invalidated(live@, owner, declarations@, k as int),
        decreases live.len() - k,
    {
        let s = live[k];
        if s.owner == owner && !is_desired(declarations, &s) {
            invalidated.push(s.generation);
        }
        k = k + 1;
    }
    let mut starts: Vec<usize> = Vec::new();
    let mut duplicate_keys: Vec<u64> = Vec::new();
    let mut i: usize = 0;
    while i < declarations.len()
        invariant
            i <= declarations@.len(),
            starts@ == spec_started(live@, owner, declarations@, i as int),
            strictly_increasing(duplicate_keys@),
            forall|key: u64|
                duplicate_keys@.contains(key) <==> (spec_declared(declarations@, key) > 1 && exists|
                    j: int,
                | 0 <= j < i && #[trigger] declarations@[j].key == key),
        decreases declarations.len() - i,
    {
        let d = declarations[i];
        let count = key_count(declarations, d.key);
        if count > 1 {
            let ghost before = duplicate_keys@;
            insert_sorted_unique(&mut duplicate_keys, d.key);
            proof {
                assert forall|key: u64| duplicate_keys@.contains(key) <==> (spec_declared(
                    declarations@,
                    key,
                ) > 1 && exists|j: int| 0 <= j < i + 1 && #[trigger] declarations@[j].key == key) by {
                    assert(duplicate_keys@.contains(key) <==> duplicate_keys@.to_set().contains(key));
                    assert(before.contains(key) <==> before.to_set().contains(key));
                    if key == d.key {
                        assert(declarations@[i as int].key == key);
                    }
                }
            }
        } else {
            proof {
                assert forall|key: u64| duplicate_keys@.contains(key) <==> (spec_declared(
                    declarations@,
                    key,
                ) > 1 && exists|j: int| 0 <= j < i + 1 && #[trigger] declarations@[j].key == key) by {
                    if spec_declared(declarations@, key) > 1 && declarations@[i as int].key == key {
                        assert(false);
                    }
                }
            }
        }
        if count == 1 && !already_live(live, owner, d) {
            starts.push(i);
        }
        i = i + 1;
    }
    proof {
        assert forall|key: u64|
            duplicate_keys@.contains(key) <==> spec_declared(declarations@, key) > 1 by {
            if spec_declared(declarations@, key) > 1 {
                lemma_declared_key_exists(declarations@, key, declarations@.len() as int);
            }
        }
    }
    SubscriptionDiff { invalidated, starts, duplicate_keys }
}

proof fn lemma_declared_key_exists(declarations: Seq<SubscriptionDeclaration>, key: u64, n: int)
    requires
        0 <= n <= declarations.len(),
        spec_key_count(declarations, key, n) > 0,
    ensures
        exists|j: int| 0 <= j < n && #[trigger] declarations[j].key == key,
    decreases n,
{
    if declarations[n - 1].key == key {
    } else {
        lemma_declared_key_exists(declarations, key, n - 1);
        let j = choose|j: int| 0 <= j < n - 1 && #[trigger] declarations[j].key == key;
        assert(declarations[j].key == key);
    }
}

proof fn lemma_started_contains(
    live: Seq<LiveSubscriptionEntry>,
    owner: WorkOwner,
    declarations: Seq<SubscriptionDeclaration>,
    n: int,
    i: int,
)
    requires
        0 <= n <= declarations.len(),
        0 <= i < declarations.len(),
        declarations.len() <= usize::MAX,
    ensures
        spec_started(live, owner, declarations, n).contains(i as usize) <==> (i < n && spec_starts(
            declarations[i],
            live,
            owner,
            declarations,
        )),
    decreases n,
{
    if n > 0 {
        lemma_started_contains(live, owner, declarations, n - 1, i);
        let prefix = spec_started(live, owner, declarations, n - 1);
        assert(forall|x: usize| prefix.contains(x) ==> (x as int) < n - 1) by {
            lemma_started_below(live, owner, declarations, n - 1);
        }
        if spec_starts(declarations[n - 1], live, owner, declarations) {
            let full = prefix.push((n - 1) as usize);
            if i == n - 1 {
                assert(full[full.len() - 1] == (n - 1) as usize);
            } else if full.contains(i as usize) {
                let k = choose|k: int| 0 <= k < full.len() && full[k] == i as usize;
                if k < prefix.len() {
                    assert(prefix[k] == i as usize);
                }
            }
            if prefix.contains(i as usize) {
                let k = choose|k: int| 0 <= k < prefix.len() && prefix[k] == i as usize;
                assert(full[k] == i as usize);
            }
        } else {
            if i == n - 1 && prefix.contains(i as usize) {
                assert((i as usize) as int == i);
            }
        }
    }
}

proof fn lemma_started_below(
    live: Seq<LiveSubscriptionEntry>,
    owner: WorkOwner,
    declarations: Seq<SubscriptionDeclaration>,
    n: int,
)
    requires
        0 <= n <= declarations.len(),
        declarations.len() <= usize::MAX,
    ensures
        forall|x: usize| spec_started(live, owner, declarations, n).contains(x) ==> (x as int) < n,
    decreases n,
{
    if n > 0 {
        lemma_started_below(live, owner, declarations, n - 1);
        let prefix = spec_started(live, owner, declarations, n - 1);
        assert forall|x: usize| spec_started(live, owner, declarations, n).contains(x) implies (x as int)
            < n by {
            if spec_starts(declarations[n - 1], live, owner, declarations) {
                let full = prefix.push((n - 1) as usize);
                let k = choose|k: int| 0 <= k < full.len() && full[k] == x;
                if k < prefix.len() {
                    assert(prefix[k] == x);
                    assert(prefix.contains(x));
                } else {
                    assert(x == (n - 1) as usize);
                }
            }
        }
    }
}

/// Reconciliation is complete: every subscription that survives the diff matches a
/// unique declaration exactly; every declaration whose key is unique either starts or is
/// matched exactly by a surviving live subscription of the owner; no declaration with a
/// repeated key starts.
pub proof fn lemma_diff_reconciles_declarations(
    live: Seq<LiveSubscriptionEntry>,
    owner: WorkOwner,
    declarations: Seq<SubscriptionDeclaration>,
)
    requires
        declarations.len() <= usize::MAX,
    ensures
        forall|j: int|
            0 <= j < live.len() && live[j].owner == owner && !spec_invalidates(
                #[trigger] live[j],
                owner,
                declarations,
            ) ==> spec_desired(declarations, live[j].key, live[j].source_type, live[j].revision),
        forall|i: int|
            0 <= i < declarations.len() && spec_declared(declarations, #[trigger] declarations[i].key)
                == 1 ==> spec_started(live, owner, declarations, declarations.len() as int).contains(
                i as usize,
            ) || exists|j: int|
                0 <= j < live.len() && live[j].owner == owner && live[j].key == declarations[i].key
                    && live[j].source_type == declarations[i].source_type && live[j].revision
                    == declarations[i].revision && !spec_invalidates(live[j], owner, declarations),
        forall|i: int|
            0 <= i < declarations.len() && spec_started(
                live,
                owner,
                declarations,
                declarations.len() as int,
            ).contains(i as usize) ==> spec_declared(declarations, #[trigger] declarations[i].key) == 1,
{
    let n = declarations.len() as int;
    assert forall|i: int|
        0 <= i < declarations.len() && spec_declared(declarations, #[trigger] declarations[i].key)
            == 1 implies spec_started(live, owner, declarations, n).contains(i as usize) || exists|
        j: int,
    |
        0 <= j < live.len() && live[j].owner == owner && live[j].key == declarations[i].key
            && live[j].source_type == declarations[i].source_type && live[j].revision
            == declarations[i].revision && !spec_invalidates(live[j], owner, declarations) by {
        lemma_started_contains(live, owner, declarations, n, i);
        let d = declarations[i];
        if !spec_starts(d, live, owner, declarations) {
            let j = choose|j: int|
                0 <= j < live.len() && #[trigger] live[j] == (LiveSubscriptionEntry {
                    generation: live[j].generation,
                    owner,
                    key: d.key,
                    source_type: d.source_type,
                    revision: d.revision,
                });
            assert(declarations[i] == (SubscriptionDeclaration {
                key: d.key,
                source_type: d.source_type,
                revision: d.revision,
            }));
            assert(spec_desired(declarations, d.key, d.source_type, d.revision));
            assert(!spec_invalidates(live[j], owner, declarations));
        }
    }
    assert forall|i: int|
        0 <= i < declarations.len() && spec_started(live, owner, declarations, n).contains(
            i as usize,
        ) implies spec_declared(declarations, #[trigger] declarations[i].key) == 1 by {
        lemma_started_contains(live, owner, declarations, n, i);
    }
}

/// `value` saturated to `usize::MAX`.
pub open spec fn saturate(value: int) -> int {
    if value > usize::MAX {
        usize::MAX as int
    } else {
        value
    }
}

/// Mandatory trace records of one subscription diff: two per cancellation, three per
/// start, and the diff record, each step saturating.
pub fn subscription_trace_records(invalidated: usize, starts: usize) -> (records: usize)
    ensures
        records == saturate(saturate(saturate(invalidated * 2) + saturate(starts * 3)) + 1),
{
    let cancellations = match invalidated.checked_mul(2) {
        Some(value) => value,
        None => usize::MAX,
    };
    let starts = match starts.checked_mul(3) {
        Some(value) => value,
        None => usize::MAX,
    };
    cancellations.saturating_add(starts).saturating_add(1)
}

/// Kind of owner a subscription diagnostic names.
#[derive(Clone, Copy, Debug, PartialEq, Eq, Structural)]
pub enum SubscriptionOwnerKind {
    Application,
    Mounted,
}

/// Diagnostic of one subscription declaration problem.
#[derive(Clone, Copy, Debug, PartialEq, Eq, Structural)]
pub enum SubscriptionDiagnostic {
    DuplicateKey { owner: SubscriptionOwnerKind, key: u64 },
}

/// Owner kind of a work owner.
pub fn subscription_owner_kind(owner: &WorkOwner) -> (kind: SubscriptionOwnerKind)
    ensures
        kind == match owner {
            WorkOwner::Application => SubscriptionOwnerKind::Application,
            WorkOwner::Mounted(_) => SubscriptionOwnerKind::Mounted,
        },
{
    match owner {
        WorkOwner::Application => SubscriptionOwnerKind::Application,
        WorkOwner::Mounted(_) => SubscriptionOwnerKind::Mounted,
    }
}

/// Diagnostics naming each key of `keys` for `owner`, in order.
pub open spec fn duplicate_diagnostics(owner: SubscriptionOwnerKind, keys: Seq<u64>) -> Seq<
    SubscriptionDiagnostic,
> {
    keys.map_values(|key: u64| SubscriptionDiagnostic::DuplicateKey { owner, key })
}

/// The last `limit` entries of `entries`.
pub open spec fn keep_last<T>(entries: Seq<T>, limit: nat) -> Seq<T> {
    if entries.len() > limit {
        entries.subrange(entries.len() - limit, entries.len() as int)
    } else {
        entries
    }
}

/// Appends one duplicate-key diagnostic per key, keeping only the newest `limit`
/// diagnostics; a limit of zero records nothing.
pub fn record_subscription_duplicates(
    diagnostics: &mut Vec<SubscriptionDiagnostic>,
    owner: SubscriptionOwnerKind,
    duplicate_keys: &Vec<u64>,
    limit: usize,
)
    requires
        old(diagnostics)@.len() <= limit,
    ensures
        final(diagnostics)@ == if limit == 0 {
            old(diagnostics)@
        } else {
            keep_last(old(diagnostics)@ + duplicate_diagnostics(owner, duplicate_keys@), limit as nat)
        },
{
    if limit == 0 {
        return;
    }
    let ghost start = diagnostics@;
    let mut k: usize = 0;
    while k < duplicate_keys.len()
        invariant
            0 < limit,
            start.len() <= limit,
            k <= duplicate_keys@.len(),
            diagnostics@ == keep_last(
                start + duplicate_diagnostics(owner, duplicate_keys@.take(k as int)),
                limit as nat,
            ),
            diagnostics@.len() <= limit,
        decreases duplicate_keys.len() - k,
    {
        let ghost before = diagnostics@;
        let ghost all = start + duplicate_diagnostics(owner, duplicate_keys@.take(k as int));
        let ghost next_all = start + duplicate_diagnostics(owner, duplicate_keys@.take(k + 1));
        if diagnostics.len() == limit {
            diagnostics.remove(0);
        }
        diagnostics.push(SubscriptionDiagnostic::DuplicateKey { owner, key: duplicate_keys[k] });
        proof {
            assert(duplicate_keys@.take(k + 1) =~= duplicate_keys@.take(k as int).push(
                duplicate_keys@[k as int],
            ));
            assert(next_all =~= all.push(
                SubscriptionDiagnostic::DuplicateKey { owner, key: duplicate_keys@[k as int] },
            ));
            assert(diagnostics@ =~= keep_last(next_all, limit as nat));
        }
        k = k + 1;
    }
    proof {
        assert(duplicate_keys@.take(duplicate_keys@.len() as int) =~= duplicate_keys@);
    }
}

/// One piece of local work that polling may visit: its generation and whether it is
/// running and eligible for a poll.
#[derive(Clone, Copy, Debug, PartialEq, Eq, Structural)]
pub struct LocalWorkEntry {
    pub generation: u64,
    pub eligible: bool,
}

/// Whether `generation` is the smallest eligible, unvisited generation of `entries`.
pub open spec fn spec_is_least_candidate(
    entries: Seq<LocalWorkEntry>,
    visited: Seq<u64>,
    generation: u64,
) -> bool {
    &&& exists|i: int|
        0 <= i < entries.len() && #[trigger] entries[i].generation == generation && entries[i].eligible
    &&& !visited.contains(generation)
    &&& forall|i: int|
        0 <= i < entries.len() && entries[i].eligible && !visited.contains(entries[i].generation)
            ==> generation <= #[trigger] entries[i].generation
}

/// Whether some eligible entry is unvisited.
pub open spec fn spec_has_candidate(entries: Seq<LocalWorkEntry>, visited: Seq<u64>) -> bool {
    exists|i: int|
        0 <= i < entries.len() && #[trigger] entries[i].eligible && !visited.contains(
            entries[i].generation,
        )
}

fn contains_generation(values: &Vec<u64>, generation: u64) -> (found: bool)
    ensures
        found == values@.contains(generation),
{
    let mut k: usize = 0;
    while k < values.len()
        invariant
            k <= values@.len(),
            forall|j: int| 0 <= j < k ==> values@[j] != generation,
        decreases values.len() - k,
    {
        if values[k] == generation {
            return true;
        }
        k = k + 1;
    }
    false
}

fn least_candidate(entries: &Vec<LocalWorkEntry>, visited: &Vec<u64>) -> (least: Option<u64>)
    ensures
        match least {
            Some(g) => spec_is_least_candidate(entries@, visited@, g),
            None => !spec_has_candidate(entries@, visited@),
        },
{
    let mut best: Option<u64> = None;
    let mut k: usize = 0;
    while k < entries.len()
        invariant
            k <= entries@.len(),
            match best {
                Some(g) => {
                    &&& exists|i: int|
                        0 <= i < k && #[trigger] entries@[i].generation == g && entries@[i].eligible
                    &&& !visited@.contains(g)
                    &&& forall|i: int|
                        0 <= i < k && entries@[i].eligible && !visited@.contains(
                            entries@[i].generation,
                        ) ==> g <= #[trigger] entries@[i].generation
                },
                None => forall|i: int|
                    0 <= i < k ==> !(#[trigger] entries@[i].eligible && !visited@.contains(
                        entries@[i].generation,
                    )),
            },
        decreases entries.len() - k,
    {
        let e = entries[k];
        if e.eligible && !contains_generation(visited, e.generation) {
            let better = match best {
                Some(g) => e.generation < g,
                None => true,
            };
            if better {
                best = Some(e.generation);
            }
        }
        k = k + 1;
    }
    best
}

/// The next local work to poll: the smallest eligible, unvisited generation among local
/// tasks and subscriptions, with the family that owns it (a local task when both do).
pub fn select_next_local_work(
    tasks: &Vec<LocalWorkEntry>,
    subscriptions: &Vec<LocalWorkEntry>,
    visited: &Vec<u64>,
) -> (next: Option<(u64, WorkFamily)>)
    ensures
        match next {
            Some((g, family)) => {
                &&& (spec_is_least_candidate(tasks@, visited@, g) || spec_is_least_candidate(
                    subscriptions@,
                    visited@,
                    g,
                ))
                &&& forall|i: int|
                    0 <= i < tasks@.len() && tasks@[i].eligible && !visited@.contains(
                        tasks@[i].generation,
                    ) ==> g <= #[trigger] tasks@[i].generation
                &&& forall|i: int|
                    0 <= i < subscriptions@.len() && subscriptions@[i].eligible
                        && !visited@.contains(subscriptions@[i].generation) ==> g
                        <= #[trigger] subscriptions@[i].generation
                &&& family == if exists|i: int|
                    0 <= i < tasks@.len() && #[trigger] tasks@[i].generation == g {
                    WorkFamily::LocalTask
                } else {
                    WorkFamily::Subscription
                }
            },
            None => !spec_has_candidate(tasks@, visited@) && !spec_has_candidate(
                subscriptions@,
                visited@,
            ),
        },
{
    let next_task = least_candidate(tasks, visited);
    let next_subscription = least_candidate(subscriptions, visited);
    let next = match (next_task, next_subscription) {
        (Some(t), Some(s)) => if t <= s {
            t
        } else {
            s
        },
        (Some(t), None) => t,
        (None, Some(s)) => s,
        (None, None) => {
            return None;
        },
    };
    let mut is_task = false;
    let mut k: usize = 0;
    while k < tasks.len()
        invariant
            k <= tasks@.len(),
            is_task == exists|i: int| 0 <= i < k && #[trigger] tasks@[i].generation == next,
        decreases tasks.len() - k,
    {
        if tasks[k].generation == next {
            is_task = true;
        }
        k = k + 1;
    }
    let family = if is_task {
        WorkFamily::LocalTask
    } else {
        WorkFamily::Subscription
    };
    Some((next, family))
}

/// One timer: its deadline, its work generation, whether its work is running, and
/// whether it is due now.
#[derive(Clone, Copy, Debug, PartialEq, Eq, Structural)]
pub struct TimerEntry {
    pub deadline: u64,
    pub generation: u64,
    pub running: bool,
    pub due: bool,
}

/// Whether `a` orders before `b` by deadline, then by generation.
pub open spec fn pair_lt(a: (u64, u64), b: (u64, u64)) -> bool {
    a.0 < b.0 || (a.0 == b.0 && a.1 < b.1)
}

/// `(deadline, generation)` of the running, due timers among the first `n`, in order.
pub open spec fn spec_due_pairs(timers: Seq<TimerEntry>, n: int) -> Seq<(u64, u64)>
    decreases n,
{
    if n <= 0 {
        Seq::empty()
    } else {
        let prefix = spec_due_pairs(timers, n - 1);
        if timers[n - 1].running && timers[n - 1].due {
            prefix.push((timers[n - 1].deadline, timers[n - 1].generation))
        } else {
            prefix
        }
    }
}

/// `perm` places every input position once, in `(deadline, generation)` order with
/// ties in input order.
pub open spec fn sorted_arrangement(sorted: Seq<(u64, u64)>, input: Seq<(u64, u64)>, perm: Seq<int>) -> bool {
    &&& perm.len() == input.len()
    &&& sorted.len() == input.len()
    &&& forall|k: int|
        0 <= k < perm.len() ==> 0 <= #[trigger] perm[k] < input.len() && sorted[k] == input[perm[k]]
    &&& forall|a: int, b: int|
        0 <= a < b < perm.len() ==> pair_lt(input[#[trigger] perm[a]], input[#[trigger] perm[b]]) || (
        input[perm[a]] == input[perm[b]] && perm[a] < perm[b])
}

fn sort_pairs(input: &Vec<(u64, u64)>) -> (sorted: Vec<(u64, u64)>)
    ensures
        exists|perm: Seq<int>| sorted_arrangement(sorted@, input@, perm),
{
    let mut out: Vec<(u64, u64)> = Vec::new();
    let ghost mut perm: Seq<int> = Seq::empty();
    for i in 0..input.len()
        invariant
            out.len() == i,
            perm.len() == i,
            forall|k: int| 0 <= k < i ==> 0 <= #[trigger] perm[k] < i && out@[k] == input@[perm[k]],
            forall|a: int, b: int|
                0 <= a < b < i ==> pair_lt(input@[#[trigger] perm[a]], input@[#[trigger] perm[b]])
                    || (input@[perm[a]] == input@[perm[b]] && perm[a] < perm[b]),
    {
        let key = input[i];
        let mut pos: usize = 0;
        while pos < out.len() && !(key.0 < out[pos].0 || (key.0 == out[pos].0 && key.1 < out[pos].1))
            invariant
                out.len() == i,
                perm.len() == i,
                pos <= out.len(),
                forall|k: int| 0 <= k < pos ==> !pair_lt(key, #[trigger] out@[k]),
            decreases out.len() - pos,
        {
            pos = pos + 1;
        }
        proof {
            assert forall|k: int| pos <= k < i implies pair_lt(key, #[trigger] out@[k]) by {
                if k > pos as int {
                    let _ = perm[pos as int];
                    let _ = perm[k];
                    assert(out@[pos as int] == input@[perm[pos as int]]);
                    assert(out@[k] == input@[perm[k]]);
                }
            }
        }
        let ghost old_out = out@;
        let ghost old_perm = perm;
        out.insert(pos, key);
        proof {
            perm = perm.insert(pos as int, i as int);
            assert forall|k: int| 0 <= k < i + 1 implies 0 <= #[trigger] perm[k] < i + 1 && out@[k]
                == input@[perm[k]] by {
                if k < pos {
                    assert(perm[k] == old_perm[k]);
                } else if k > pos {
                    assert(perm[k] == old_perm[k - 1]);
                }
            }
            assert forall|a: int, b: int| 0 <= a < b < i + 1 implies pair_lt(
                input@[#[trigger] perm[a]],
                input@[#[trigger] perm[b]],
            ) || (input@[perm[a]] == input@[perm[b]] && perm[a] < perm[b]) by {
                let _ = old_perm[a];
                let _ = old_perm[b - 1];
                let _ = old_perm[a - 1];
                if b == pos {
                    assert(old_out[a] == input@[old_perm[a]]);
                } else if a == pos {
                    assert(old_out[b - 1] == input@[old_perm[b - 1]]);
                } else if a < pos && b > pos {
                    assert(perm[b] == old_perm[b - 1]);
                } else if a > pos {
                    assert(perm[a] == old_perm[a - 1]);
                    assert(perm[b] == old_perm[b - 1]);
                }
            }
        }
    }
    proof {
        assert(sorted_arrangement(out@, input@, perm));
    }
    out
}

/// The running, due timers to promote, as `(deadline, generation)` in ascending order.
pub fn due_timer_order(timers: &Vec<TimerEntry>) -> (due: Vec<(u64, u64)>)
    ensures
        exists|perm: Seq<int>|
            sorted_arrangement(due@, spec_due_pairs(timers@, timers@.len() as int), perm),
{
    let mut pairs: Vec<(u64, u64)> = Vec::new();
    let mut k: usize = 0;
    while k < timers.len()
        invariant
            k <= timers@.len(),
            pairs@ == spec_due_pairs(timers@, k as int),
        decreases timers.len() - k,
    {
        let t = timers[k];
        if t.running && t.due {
            pairs.push((t.deadline, t.generation));
        }
        k = k + 1;
    }
    sort_pairs(&pairs)
}

/// Pending scheduler work that a host loop can observe without running it.
#[derive(Clone, Copy, Debug, PartialEq, Eq, Structural)]
pub struct SchedulerObservation {
    pub completion_imports_pending: bool,
    pub due_timers_pending: bool,
    pub local_polls_pending: bool,
    pub mandatory_derived_work_pending: bool,
    pub next_deadline: Option<u64>,
    pub publication_dirty: bool,
}

/// Whether `deadline` is the earliest deadline of a running timer.
pub open spec fn spec_is_next_deadline(timers: Seq<TimerEntry>, deadline: u64) -> bool {
    &&& exists|i: int| 0 <= i < timers.len() && #[trigger] timers[i].running && timers[i].deadline == deadline
    &&& forall|i: int| 0 <= i < timers.len() && #[trigger] timers[i].running ==> deadline <= timers[i].deadline
}

/// Observes the scheduler: pending completion imports, due running timers, eligible
/// running local work, pending derived reconciliation, the earliest running timer
/// deadline, and publication dirtiness.
pub fn scheduler_observation(
    completion_imports: usize,
    timers: &Vec<TimerEntry>,
    tasks: &Vec<LocalWorkEntry>,
    subscriptions: &Vec<LocalWorkEntry>,
    reconcile_pending: usize,
    publication_dirty: bool,
) -> (observation: SchedulerObservation)
    ensures
        observation.completion_imports_pending == (completion_imports > 0),
        observation.due_timers_pending == exists|i: int|
            0 <= i < timers@.len() && #[trigger] timers@[i].running && timers@[i].due,
        observation.local_polls_pending == (exists|i: int|
            0 <= i < tasks@.len() && #[trigger] tasks@[i].eligible) || (exists|i: int|
            0 <= i < subscriptions@.len() && #[trigger] subscriptions@[i].eligible),
        observation.mandatory_derived_work_pending == (reconcile_pending > 0),
        match observation.next_deadline {
            Some(d) => spec_is_next_deadline(timers@, d),
            None => forall|i: int| 0 <= i < timers@.len() ==> !#[trigger] timers@[i].running,
        },
        observation.publication_dirty == publication_dirty,
{
    let mut due = false;
    let mut next: Option<u64> = None;
    let mut k: usize = 0;
    while k < timers.len()
        invariant
            k <= timers@.len(),
            due == exists|i: int| 0 <= i < k && #[trigger] timers@[i].running && timers@[i].due,
            match next {
                Some(d) => {
                    &&& exists|i: int|
                        0 <= i < k && #[trigger] timers@[i].running && timers@[i].deadline == d
                    &&& forall|i: int|
                        0 <= i < k && #[trigger] timers@[i].running ==> d <= timers@[i].deadline
                },
                None => forall|i: int| 0 <= i < k ==> !#[trigger] timers@[i].running,
            },
        decreases timers.len() - k,
    {
        let t = timers[k];
        if t.running {
            if t.due {
                due = true;
            }
            let earlier = match next {
                Some(d) => t.deadline < d,
                None => true,
            };
            if earlier {
                next = Some(t.deadline);
            }
        }
        k = k + 1;
    }
    let mut local = false;
    let mut j: usize = 0;
    while j < tasks.len()
        invariant
            j <= tasks@.len(),
            local == exists|i: int| 0 <= i < j && #[trigger] tasks@[i].eligible,
        decreases tasks.len() - j,
    {
        if tasks[j].eligible {
            local = true;
        }
        j = j + 1;
    }
    let mut subscription_local = false;
    let mut m: usize = 0;
    while m < subscriptions.len()
        invariant
            m <= subscriptions@.len(),
            subscription_local == exists|i: int| 0 <= i < m && #[trigger] subscriptions@[i].eligible,
        decreases subscriptions.len() - m,
    {
        if subscriptions[m].eligible {
            subscription_local = true;
        }
        m = m + 1;
    }
    SchedulerObservation {
        completion_imports_pending: completion_imports > 0,
        due_timers_pending: due,
        local_polls_pending: local || subscription_local,
        mandatory_derived_work_pending: reconcile_pending > 0,
        next_deadline: next,
        publication_dirty,
    }
}

/// Kind of completion delivered by send work.
#[derive(Clone, Copy, Debug, PartialEq, Eq, Structural)]
pub enum CompletionKind {
    SendTask,
    Subscription,
    HostResponse,
}

/// Work family a completion belongs to.
pub fn completion_family(kind: CompletionKind) -> (family: WorkFamily)
    ensures
        family == match kind {
            CompletionKind::SendTask => WorkFamily::SendTask,
            CompletionKind::Subscription => WorkFamily::Subscription,
            CompletionKind::HostResponse => WorkFamily::HostRequest,
        },
{
    match kind {
        CompletionKind::SendTask => WorkFamily::SendTask,
        CompletionKind::Subscription => WorkFamily::Subscription,
        CompletionKind::HostResponse => WorkFamily::HostRequest,
    }
}

/// Outcome of one timer firing.
#[derive(Clone, Copy, Debug, PartialEq, Eq, Structural)]
pub enum TimerFireOutcome {
    Completed,
    Rescheduled,
    RepeatDeadlineOverflow,
}

/// Terminal outcome of a timer, as traced.
#[derive(Clone, Copy, Debug, PartialEq, Eq, Structural)]
pub enum TraceTimerTerminalOutcome {
    Completed,
    RepeatDeadlineOverflow,
}

/// The traced terminal outcome of a firing, or `None` when the timer was rescheduled and
/// stays live.
pub fn timer_terminal_outcome(outcome: TimerFireOutcome) -> (terminal: Option<TraceTimerTerminalOutcome>)
    ensures
        terminal == match outcome {
            TimerFireOutcome::Completed => Some(TraceTimerTerminalOutcome::Completed),
            TimerFireOutcome::Rescheduled => None::<TraceTimerTerminalOutcome>,
            TimerFireOutcome::RepeatDeadlineOverflow => Some(
                TraceTimerTerminalOutcome::RepeatDeadlineOverflow,
            ),
        },
{
    match outcome {
        TimerFireOutcome::Completed => Some(TraceTimerTerminalOutcome::Completed),
        TimerFireOutcome::Rescheduled => None,
        TimerFireOutcome::RepeatDeadlineOverflow => Some(
            TraceTimerTerminalOutcome::RepeatDeadlineOverflow,
        ),
    }
}

/// Why a work start was refused, as traced.
#[derive(Clone, Copy, Debug, PartialEq, Eq, Structural)]
pub enum TraceWorkStartRefusal {
    TimerZeroInterval,
    TimerDeadlineOverflow,
    ExecutorUnavailable,
    ExecutorFull,
    ExecutorClosed,
    ExecutorRejected,
    SubscriptionUnavailable,
    SubscriptionFull,
    SubscriptionClosed,
    SubscriptionRejected,
}

/// Why a timer could not start.
#[derive(Clone, Copy, Debug, PartialEq, Eq, Structural)]
pub enum TimerStartError {
    ZeroInterval,
    DeadlineOverflow,
}

/// Last observed timer start outcome.
#[derive(Clone, Copy, Debug, PartialEq, Eq, Structural)]
pub enum TimerStartOutcome {
    Started,
    ZeroInterval,
    DeadlineOverflow,
}

/// Outcome and traced refusal of a refused timer start.
pub fn timer_start_refusal(error: TimerStartError) -> (refusal: (TimerStartOutcome, TraceWorkStartRefusal))
    ensures
        refusal == match error {
            TimerStartError::ZeroInterval => (
                TimerStartOutcome::ZeroInterval,
                TraceWorkStartRefusal::TimerZeroInterval,
            ),
            TimerStartError::DeadlineOverflow => (
                TimerStartOutcome::DeadlineOverflow,
                TraceWorkStartRefusal::TimerDeadlineOverflow,
            ),
        },
{
    match error {
        TimerStartError::ZeroInterval => (
            TimerStartOutcome::ZeroInterval,
            TraceWorkStartRefusal::TimerZeroInterval,
        ),
        TimerStartError::DeadlineOverflow => (
            TimerStartOutcome::DeadlineOverflow,
            TraceWorkStartRefusal::TimerDeadlineOverflow,
        ),
    }
}

/// Why a send executor refused a job.
#[derive(Clone, Copy, Debug, PartialEq, Eq, Structural)]
pub enum SendTaskStartErrorKind {
    Unavailable,
    Full,
    Closed,
    Rejected,
}

/// Last observed send task start outcome.
#[derive(Clone, Copy, Debug, PartialEq, Eq, Structural)]
pub enum SendTaskStartOutcome {
    Started,
    Unavailable,
    Full,
    Closed,
    Rejected,
}

/// Failure handed to a send task's start-failure mapper.
#[derive(Clone, Copy, Debug, PartialEq, Eq, Structural)]
pub enum SendTaskStartFailure {
    Unavailable,
    Full,
    Closed,
    Rejected,
}

/// Outcome, mapped failure, and traced refusal of a refused send task start.
pub fn send_task_start_refusal(error: SendTaskStartErrorKind) -> (refusal: (
    SendTaskStartOutcome,
    SendTaskStartFailure,
    TraceWorkStartRefusal,
))
    ensures
        refusal == match error {
            SendTaskStartErrorKind::Unavailable => (
                SendTaskStartOutcome::Unavailable,
                SendTaskStartFailure::Unavailable,
                TraceWorkStartRefusal::ExecutorUnavailable,
            ),
            SendTaskStartErrorKind::Full => (
                SendTaskStartOutcome::Full,
                SendTaskStartFailure::Full,
                TraceWorkStartRefusal::ExecutorFull,
            ),
            SendTaskStartErrorKind::Closed => (
                SendTaskStartOutcome::Closed,
                SendTaskStartFailure::Closed,
                TraceWorkStartRefusal::ExecutorClosed,
            ),
            SendTaskStartErrorKind::Rejected => (
                SendTaskStartOutcome::Rejected,
                SendTaskStartFailure::Rejected,
                TraceWorkStartRefusal::ExecutorRejected,
            ),
        },
{
    match error {
        SendTaskStartErrorKind::Unavailable => (
            SendTaskStartOutcome::Unavailable,
            SendTaskStartFailure::Unavailable,
            TraceWorkStartRefusal::ExecutorUnavailable,
        ),
        SendTaskStartErrorKind::Full => (
            SendTaskStartOutcome::Full,
            SendTaskStartFailure::Full,
            TraceWorkStartRefusal::ExecutorFull,
        ),
        SendTaskStartErrorKind::Closed => (
            SendTaskStartOutcome::Closed,
            SendTaskStartFailure::Closed,
            TraceWorkStartRefusal::ExecutorClosed,
        ),
        SendTaskStartErrorKind::Rejected => (
            SendTaskStartOutcome::Rejected,
            SendTaskStartFailure::Rejected,
            TraceWorkStartRefusal::ExecutorRejected,
        ),
    }
}

/// Outcome of starting a send subscription.
#[derive(Clone, Copy, Debug, PartialEq, Eq, Structural)]
pub enum SendSubscriptionStartOutcome {
    Started,
    Unavailable,
    Full,
    Closed,
    Rejected,
}

/// Traced refusal of a subscription start that did not start.
pub fn subscription_start_refusal(outcome: SendSubscriptionStartOutcome) -> (refusal: TraceWorkStartRefusal)
    requires
        outcome != SendSubscriptionStartOutcome::Started,
    ensures
        refusal == match outcome {
            SendSubscriptionStartOutcome::Unavailable => TraceWorkStartRefusal::SubscriptionUnavailable,
            SendSubscriptionStartOutcome::Full => TraceWorkStartRefusal::SubscriptionFull,
            SendSubscriptionStartOutcome::Closed => TraceWorkStartRefusal::SubscriptionClosed,
            _ => TraceWorkStartRefusal::SubscriptionRejected,
        },
{
    match outcome {
        SendSubscriptionStartOutcome::Unavailable => TraceWorkStartRefusal::SubscriptionUnavailable,
        SendSubscriptionStartOutcome::Full => TraceWorkStartRefusal::SubscriptionFull,
        SendSubscriptionStartOutcome::Closed => TraceWorkStartRefusal::SubscriptionClosed,
        _ => TraceWorkStartRefusal::SubscriptionRejected,
    }
}

/// The pending reconciliation owners other than `owner`, in order.
pub open spec fn spec_without_owner(pending: Seq<MountedNodeId>, owner: MountedNodeId) -> Seq<MountedNodeId> {
    pending.filter(|p: MountedNodeId| p != owner)
}

/// Drops every pending reconciliation of `owner`, keeping the others in order.
pub fn remove_pending_owner(pending: &mut Vec<MountedNodeId>, owner: &MountedNodeId)
    ensures
        final(pending)@ == spec_without_owner(old(pending)@, *owner),
{
    let ghost start = pending@;
    let mut kept: Vec<MountedNodeId> = Vec::new();
    let mut k: usize = 0;
    while k < pending.len()
        invariant
            k <= pending@.len(),
            pending@ == start,
            kept@ == spec_without_owner(start.take(k as int), *owner),
        decreases pending.len() - k,
    {
        let p = pending[k];
        proof {
            assert(start.take(k + 1).drop_last() =~= start.take(k as int));
            assert(start.take(k + 1).last() == p);
        }
        let ghost before = kept@;
        if p != *owner {
            kept.push(p);
        }
        proof {
            reveal(Seq::filter);
            let pred = |x: MountedNodeId| x != *owner;
            let next = start.take(k + 1);
            assert(next.len() > 0);
            assert(next.filter(pred) == if pred(next.last()) {
                next.drop_last().filter(pred).push(next.last())
            } else {
                next.drop_last().filter(pred)
            });
            assert(kept@ =~= spec_without_owner(next, *owner));
        }
        k = k + 1;
    }
    proof {
        assert(start.take(start.len() as int) =~= start);
    }
    *pending = kept;
}

/// Why reconciling a subscription diff stops the runtime.
pub open spec fn spec_reconcile_admission(
    generations_available: bool,
    invalidated: usize,
    starts: usize,
    queue_accepts: bool,
    work_accepts: bool,
    trace_admits: bool,
) -> Result<(), RuntimeTerminalReason> {
    if !generations_available {
        Err(RuntimeTerminalReason::Poisoned)
    } else if invalidated + starts > usize::MAX || !queue_accepts || !work_accepts {
        Err(RuntimeTerminalReason::Poisoned)
    } else if !trace_admits {
        Err(RuntimeTerminalReason::TraceSequenceExhausted)
    } else {
        Ok(())
    }
}

/// Admits a subscription diff, or names the terminal state it forces: unavailable work
/// generations or an unplannable queue or work commit poison the runtime; a trace that
/// cannot hold the diff's records exhausts it. `queue_accepts` is whether the queue can
/// take `invalidated + starts` envelopes when that count exists.
pub fn reconcile_admission(
    generations_available: bool,
    invalidated: usize,
    starts: usize,
    queue_accepts: bool,
    work_accepts: bool,
    trace_admits: bool,
) -> (admission: Result<(), RuntimeTerminalReason>)
    ensures
        admission == spec_reconcile_admission(
            generations_available,
            invalidated,
            starts,
            queue_accepts,
            work_accepts,
            trace_admits,
        ),
{
    if !generations_available {
        return Err(RuntimeTerminalReason::Poisoned);
    }
    let sequenced = invalidated.checked_add(starts);
    if sequenced.is_none() || !queue_accepts || !work_accepts {
        return Err(RuntimeTerminalReason::Poisoned);
    }
    if !trace_admits {
        return Err(RuntimeTerminalReason::TraceSequenceExhausted);
    }
    Ok(())
}

/// What starting one pending effect reported, family by family.
///
/// `refused` is `None` when the timer or executor took the work; `failure_output_admitted`
/// says whether the output preflight admitted the action of a send task's failure mapper;
/// `marked_running` says whether the work was still pending when it was marked as running;
/// `promoted` whether send work was promoted from starting to running.
#[derive(Clone, Copy, Debug, PartialEq, Eq, Structural)]
pub enum EffectStartReport {
    /// The pending effect does not belong to the family it was scheduled under.
    EffectMismatch,
    LocalTask { marked_running: bool },
    Timer { refused: Option<TimerStartError>, marked_running: bool },
    SendTask {
        refused: Option<SendTaskStartErrorKind>,
        promoted: bool,
        marked_running: bool,
        has_failure_mapper: bool,
        failure_output_admitted: bool,
    },
    /// `outcome` is `None` when the subscription started without a send sink.
    Subscription { outcome: Option<SendSubscriptionStartOutcome>, promoted: bool, marked_running: bool },
    HostRequest { marked_running: bool },
}

/// Start outcome that the runtime keeps as the last one observed for its family.
#[derive(Clone, Copy, Debug, PartialEq, Eq, Structural)]
pub enum StartNote {
    Unchanged,
    Timer(TimerStartOutcome),
    SendTask(SendTaskStartOutcome),
}

/// What the runtime does after one effect start attempt.
#[derive(Clone, Copy, Debug, PartialEq, Eq, Structural)]
pub enum EffectStartStep {
    /// The runtime enters the terminal state with this reason.
    Terminal(RuntimeTerminalReason),
    /// The work left the pending state meanwhile: nothing more is recorded.
    Abandoned { release_subscription: bool },
    /// The start is undone: the generation is revoked and nothing is recorded.
    Revoked,
    /// The work runs and its acceptance is recorded; a host request is also exposed.
    Accepted { note: StartNote, release_subscription: bool, expose_host_request: bool },
    /// The start was refused: the refusal is recorded and the generation revoked. A send
    /// task with a failure mapper whose callback output was admitted hands `failure` to it.
    Refused {
        refusal: TraceWorkStartRefusal,
        note: StartNote,
        release_subscription: bool,
        failure: Option<SendTaskStartFailure>,
    },
}

/// Decision table of one effect start: `trace_admits` says whether the trace admits the
/// start's mandatory records.
pub open spec fn spec_effect_start_step(trace_admits: bool, report: EffectStartReport) -> EffectStartStep {
    if !trace_admits {
        EffectStartStep::Terminal(RuntimeTerminalReason::TraceSequenceExhausted)
    } else {
        match report {
            EffectStartReport::EffectMismatch => EffectStartStep::Terminal(RuntimeTerminalReason::Poisoned),
            EffectStartReport::LocalTask { marked_running } => if marked_running {
                EffectStartStep::Accepted {
                    note: StartNote::Unchanged,
                    release_subscription: false,
                    expose_host_request: false,
                }
            } else {
                EffectStartStep::Abandoned { release_subscription: false }
            },
            EffectStartReport::Timer { refused, marked_running } => match refused {
                None => if marked_running {
                    EffectStartStep::Accepted {
                        note: StartNote::Timer(TimerStartOutcome::Started),
                        release_subscription: false,
                        expose_host_request: false,
                    }
                } else {
                    EffectStartStep::Abandoned { release_subscription: false }
                },
                Some(error) => {
                    let outcome = match error {
                        TimerStartError::ZeroInterval => TimerStartOutcome::ZeroInterval,
                        TimerStartError::DeadlineOverflow => TimerStartOutcome::DeadlineOverflow,
                    };
                    let refusal = match error {
                        TimerStartError::ZeroInterval => TraceWorkStartRefusal::TimerZeroInterval,
                        TimerStartError::DeadlineOverflow => TraceWorkStartRefusal::TimerDeadlineOverflow,
                    };
                    EffectStartStep::Refused {
                        refusal,
                        note: StartNote::Timer(outcome),
                        release_subscription: false,
                        failure: None,
                    }
                },
            },
            EffectStartReport::SendTask {
                refused,
                promoted,
                marked_running,
                has_failure_mapper,
                failure_output_admitted,
            } => match refused {
                None => if promoted && marked_running {
                    EffectStartStep::Accepted {
                        note: StartNote::SendTask(SendTaskStartOutcome::Started),
                        release_subscription: false,
                        expose_host_request: false,
                    }
                } else {
                    EffectStartStep::Revoked
                },
                Some(error) => {
                    let (outcome, failure, refusal) = match error {
                        SendTaskStartErrorKind::Unavailable => (
                            SendTaskStartOutcome::Unavailable,
                            SendTaskStartFailure::Unavailable,
                            TraceWorkStartRefusal::ExecutorUnavailable,
                        ),
                        SendTaskStartErrorKind::Full => (
                            SendTaskStartOutcome::Full,
                            SendTaskStartFailure::Full,
                            TraceWorkStartRefusal::ExecutorFull,
                        ),
                        SendTaskStartErrorKind::Closed => (
                            SendTaskStartOutcome::Closed,
                            SendTaskStartFailure::Closed,
                            TraceWorkStartRefusal::ExecutorClosed,
                        ),
                        SendTaskStartErrorKind::Rejected => (
                            SendTaskStartOutcome::Rejected,
                            SendTaskStartFailure::Rejected,
                            TraceWorkStartRefusal::ExecutorRejected,
                        ),
                    };
                    EffectStartStep::Refused {
                        refusal,
                        note: StartNote::SendTask(outcome),
                        release_subscription: false,
                        failure: if has_failure_mapper && failure_output_admitted {
                        Some(failure)
                    } else {
                        None
                    },
                    }
                },
            },
            EffectStartReport::Subscription { outcome, promoted, marked_running } => match outcome {
                None => if marked_running {
                    EffectStartStep::Accepted {
                        note: StartNote::Unchanged,
                        release_subscription: true,
                        expose_host_request: false,
                    }
                } else {
                    EffectStartStep::Abandoned { release_subscription: true }
                },
                Some(SendSubscriptionStartOutcome::Started) => if promoted && marked_running {
                    EffectStartStep::Accepted {
                        note: StartNote::Unchanged,
                        release_subscription: false,
                        expose_host_request: false,
                    }
                } else {
                    EffectStartStep::Abandoned { release_subscription: true }
                },
                Some(refused) => EffectStartStep::Refused {
                    refusal: match refused {
                        SendSubscriptionStartOutcome::Unavailable => TraceWorkStartRefusal::SubscriptionUnavailable,
                        SendSubscriptionStartOutcome::Full => TraceWorkStartRefusal::SubscriptionFull,
                        SendSubscriptionStartOutcome::Closed => TraceWorkStartRefusal::SubscriptionClosed,
                        _ => TraceWorkStartRefusal::SubscriptionRejected,
                    },
                    note: StartNote::Unchanged,
                    release_subscription: true,
                    failure: None,
                },
            },
            EffectStartReport::HostRequest { marked_running } => if marked_running {
                EffectStartStep::Accepted {
                    note: StartNote::Unchanged,
                    release_subscription: false,
                    expose_host_request: true,
                }
            } else {
                EffectStartStep::Abandoned { release_subscription: false }
            },
        }
    }
}

/// Decides what follows one effect start attempt.
pub fn effect_start_step(trace_admits: bool, report: EffectStartReport) -> (step: EffectStartStep)
    ensures
        step == spec_effect_start_step(trace_admits, report),
{
    if !trace_admits {
        return EffectStartStep::Terminal(RuntimeTerminalReason::TraceSequenceExhausted);
    }
    match report {
        EffectStartReport::EffectMismatch => EffectStartStep::Terminal(RuntimeTerminalReason::Poisoned),
        EffectStartReport::LocalTask { marked_running } => if marked_running {
            EffectStartStep::Accepted {
                note: StartNote::Unchanged,
                release_subscription: false,
                expose_host_request: false,
            }
        } else {
            EffectStartStep::Abandoned { release_subscription: false }
        },
        EffectStartReport::Timer { refused, marked_running } => match refused {
            None => if marked_running {
                EffectStartStep::Accepted {
                    note: StartNote::Timer(TimerStartOutcome::Started),
                    release_subscription: false,
                    expose_host_request: false,
                }
            } else {
                EffectStartStep::Abandoned { release_subscription: false }
            },
            Some(error) => {
                let (outcome, refusal) = timer_start_refusal(error);
                EffectStartStep::Refused {
                    refusal,
                    note: StartNote::Timer(outcome),
                    release_subscription: false,
                    failure: None,
                }
            },
        },
        EffectStartReport::SendTask {
                refused,
                promoted,
                marked_running,
                has_failure_mapper,
                failure_output_admitted,
            } => match refused {
            None => if promoted && marked_running {
                EffectStartStep::Accepted {
                    note: StartNote::SendTask(SendTaskStartOutcome::Started),
                    release_subscription: false,
                    expose_host_request: false,
                }
            } else {
                EffectStartStep::Revoked
            },
            Some(error) => {
                let (outcome, failure, refusal) = send_task_start_refusal(error);
                EffectStartStep::Refused {
                    refusal,
                    note: StartNote::SendTask(outcome),
                    release_subscription: false,
                    failure: if has_failure_mapper && failure_output_admitted {
                        Some(failure)
                    } else {
                        None
                    },
                }
            },
        },
        EffectStartReport::Subscription { outcome, promoted, marked_running } => match outcome {
            None => if marked_running {
                EffectStartStep::Accepted {
                    note: StartNote::Unchanged,
                    release_subscription: true,
                    expose_host_request: false,
                }
            } else {
                EffectStartStep::Abandoned { release_subscription: true }
            },
            Some(SendSubscriptionStartOutcome::Started) => if promoted && marked_running {
                EffectStartStep::Accepted {
                    note: StartNote::Unchanged,
                    release_subscription: false,
                    expose_host_request: false,
                }
            } else {
                EffectStartStep::Abandoned { release_subscription: true }
            },
            Some(refused) => EffectStartStep::Refused {
                refusal: subscription_start_refusal(refused),
                note: StartNote::Unchanged,
                release_subscription: true,
                failure: None,
            },
        },
        EffectStartReport::HostRequest { marked_running } => if marked_running {
            EffectStartStep::Accepted {
                note: StartNote::Unchanged,
                release_subscription: false,
                expose_host_request: true,
            }
        } else {
            EffectStartStep::Abandoned { release_subscription: false }
        },
    }
}

/// A start is accepted exactly when the trace admits it, the effect matches its family, the
/// work is marked running, and whatever executor or sink it went to took it; only an
/// accepted host request is exposed to the host.
pub proof fn lemma_accepted_starts_are_running(trace_admits: bool, report: EffectStartReport)
    ensures
        spec_effect_start_step(trace_admits, report) is Accepted <==> {
            &&& trace_admits
            &&& match report {
                EffectStartReport::EffectMismatch => false,
                EffectStartReport::LocalTask { marked_running } => marked_running,
                EffectStartReport::Timer { refused, marked_running } => refused is None && marked_running,
                EffectStartReport::SendTask { refused, promoted, marked_running, .. } =>
                    refused is None && promoted && marked_running,
                EffectStartReport::Subscription { outcome, promoted, marked_running } => match outcome {
                    None => marked_running,
                    Some(o) => o == SendSubscriptionStartOutcome::Started && promoted && marked_running,
                },
                EffectStartReport::HostRequest { marked_running } => marked_running,
            }
        },
        spec_effect_start_step(trace_admits, report) matches EffectStartStep::Accepted {
            expose_host_request, ..
        } ==> (expose_host_request <==> report is HostRequest),
{
}

/// Whether the completion at the front of the ingress is imported now.
#[derive(Clone, Copy, Debug, PartialEq, Eq, Structural)]
pub enum CompletionAdmission {
    /// Pop and import the completion.
    Import,
    /// Leave it queued and stop importing in this turn.
    Stop,
    /// The trace cannot record even a rejection: the runtime becomes terminal.
    Terminal(RuntimeTerminalReason),
}

/// Admits the front completion: live work of its family needs its callback output
/// preflight (`preflight_admits`) to pass; a completion of work that is no longer live only
/// needs the trace to admit one record (`trace_admits_one`) for its rejection.
pub fn completion_admission(live_in_family: bool, preflight_admits: bool, trace_admits_one: bool) -> (admission:
    CompletionAdmission)
    ensures
        admission == if live_in_family {
            if preflight_admits {
                CompletionAdmission::Import
            } else {
                CompletionAdmission::Stop
            }
        } else if trace_admits_one {
            CompletionAdmission::Import
        } else {
            CompletionAdmission::Terminal(RuntimeTerminalReason::TraceSequenceExhausted)
        },
{
    if live_in_family {
        if preflight_admits {
            CompletionAdmission::Import
        } else {
            CompletionAdmission::Stop
        }
    } else if trace_admits_one {
        CompletionAdmission::Import
    } else {
        CompletionAdmission::Terminal(RuntimeTerminalReason::TraceSequenceExhausted)
    }
}

/// What the runtime found for one popped completion.
#[derive(Clone, Copy, Debug, PartialEq, Eq, Structural)]
pub enum CompletionFacts {
    /// A subscription output; `started` says whether a started send subscription of that
    /// generation is live.
    Subscription { started: bool },
    /// A host response; `typed` says whether it has the protocol's response type,
    /// `request_live` whether its request is still running, and `kind_matches` whether its
    /// kind is the one the request expects.
    HostResponse { typed: bool, request_live: bool, kind_matches: bool },
    /// A send task output; `mapper_found` says whether the task's mapper is still held.
    SendTask { mapper_found: bool },
}

/// What importing one popped completion does.
#[derive(Clone, Copy, Debug, PartialEq, Eq, Structural)]
pub enum CompletionImportStep {
    /// The work is no longer running: record the stale rejection, and release a host
    /// response's ingress slot.
    RejectStale { release_host_response: bool },
    /// Record the import and drop the output, releasing a host response's ingress slot.
    Drop { release_host_response: bool },
    /// Record the import, map the output through the subscription, and queue the action.
    MapSubscription,
    /// Record the import and the accepted response, map it through the request, revoke
    /// the request's generation, and queue the action.
    AcceptHostResponse,
    /// Record the import, map the output through the task's mapper, revoke the task's
    /// generation, and queue the action.
    MapSendTask,
}

/// Decides what importing one popped completion does; `running` says whether its work is
/// still running.
pub fn completion_import_step(running: bool, facts: CompletionFacts) -> (step: CompletionImportStep)
    ensures
        step == if !running {
            CompletionImportStep::RejectStale { release_host_response: facts is HostResponse }
        } else {
            match facts {
                CompletionFacts::Subscription { started } => if started {
                    CompletionImportStep::MapSubscription
                } else {
                    CompletionImportStep::Drop { release_host_response: false }
                },
                CompletionFacts::HostResponse { typed, request_live, kind_matches } => if typed
                    && request_live && kind_matches {
                    CompletionImportStep::AcceptHostResponse
                } else {
                    CompletionImportStep::Drop { release_host_response: true }
                },
                CompletionFacts::SendTask { mapper_found } => if mapper_found {
                    CompletionImportStep::MapSendTask
                } else {
                    CompletionImportStep::Drop { release_host_response: false }
                },
            }
        },
{
    if !running {
        let release_host_response = match facts {
            CompletionFacts::HostResponse { .. } => true,
            _ => false,
        };
        return CompletionImportStep::RejectStale { release_host_response };
    }
    match facts {
        CompletionFacts::Subscription { started } => if started {
            CompletionImportStep::MapSubscription
        } else {
            CompletionImportStep::Drop { release_host_response: false }
        },
        CompletionFacts::HostResponse { typed, request_live, kind_matches } => if typed && request_live
            && kind_matches {
            CompletionImportStep::AcceptHostResponse
        } else {
            CompletionImportStep::Drop { release_host_response: true }
        },
        CompletionFacts::SendTask { mapper_found } => if mapper_found {
            CompletionImportStep::MapSendTask
        } else {
            CompletionImportStep::Drop { release_host_response: false }
        },
    }
}

/// Whether exactly one declaration has `s`'s key, and that declaration has `s`'s source
/// type and revision.
pub open spec fn matched_by_unique_declaration(
    declarations: Seq<SubscriptionDeclaration>,
    s: LiveSubscriptionEntry,
) -> bool {
    exists|i: int|
        0 <= i < declarations.len() && #[trigger] declarations[i].key == s.key && declarations[i].source_type
            == s.source_type && declarations[i].revision == s.revision && forall|m: int|
            0 <= m < declarations.len() && #[trigger] declarations[m].key == s.key ==> m == i
}

proof fn lemma_key_count(declarations: Seq<SubscriptionDeclaration>, key: u64, n: int)
    requires
        0 <= n <= declarations.len(),
    ensures
        spec_key_count(declarations, key, n) == 0 <==> forall|m: int|
            0 <= m < n ==> #[trigger] declarations[m].key != key,
        spec_key_count(declarations, key, n) == 1 <==> exists|i: int|
            0 <= i < n && #[trigger] declarations[i].key == key && forall|m: int|
                0 <= m < n && #[trigger] declarations[m].key == key ==> m == i,
    decreases n,
{
    if n > 0 {
        lemma_key_count(declarations, key, n - 1);
        let last = n - 1;
        if declarations[last].key == key {
            if spec_key_count(declarations, key, n) == 1 {
                assert(forall|m: int| 0 <= m < n && #[trigger] declarations[m].key == key ==> m == last);
            }
            if exists|i: int|
                0 <= i < n && #[trigger] declarations[i].key == key && forall|m: int|
                    0 <= m < n && #[trigger] declarations[m].key == key ==> m == i {
                let i = choose|i: int|
                    0 <= i < n && #[trigger] declarations[i].key == key && forall|m: int|
                        0 <= m < n && #[trigger] declarations[m].key == key ==> m == i;
                assert(i == last);
                assert forall|m: int| 0 <= m < last implies #[trigger] declarations[m].key != key by {
                    if declarations[m].key == key {
                        assert(m == i);
                    }
                }
            }
        } else {
            if spec_key_count(declarations, key, n) == 1 {
                let i = choose|i: int|
                    0 <= i < last && #[trigger] declarations[i].key == key && forall|m: int|
                        0 <= m < last && #[trigger] declarations[m].key == key ==> m == i;
                assert forall|m: int| 0 <= m < n && #[trigger] declarations[m].key == key implies m == i by {
                    if m < last {
                    }
                }
            }
            if exists|i: int|
                0 <= i < n && #[trigger] declarations[i].key == key && forall|m: int|
                    0 <= m < n && #[trigger] declarations[m].key == key ==> m == i {
                let i = choose|i: int|
                    0 <= i < n && #[trigger] declarations[i].key == key && forall|m: int|
                        0 <= m < n && #[trigger] declarations[m].key == key ==> m == i;
                assert(i < last);
                assert(exists|i2: int|
                    0 <= i2 < last && #[trigger] declarations[i2].key == key && forall|m: int|
                        0 <= m < last && #[trigger] declarations[m].key == key ==> m == i2);
            }
            if spec_key_count(declarations, key, n) == 0 {
                assert forall|m: int| 0 <= m < n implies #[trigger] declarations[m].key != key by {
                    if m < last {
                    }
                }
            }
        }
    }
}

proof fn lemma_desired_is_unique_match(declarations: Seq<SubscriptionDeclaration>, s: LiveSubscriptionEntry)
    ensures
        spec_desired(declarations, s.key, s.source_type, s.revision) <==> matched_by_unique_declaration(
            declarations,
            s,
        ),
{
    lemma_key_count(declarations, s.key, declarations.len() as int);
    let exact = SubscriptionDeclaration { key: s.key, source_type: s.source_type, revision: s.revision };
    if spec_desired(declarations, s.key, s.source_type, s.revision) {
        let i = choose|i: int| 0 <= i < declarations.len() && #[trigger] declarations[i] == exact;
        let u = choose|u: int|
            0 <= u < declarations.len() && #[trigger] declarations[u].key == s.key && forall|m: int|
                0 <= m < declarations.len() && #[trigger] declarations[m].key == s.key ==> m == u;
        assert(declarations[i].key == s.key);
        assert(i == u);
    }
    if matched_by_unique_declaration(declarations, s) {
        let i = choose|i: int|
            0 <= i < declarations.len() && #[trigger] declarations[i].key == s.key && declarations[i].source_type
                == s.source_type && declarations[i].revision == s.revision && forall|m: int|
                0 <= m < declarations.len() && #[trigger] declarations[m].key == s.key ==> m == i;
        assert(declarations[i] == exact);
    }
}

proof fn lemma_invalidated_members(
    live: Seq<LiveSubscriptionEntry>,
    owner: WorkOwner,
    declarations: Seq<SubscriptionDeclaration>,
    n: int,
    x: u64,
)
    requires
        0 <= n <= live.len(),
    ensures
        spec_invalidated(live, owner, declarations, n).contains(x) <==> exists|j: int|
            0 <= j < n && #[trigger] live[j].generation == x && spec_invalidates(live[j], owner, declarations),
    decreases n,
{
    if n > 0 {
        lemma_invalidated_members(live, owner, declarations, n - 1, x);
        let prefix = spec_invalidated(live, owner, declarations, n - 1);
        let full = spec_invalidated(live, owner, declarations, n);
        if full.contains(x) {
            let k = choose|k: int| 0 <= k < full.len() && full[k] == x;
            if k < prefix.len() {
                assert(prefix[k] == x);
            } else {
                assert(live[n - 1].generation == x);
            }
        }
        if exists|j: int|
            0 <= j < n && #[trigger] live[j].generation == x && spec_invalidates(live[j], owner, declarations) {
            let j = choose|j: int|
                0 <= j < n && #[trigger] live[j].generation == x && spec_invalidates(live[j], owner, declarations);
            if j == n - 1 {
                assert(full[full.len() - 1] == x);
            } else {
                let k = choose|k: int| 0 <= k < prefix.len() && prefix[k] == x;
                assert(full[k] == x);
            }
        }
    }
}

/// A live subscription of the owner survives reconciliation only when exactly one
/// declaration has its key and that declaration also has its source type and revision:
/// every other live subscription of the owner (another source type, another revision, an
/// undeclared key, or a key declared twice) is invalidated, and nothing else is.
pub proof fn lemma_unmatched_subscriptions_are_invalidated(
    live: Seq<LiveSubscriptionEntry>,
    owner: WorkOwner,
    declarations: Seq<SubscriptionDeclaration>,
)
    ensures
        ({
            let invalidated = spec_invalidated(live, owner, declarations, live.len() as int);
            &&& forall|j: int|
                0 <= j < live.len() && live[j].owner == owner && !matched_by_unique_declaration(
                    declarations,
                    #[trigger] live[j],
                ) ==> invalidated.contains(live[j].generation)
            &&& forall|x: u64|
                #[trigger] invalidated.contains(x) ==> exists|j: int|
                    0 <= j < live.len() && #[trigger] live[j].generation == x && live[j].owner == owner
                        && !matched_by_unique_declaration(declarations, live[j])
        }),
{
    let n = live.len() as int;
    let invalidated = spec_invalidated(live, owner, declarations, n);
    assert forall|j: int|
        0 <= j < live.len() && live[j].owner == owner && !matched_by_unique_declaration(
            declarations,
            #[trigger] live[j],
        ) implies invalidated.contains(live[j].generation) by {
        lemma_desired_is_unique_match(declarations, live[j]);
        lemma_invalidated_members(live, owner, declarations, n, live[j].generation);
        assert(spec_invalidates(live[j], owner, declarations));
    }
    assert forall|x: u64| #[trigger] invalidated.contains(x) implies exists|j: int|
        0 <= j < live.len() && #[trigger] live[j].generation == x && live[j].owner == owner
            && !matched_by_unique_declaration(declarations, live[j]) by {
        lemma_invalidated_members(live, owner, declarations, n, x);
        let j = choose|j: int|
            0 <= j < n && #[trigger] live[j].generation == x && spec_invalidates(live[j], owner, declarations);
        lemma_desired_is_unique_match(declarations, live[j]);
    }
}

} // verus!

