use vstd::prelude::*;

use crate::cache::{
    spec_fresh_at, spec_hit, spec_swept, SpecCacheEntry, TtlCache, TTL_SECONDS,
};
use crate::document::DocValue;
use crate::normalize::{normalize_document, spec_normalize};
use crate::snapshot::{default_snapshot, spec_default_snapshot, ProfileSnapshot, SpecSnapshot};

verus! {

/// What one dispatched fetch came back as: a transport-level failure, or a
/// payload document (an upstream failure status or unparsable body is already
/// a `Null` document, not a transport failure).
pub enum FetchOutcome {
    Transport,
    Payload(DocValue),
}

/// The first half of a batch resolution: one slot per requested identifier,
/// filled for cache hits, and the identifiers still to fetch, in input order.
pub struct BatchPlan {
    pub resolved: Vec<Option<ProfileSnapshot>>,
    pub misses: Vec<String>,
}

pub open spec fn opt_snap_view(o: Option<ProfileSnapshot>) -> Option<SpecSnapshot> {
    match o {
        Some(s) => Some(s@),
        None => None,
    }
}

/// The per-position cache outcome for a batch against mapping `m`.
pub open spec fn spec_resolved(
    m: Map<Seq<char>, SpecCacheEntry>,
    ids: Seq<String>,
    now: u64,
) -> Seq<Option<SpecSnapshot>> {
    Seq::new(
        ids.len(),
        |i: int|
            if spec_hit(m, ids[i]@, now) {
                Some(m[ids[i]@].snapshot)
            } else {
                None
            },
    )
}

/// The identifiers of a batch that miss against mapping `m`, in input order,
/// duplicates kept.
pub open spec fn spec_missing(
    m: Map<Seq<char>, SpecCacheEntry>,
    ids: Seq<String>,
    now: u64,
) -> Seq<String>
    decreases ids.len(),
{
    if ids.len() == 0 {
        Seq::empty()
    } else {
        let init = spec_missing(m, ids.drop_last(), now);
        if spec_hit(m, ids.last()@, now) {
            init
        } else {
            init.push(ids.last())
        }
    }
}

/// How many slots of a plan are still to fill.
pub open spec fn none_count(resolved: Seq<Option<ProfileSnapshot>>) -> int
    decreases resolved.len(),
{
    if resolved.len() == 0 {
        0
    } else {
        none_count(resolved.drop_last()) + (if resolved.last() is None {
            1int
        } else {
            0int
        })
    }
}

/// The record a completed fetch stands for: a transport failure becomes the
/// defaulted record, a payload is normalized.
pub open spec fn spec_outcome_snapshot(username: String, o: FetchOutcome) -> SpecSnapshot {
    match o {
        FetchOutcome::Transport => spec_default_snapshot(username@),
        FetchOutcome::Payload(d) => spec_normalize(username@, d),
    }
}

/// The record at position `i` of the merged batch: the cached one, or the
/// outcome of the fetch that fills this slot (slots are filled in order).
pub open spec fn spec_slot_result(
    resolved: Seq<Option<ProfileSnapshot>>,
    misses: Seq<String>,
    outcomes: Seq<FetchOutcome>,
    i: int,
) -> SpecSnapshot {
    match resolved[i] {
        Some(s) => s@,
        None => {
            let j = none_count(resolved.subrange(0, i));
            spec_outcome_snapshot(misses[j], outcomes[j])
        },
    }
}

/// The mapping after the first `n` fetch outcomes are folded in: each payload
/// overwrites its identifier's entry at time `now`; a transport failure writes
/// nothing.
pub open spec fn spec_cache_after(
    m: Map<Seq<char>, SpecCacheEntry>,
    misses: Seq<String>,
    outcomes: Seq<FetchOutcome>,
    n: int,
    now: u64,
) -> Map<Seq<char>, SpecCacheEntry>
    decreases n,
{
    if n <= 0 {
        m
    } else {
        let prev = spec_cache_after(m, misses, outcomes, n - 1, now);
        match outcomes[n - 1] {
            FetchOutcome::Transport => prev,
            FetchOutcome::Payload(d) => prev.insert(
                misses[n - 1]@,
                SpecCacheEntry { snapshot: spec_normalize(misses[n - 1]@, d), stamp: now },
            ),
        }
    }
}

/// Sweeps the store, then records a hit or a miss per identifier, in input
/// order. The identifiers of the miss slots, in order, are the plan's fetch
/// list; duplicates each get their own fetch.
pub fn plan_batch(cache: &mut TtlCache, usernames: &Vec<String>, now: u64) -> (r: BatchPlan)
    requires
        old(cache).wf(),
    ensures
        final(cache).wf(),
        final(cache)@ == spec_swept(old(cache)@, now),
        r.resolved@.len() == usernames@.len(),
        forall|t: int|
            0 <= t < usernames@.len() ==> opt_snap_view(#[trigger] r.resolved@[t]) == spec_resolved(
                final(cache)@,
                usernames@,
                now,
            )[t],
        r.misses@ == spec_missing(final(cache)@, usernames@, now),
        none_count(r.resolved@) == r.misses@.len(),
{
    cache.sweep_expired(now);
    let ghost m = cache@;
    let mut resolved: Vec<Option<ProfileSnapshot>> = Vec::new();
    let mut misses: Vec<String> = Vec::new();
    proof {
        assert(usernames@.subrange(0, 0) =~= Seq::<String>::empty());
        assert(misses@ =~= spec_missing(m, usernames@.subrange(0, 0), now));
    }
    let mut i: usize = 0;
    while i < usernames.len()
        invariant
            i <= usernames@.len(),
            cache.wf(),
            cache@ == m,
            resolved@.len() == i,
            forall|t: int|
                0 <= t < i ==> opt_snap_view(#[trigger] resolved@[t]) == spec_resolved(
                    m,
                    usernames@,
                    now,
                )[t],
            misses@ == spec_missing(m, usernames@.subrange(0, i as int), now),
            none_count(resolved@) == misses@.len(),
        decreases usernames@.len() - i,
    {
        let ghost prefix = usernames@.subrange(0, i as int);
        let ghost longer = usernames@.subrange(0, i as int + 1);
        let ghost resolved0 = resolved@;
        proof {
            assert(longer.drop_last() =~= prefix);
            assert(longer.last() == usernames@[i as int]);
        }
        match cache.lookup(&usernames[i], now) {
            Some(s) => {
                resolved.push(Some(s));
            },
            None => {
                misses.push(usernames[i].clone());
                resolved.push(None);
            },
        }
        proof {
            assert(resolved@.drop_last() =~= resolved0);
            assert(opt_snap_view(resolved@[i as int]) == spec_resolved(m, usernames@, now)[i as int]);
            assert(misses@ == spec_missing(m, longer, now));
        }
        i = i + 1;
    }
    proof {
        assert(usernames@.subrange(0, usernames@.len() as int) =~= usernames@);
    }
    BatchPlan { resolved, misses }
}

/// The second half of a batch resolution: folds the fetch outcomes into the
/// store (payloads overwrite, transport failures are never written), then
/// splices cached and fetched records back into input order.
pub fn finish_batch(
    cache: &mut TtlCache,
    plan: &BatchPlan,
    outcomes: &Vec<FetchOutcome>,
    now: u64,
) -> (r: Vec<ProfileSnapshot>)
    requires
        old(cache).wf(),
        outcomes@.len() == plan.misses@.len(),
        none_count(plan.resolved@) == plan.misses@.len(),
    ensures
        final(cache).wf(),
        final(cache)@ == spec_cache_after(
            old(cache)@,
            plan.misses@,
            outcomes@,
            outcomes@.len() as int,
            now,
        ),
        r@.len() == plan.resolved@.len(),
        forall|i: int|
            0 <= i < r@.len() ==> r@[i]@ == spec_slot_result(
                plan.resolved@,
                plan.misses@,
                outcomes@,
                i,
            ),
{
    let ghost m0 = cache@;
    let mut miss_results: Vec<ProfileSnapshot> = Vec::new();
    let mut j: usize = 0;
    while j < outcomes.len()
        invariant
            j <= outcomes@.len(),
            outcomes@.len() == plan.misses@.len(),
            cache.wf(),
            m0 == old(cache)@,
            cache@ == spec_cache_after(m0, plan.misses@, outcomes@, j as int, now),
            miss_results@.len() == j,
            forall|t: int|
                0 <= t < j ==> miss_results@[t]@ == spec_outcome_snapshot(
                    plan.misses@[t],
                    outcomes@[t],
                ),
        decreases outcomes@.len() - j,
    {
        let o = &outcomes[j];
        match o {
            FetchOutcome::Transport => {
                miss_results.push(default_snapshot(plan.misses[j].clone()));
            },
            FetchOutcome::Payload(d) => {
                let snap = normalize_document(plan.misses[j].clone(), d);
                cache.insert(plan.misses[j].clone(), snap.clone(), now);
                miss_results.push(snap);
            },
        }
        j = j + 1;
    }
    let mut results: Vec<ProfileSnapshot> = Vec::new();
    let mut i: usize = 0;
    let mut k: usize = 0;
    proof {
        assert(plan.resolved@.subrange(0, 0) =~= Seq::<Option<ProfileSnapshot>>::empty());
    }
    while i < plan.resolved.len()
        invariant
            i <= plan.resolved@.len(),
            k == none_count(plan.resolved@.subrange(0, i as int)),
            none_count(plan.resolved@) == plan.misses@.len(),
            miss_results@.len() == plan.misses@.len(),
            outcomes@.len() == plan.misses@.len(),
            forall|t: int|
                0 <= t < miss_results@.len() ==> miss_results@[t]@ == spec_outcome_snapshot(
                    plan.misses@[t],
                    outcomes@[t],
                ),
            results@.len() == i,
            forall|t: int|
                0 <= t < i ==> results@[t]@ == spec_slot_result(
                    plan.resolved@,
                    plan.misses@,
                    outcomes@,
                    t,
                ),
        decreases plan.resolved@.len() - i,
    {
        proof {
            lemma_none_count_bound(plan.resolved@, i as int);
        }
        let slot = &plan.resolved[i];
        match slot {
            Some(s) => {
                results.push(s.clone());
            },
            None => {
                proof {
                    assert(plan.resolved@[i as int] is None);
                }
                let cap = miss_results.len();
                proof {
                    assert(k < cap);
                }
                results.push(miss_results[k].clone());
                k = k + 1;
            },
        }
        proof {
            lemma_none_count_step(plan.resolved@, i as int);
        }
        i = i + 1;
    }
    results
}

impl BatchPlan {
    /// How many slots are still to fill: the number of fetches the plan asks
    /// for, one per miss, in order.
    pub fn pending_count(&self) -> (r: usize)
        ensures
            r == none_count(self.resolved@),
    {
        let mut count: usize = 0;
        let mut i: usize = 0;
        while i < self.resolved.len()
            invariant
                i <= self.resolved@.len(),
                count == none_count(self.resolved@.subrange(0, i as int)),
                count <= i,
            decreases self.resolved@.len() - i,
        {
            proof {
                lemma_none_count_step(self.resolved@, i as int);
            }
            if self.resolved[i].is_none() {
                count = count + 1;
            }
            i = i + 1;
        }
        proof {
            assert(self.resolved@.subrange(0, self.resolved@.len() as int) =~= self.resolved@);
        }
        count
    }
}

/// A store is consistent when every entry holds the record of its own key;
/// the resolution pipeline only ever writes such entries.
pub open spec fn spec_consistent(m: Map<Seq<char>, SpecCacheEntry>) -> bool {
    forall|k: Seq<char>| m.dom().contains(k) ==> (#[trigger] m[k]).snapshot.username == k
}

/// The position among the fetched identifiers that slot `i` of a batch fills.
pub open spec fn spec_miss_index(
    m: Map<Seq<char>, SpecCacheEntry>,
    ids: Seq<String>,
    now: u64,
    i: int,
) -> int {
    spec_missing(m, ids.subrange(0, i), now).len() as int
}

proof fn lemma_missing_at(m: Map<Seq<char>, SpecCacheEntry>, ids: Seq<String>, now: u64, i: int)
    requires
        0 <= i < ids.len(),
        !spec_hit(m, ids[i]@, now),
    ensures
        0 <= spec_miss_index(m, ids, now, i) < spec_missing(m, ids, now).len(),
        spec_missing(m, ids, now)[spec_miss_index(m, ids, now, i)] == ids[i],
    decreases ids.len(),
{
    if i == ids.len() - 1 {
        assert(ids.drop_last() =~= ids.subrange(0, i));
    } else {
        lemma_missing_at(m, ids.drop_last(), now, i);
        assert(ids.drop_last().subrange(0, i) =~= ids.subrange(0, i));
        assert(ids.drop_last()[i] == ids[i]);
    }
}

/// An empty store is consistent, a sweep keeps consistency, and folding fetch
/// outcomes in keeps it: the pipeline only ever writes an identifier's own
/// normalized record under that identifier's key.
pub proof fn lemma_pipeline_keeps_consistency(
    m: Map<Seq<char>, SpecCacheEntry>,
    misses: Seq<String>,
    outcomes: Seq<FetchOutcome>,
    n: int,
    now: u64,
)
    requires
        spec_consistent(m),
        misses.len() == outcomes.len(),
        0 <= n <= outcomes.len(),
    ensures
        spec_consistent(Map::<Seq<char>, SpecCacheEntry>::empty()),
        spec_consistent(spec_swept(m, now)),
        spec_consistent(spec_cache_after(m, misses, outcomes, n, now)),
    decreases n,
{
    if n > 0 {
        lemma_pipeline_keeps_consistency(m, misses, outcomes, n - 1, now);
    }
}

proof fn lemma_none_count_is_miss_count(
    m: Map<Seq<char>, SpecCacheEntry>,
    ids: Seq<String>,
    resolved: Seq<Option<ProfileSnapshot>>,
    now: u64,
    i: int,
)
    requires
        resolved.len() == ids.len(),
        forall|t: int|
            0 <= t < ids.len() ==> opt_snap_view(#[trigger] resolved[t]) == spec_resolved(
                m,
                ids,
                now,
            )[t],
        0 <= i <= ids.len(),
    ensures
        none_count(resolved.subrange(0, i)) == spec_missing(m, ids.subrange(0, i), now).len(),
    decreases i,
{
    if i == 0 {
        assert(resolved.subrange(0, 0) =~= Seq::<Option<ProfileSnapshot>>::empty());
        assert(ids.subrange(0, 0) =~= Seq::<String>::empty());
    } else {
        lemma_none_count_is_miss_count(m, ids, resolved, now, i - 1);
        lemma_none_count_step(resolved, i - 1);
        assert(ids.subrange(0, i).drop_last() =~= ids.subrange(0, i - 1));
        assert(ids.subrange(0, i).last() == ids[i - 1]);
        assert(opt_snap_view(resolved[i - 1]) == spec_resolved(m, ids, now)[i - 1]);
        if resolved[i - 1] is None {
            assert(!spec_hit(m, ids[i - 1]@, now));
        } else {
            assert(spec_hit(m, ids[i - 1]@, now));
        }
    }
}

/// Order preservation: a batch resolution returns one record per requested
/// identifier, and the record at each position belongs to the identifier at
/// that same position, whether it came from the cache of a consistent store or
/// from the fetch that fills the slot. (That the merged output has the input's
/// length is part of `finish_batch`'s own contract.)
pub proof fn lemma_batch_order(
    m: Map<Seq<char>, SpecCacheEntry>,
    ids: Seq<String>,
    resolved: Seq<Option<ProfileSnapshot>>,
    misses: Seq<String>,
    outcomes: Seq<FetchOutcome>,
    now: u64,
    i: int,
)
    requires
        spec_consistent(m),
        resolved.len() == ids.len(),
        forall|t: int|
            0 <= t < ids.len() ==> opt_snap_view(#[trigger] resolved[t]) == spec_resolved(
                m,
                ids,
                now,
            )[t],
        misses == spec_missing(m, ids, now),
        outcomes.len() == misses.len(),
        0 <= i < ids.len(),
    ensures
        spec_slot_result(resolved, misses, outcomes, i).username == ids[i]@,
{
    assert(opt_snap_view(resolved[i]) == spec_resolved(m, ids, now)[i]);
    match resolved[i] {
        Some(s) => {
            assert(spec_hit(m, ids[i]@, now));
            assert(s@ == m[ids[i]@].snapshot);
        },
        None => {
            assert(!spec_hit(m, ids[i]@, now));
            lemma_none_count_is_miss_count(m, ids, resolved, now, i);
            lemma_missing_at(m, ids, now, i);
            let j = none_count(resolved.subrange(0, i));
            assert(misses[j] == ids[i]);
            match outcomes[j] {
                FetchOutcome::Transport => {},
                FetchOutcome::Payload(d) => {},
            }
        },
    }
}

/// Idempotence within the TTL: once a fetched payload for an identifier is
/// written at time `t`, a resolution at any `now` within the TTL window hits
/// the swept store, is served exactly the stored record, and plans no fetch.
pub proof fn lemma_second_resolve_within_ttl(
    m: Map<Seq<char>, SpecCacheEntry>,
    username: String,
    d: DocValue,
    t: u64,
    now: u64,
)
    requires
        spec_fresh_at(t, now),
    ensures
        ({
            let stored = SpecCacheEntry { snapshot: spec_normalize(username@, d), stamp: t };
            let m2 = spec_swept(m.insert(username@, stored), now);
            &&& spec_cache_after(
                m,
                seq![username],
                seq![FetchOutcome::Payload(d)],
                1,
                t,
            ) == m.insert(username@, stored)
            &&& spec_hit(m2, username@, now)
            &&& spec_resolved(m2, seq![username], now) =~= seq![
                Some(spec_normalize(username@, d)),
            ]
            &&& spec_missing(m2, seq![username], now).len() == 0
        }),
{
    let stored = SpecCacheEntry { snapshot: spec_normalize(username@, d), stamp: t };
    let m2 = spec_swept(m.insert(username@, stored), now);
    assert(m2.dom().contains(username@));
    assert(m2[username@] == stored);
    let one = seq![username];
    let outs = seq![FetchOutcome::Payload(d)];
    assert(one[0] == username);
    assert(outs[0] == FetchOutcome::Payload(d));
    assert(spec_cache_after(m, one, outs, 0, t) == m);
    assert(spec_cache_after(m, one, outs, 1, t) == m.insert(username@, stored));
    assert(one.drop_last() =~= Seq::<String>::empty());
    assert(one.last() == username);
    assert(spec_missing(m2, Seq::<String>::empty(), now) =~= Seq::<String>::empty());
    assert(spec_missing(m2, one, now).len() == 0);
    assert(spec_resolved(m2, one, now) =~= seq![Some(spec_normalize(username@, d))]);
}

/// Expiry: an entry written at time `t` is no longer served once
/// `now >= t + TTL_SECONDS`; the sweep removes it, and a batch for its
/// identifier plans exactly one fresh fetch.
pub proof fn lemma_expired_resolves_fetch(
    m: Map<Seq<char>, SpecCacheEntry>,
    username: String,
    now: u64,
)
    requires
        m.dom().contains(username@),
        m[username@].stamp + TTL_SECONDS <= now,
    ensures
        !spec_hit(m, username@, now),
        !spec_swept(m, now).dom().contains(username@),
        spec_missing(spec_swept(m, now), seq![username], now) =~= seq![username],
        spec_resolved(spec_swept(m, now), seq![username], now) =~= seq![
            Option::<SpecSnapshot>::None,
        ],
{
    let m2 = spec_swept(m, now);
    let one = seq![username];
    assert(one.drop_last() =~= Seq::<String>::empty());
    assert(one.last() == username);
    assert(spec_missing(m2, Seq::<String>::empty(), now) =~= Seq::<String>::empty());
    assert(spec_missing(m2, one, now) =~= seq![username]);
}

/// A transport failure stands in as the fully defaulted record for its
/// identifier: same identifier, empty texts, false flags, zero counts, no
/// posts.
pub proof fn lemma_transport_failure_default(misses: Seq<String>, outcomes: Seq<FetchOutcome>, j: int)
    requires
        0 <= j < outcomes.len(),
        outcomes.len() == misses.len(),
        outcomes[j] is Transport,
    ensures
        spec_outcome_snapshot(misses[j], outcomes[j]) == spec_default_snapshot(misses[j]@),
        spec_outcome_snapshot(misses[j], outcomes[j]).username == misses[j]@,
        spec_outcome_snapshot(misses[j], outcomes[j]).full_name.len() == 0,
        spec_outcome_snapshot(misses[j], outcomes[j]).biography.len() == 0,
        spec_outcome_snapshot(misses[j], outcomes[j]).profile_pic_url.len() == 0,
        !spec_outcome_snapshot(misses[j], outcomes[j]).is_private,
        !spec_outcome_snapshot(misses[j], outcomes[j]).is_verified,
        spec_outcome_snapshot(misses[j], outcomes[j]).followers_count == 0,
        spec_outcome_snapshot(misses[j], outcomes[j]).following_count == 0,
        spec_outcome_snapshot(misses[j], outcomes[j]).posts_count == 0,
        spec_outcome_snapshot(misses[j], outcomes[j]).posts.len() == 0,
{
}

/// A transport failure writes nothing: an identifier absent from the store
/// whose fetches all failed at transport level is still absent after the
/// outcomes are folded in, so the next batch fetches it again.
pub proof fn lemma_transport_failure_not_cached(
    m: Map<Seq<char>, SpecCacheEntry>,
    misses: Seq<String>,
    outcomes: Seq<FetchOutcome>,
    username: String,
    now: u64,
    n: int,
)
    requires
        misses.len() == outcomes.len(),
        0 <= n <= outcomes.len(),
        !m.dom().contains(username@),
        forall|j: int|
            0 <= j < n && (#[trigger] misses[j])@ == username@ ==> outcomes[j] is Transport,
    ensures
        !spec_cache_after(m, misses, outcomes, n, now).dom().contains(username@),
    decreases n,
{
    if n > 0 {
        lemma_transport_failure_not_cached(m, misses, outcomes, username, now, n - 1);
    }
}

proof fn lemma_none_count_step(s: Seq<Option<ProfileSnapshot>>, i: int)
    requires
        0 <= i < s.len(),
    ensures
        none_count(s.subrange(0, i + 1)) == none_count(s.subrange(0, i)) + (if s[i] is None {
            1int
        } else {
            0int
        }),
{
    assert(s.subrange(0, i + 1).drop_last() =~= s.subrange(0, i));
    assert(s.subrange(0, i + 1).last() == s[i]);
}

proof fn lemma_none_count_bound(s: Seq<Option<ProfileSnapshot>>, i: int)
    requires
        0 <= i <= s.len(),
    ensures
        none_count(s.subrange(0, i)) + (if i < s.len() && s[i] is None {
            1int
        } else {
            0int
        }) <= none_count(s),
    decreases s.len() - i,
{
    if i < s.len() {
        lemma_none_count_step(s, i);
        lemma_none_count_bound(s, i + 1);
    } else {
        assert(s.subrange(0, i) =~= s);
    }
}

} // verus!
