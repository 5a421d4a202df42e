use vstd::prelude::*;
use vstd::pervasive::VecAdditionalExecFns;

use crate::snapshot::{ProfileSnapshot, SpecSnapshot};

verus! {

/// Cache entries live this many seconds before a lookup treats them as absent.
pub const TTL_SECONDS: u64 = 3600;

/// True when an entry stamped at `stamp` is still alive at time `now`. A stamp
/// in the future counts as expired: the clock is monotonic, so a lookup never
/// sees one.
pub open spec fn spec_fresh_at(stamp: u64, now: u64) -> bool {
    stamp <= now && now < stamp + TTL_SECONDS
}

fn fresh_at(stamp: u64, now: u64) -> (r: bool)
    ensures
        r == spec_fresh_at(stamp, now),
{
    stamp <= now && now - stamp < TTL_SECONDS
}

/// A stored record together with the time it was written.
pub struct CacheEntry {
    pub key: String,
    pub snapshot: ProfileSnapshot,
    pub stamp: u64,
}

/// Mathematical model of one stored entry.
pub struct SpecCacheEntry {
    pub snapshot: SpecSnapshot,
    pub stamp: u64,
}

impl CacheEntry {
    pub open spec fn model(self) -> SpecCacheEntry {
        SpecCacheEntry { snapshot: self.snapshot@, stamp: self.stamp }
    }
}

impl Clone for CacheEntry {
    fn clone(&self) -> (r: Self)
        ensures
            r.key@ == self.key@,
            r.model() == self.model(),
    {
        CacheEntry {
            key: self.key.clone(),
            snapshot: self.snapshot.clone(),
            stamp: self.stamp,
        }
    }
}

/// The mapping a sequence of entries stands for; a later entry with the same
/// key overrides an earlier one (a well-formed cache has no such pair).
pub open spec fn map_of(entries: Seq<CacheEntry>) -> Map<Seq<char>, SpecCacheEntry>
    decreases entries.len(),
{
    if entries.len() == 0 {
        Map::empty()
    } else {
        map_of(entries.drop_last()).insert(entries.last().key@, entries.last().model())
    }
}

/// `m` with every entry expired at `now` removed.
pub open spec fn spec_swept(m: Map<Seq<char>, SpecCacheEntry>, now: u64) -> Map<
    Seq<char>,
    SpecCacheEntry,
> {
    Map::new(|k: Seq<char>| m.dom().contains(k) && spec_fresh_at(m[k].stamp, now), |k: Seq<char>| m[k])
}

/// A key is served from `m` at `now` only when it is present and fresh.
pub open spec fn spec_hit(m: Map<Seq<char>, SpecCacheEntry>, k: Seq<char>, now: u64) -> bool {
    m.dom().contains(k) && spec_fresh_at(m[k].stamp, now)
}

/// The time-bounded store: a mapping from identifier to (record, stamp),
/// kept as a vector with pairwise distinct keys.
pub struct TtlCache {
    entries: Vec<CacheEntry>,
}

impl View for TtlCache {
    type V = Map<Seq<char>, SpecCacheEntry>;

    closed spec fn view(&self) -> Map<Seq<char>, SpecCacheEntry> {
        map_of(self.entries@)
    }
}

proof fn lemma_map_of_contains(s: Seq<CacheEntry>, k: Seq<char>)
    ensures
        map_of(s).dom().contains(k) <==> (exists|i: int| 0 <= i < s.len() && s[i].key@ == k),
    decreases s.len(),
{
    if s.len() > 0 {
        lemma_map_of_contains(s.drop_last(), k);
        if s.last().key@ == k {
            assert(s[s.len() - 1].key@ == k);
        } else {
            if map_of(s).dom().contains(k) {
                let i = choose|i: int| 0 <= i < s.drop_last().len() && s.drop_last()[i].key@ == k;
                assert(s[i].key@ == k);
            }
            if exists|i: int| 0 <= i < s.len() && s[i].key@ == k {
                let i = choose|i: int| 0 <= i < s.len() && s[i].key@ == k;
                assert(s.drop_last()[i].key@ == k);
            }
        }
    }
}

proof fn lemma_map_of_index(s: Seq<CacheEntry>, i: int)
    requires
        0 <= i < s.len(),
        forall|j: int| i < j < s.len() ==> s[j].key@ != s[i].key@,
    ensures
        map_of(s).dom().contains(s[i].key@),
        map_of(s)[s[i].key@] == s[i].model(),
    decreases s.len(),
{
    if i < s.len() - 1 {
        lemma_map_of_index(s.drop_last(), i);
        assert(s.drop_last()[i] == s[i]);
    }
}

proof fn lemma_map_of_update(s: Seq<CacheEntry>, i: int, e: CacheEntry)
    requires
        0 <= i < s.len(),
        e.key@ == s[i].key@,
        forall|j: int| 0 <= j < s.len() && j != i ==> s[j].key@ != e.key@,
    ensures
        map_of(s.update(i, e)) == map_of(s).insert(e.key@, e.model()),
    decreases s.len(),
{
    let su = s.update(i, e);
    if i == s.len() - 1 {
        assert(su.drop_last() =~= s.drop_last());
        assert(su.last() == e);
        assert(map_of(su) =~= map_of(s).insert(e.key@, e.model()));
    } else {
        lemma_map_of_update(s.drop_last(), i, e);
        assert(su.drop_last() =~= s.drop_last().update(i, e));
        assert(su.last() == s.last());
        assert(s.last().key@ != e.key@);
        assert(map_of(su) =~= map_of(s).insert(e.key@, e.model()));
    }
}

impl TtlCache {
    /// Pairwise distinct keys: each identifier is stored at most once.
    pub closed spec fn wf(self) -> bool {
        forall|i: int, j: int|
            0 <= i < j < self.entries@.len() ==> self.entries@[i].key@ != self.entries@[j].key@
    }

    /// An empty store.
    pub fn new() -> (r: Self)
        ensures
            r.wf(),
            r@ == Map::<Seq<char>, SpecCacheEntry>::empty(),
    {
        TtlCache { entries: Vec::new() }
    }

    fn position_of(&self, key: &String) -> (r: Option<usize>)
        ensures
            match r {
                Some(i) => i < self.entries@.len() && self.entries@[i as int].key@ == key@,
                None => forall|j: int| 0 <= j < self.entries@.len() ==> self.entries@[j].key@ != key@,
            },
    {
        let mut i: usize = 0;
        while i < self.entries.len()
            invariant
                i <= self.entries@.len(),
                forall|j: int| 0 <= j < i ==> self.entries@[j].key@ != key@,
            decreases self.entries@.len() - i,
        {
            if self.entries[i].key == *key {
                return Some(i);
            }
            i = i + 1;
        }
        None
    }

    /// Returns the stored record only while it is fresh; an expired or absent
    /// entry behaves as no entry at all (without necessarily deleting it).
    pub fn lookup(&self, username: &String, now: u64) -> (r: Option<ProfileSnapshot>)
        requires
            self.wf(),
        ensures
            match r {
                Some(s) => spec_hit(self@, username@, now) && s@ == self@[username@].snapshot,
                None => !spec_hit(self@, username@, now),
            },
    {
        match self.position_of(username) {
            Some(i) => {
                proof {
                    lemma_map_of_index(self.entries@, i as int);
                }
                let entry = &self.entries[i];
                if fresh_at(entry.stamp, now) {
                    Some(entry.snapshot.clone())
                } else {
                    None
                }
            },
            None => {
                proof {
                    lemma_map_of_contains(self.entries@, username@);
                }
                None
            },
        }
    }

    /// Writes (or unconditionally overwrites) the entry for `username`.
    pub fn insert(&mut self, username: String, snapshot: ProfileSnapshot, now: u64)
        requires
            old(self).wf(),
        ensures
            final(self).wf(),
            final(self)@ == old(self)@.insert(
                username@,
                SpecCacheEntry { snapshot: snapshot@, stamp: now },
            ),
    {
        let entry = CacheEntry { key: username, snapshot, stamp: now };
        let ghost m = entry.model();
        match self.position_of(&entry.key) {
            Some(i) => {
                proof {
                    lemma_map_of_update(self.entries@, i as int, entry);
                }
                self.entries.set(i, entry);
                proof {
                    assert(self.wf()) by {
                        assert(forall|a: int, b: int|
                            0 <= a < b < self.entries@.len() ==> self.entries@[a].key@
                                != self.entries@[b].key@) by {
                            assert(forall|j: int|
                                0 <= j < old(self).entries@.len() && j != i
                                    ==> self.entries@[j].key@ == old(self).entries@[j].key@);
                        }
                    }
                }
            },
            None => {
                let ghost s = self.entries@;
                self.entries.push(entry);
                proof {
                    assert(self.entries@.drop_last() =~= s);
                    assert(self.entries@.last() == entry);
                    assert(map_of(self.entries@) == map_of(s).insert(entry.key@, m));
                }
            },
        }
    }

    /// Removes every entry that is expired at `now`, and nothing else.
    pub fn sweep_expired(&mut self, now: u64)
        requires
            old(self).wf(),
        ensures
            final(self).wf(),
            final(self)@ == spec_swept(old(self)@, now),
    {
        let n = self.entries.len();
        let mut kept: Vec<CacheEntry> = Vec::new();
        let mut i: usize = 0;
        proof {
            assert(self.entries@.subrange(0, 0) =~= Seq::<CacheEntry>::empty());
            assert(map_of(kept@) =~= spec_swept(map_of(self.entries@.subrange(0, 0)), now));
        }
        while i < n
            invariant
                i <= n,
                n == self.entries@.len(),
                *self == *old(self),
                self.wf(),
                map_of(kept@) == spec_swept(map_of(self.entries@.subrange(0, i as int)), now),
                forall|a: int|
                    0 <= a < kept@.len() ==> map_of(self.entries@.subrange(0, i as int)).dom().contains(
                        #[trigger] kept@[a].key@,
                    ),
                forall|a: int, b: int|
                    0 <= a < b < kept@.len() ==> kept@[a].key@ != kept@[b].key@,
            decreases n - i,
        {
            let ghost prefix = self.entries@.subrange(0, i as int);
            let ghost longer = self.entries@.subrange(0, i as int + 1);
            proof {
                assert(longer.drop_last() =~= prefix);
                assert(longer.last() == self.entries@[i as int]);
                assert(forall|j: int| 0 <= j < i ==> prefix[j] == self.entries@[j]);
                lemma_map_of_contains(prefix, self.entries@[i as int].key@);
                assert(!map_of(prefix).dom().contains(self.entries@[i as int].key@));
            }
            let e = &self.entries[i];
            if fresh_at(e.stamp, now) {
                let ghost kept0 = kept@;
                let c = e.clone();
                proof {
                    assert(forall|a: int|
                        0 <= a < kept0.len() ==> #[trigger] kept0[a].key@ != c.key@);
                }
                kept.push(c);
                proof {
                    assert(kept@.drop_last() =~= kept0);
                    assert(map_of(kept@) == map_of(kept0).insert(c.key@, c.model()));
                    assert(map_of(kept@) =~= spec_swept(map_of(longer), now));
                    assert(forall|a: int|
                        0 <= a < kept@.len() ==> map_of(longer).dom().contains(
                            #[trigger] kept@[a].key@,
                        ));
                }
            } else {
                proof {
                    assert(map_of(kept@) =~= spec_swept(map_of(longer), now));
                }
            }
            i = i + 1;
        }
        proof {
            assert(self.entries@.subrange(0, n as int) =~= self.entries@);
        }
        self.entries = kept;
    }
}

/// Expiry: an entry stamped at `stamp` is not served at or after
/// `stamp + TTL_SECONDS`, and a sweep at such a time removes it.
pub proof fn lemma_expired_entry_not_served(
    m: Map<Seq<char>, SpecCacheEntry>,
    k: Seq<char>,
    now: u64,
)
    requires
        m.dom().contains(k),
        m[k].stamp + TTL_SECONDS <= now,
    ensures
        !spec_hit(m, k, now),
        !spec_swept(m, now).dom().contains(k),
{
}

} // verus!
