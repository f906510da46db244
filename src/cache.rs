//! A bounded cache of finished responses keyed by request fingerprint, with
//! expiry measured from insertion on a caller-supplied clock.

use vstd::prelude::*;

verus! {

/// How many entries the service's cache holds at most.
pub const MAX_ENTRIES: usize = 1000;

/// How long, in seconds, an entry of the service's cache stays servable.
pub const TTL_SECONDS: u64 = 300;

/// One stored response.
pub struct CacheEntry {
    pub fingerprint: u64,
    pub payload: Vec<u8>,
    /// Clock reading at insertion.
    pub inserted_at: u64,
}

/// Whether an entry is still servable at `now`: its age is below `ttl`.
pub open spec fn fresh(e: CacheEntry, now: u64, ttl: u64) -> bool {
    (now as int) - (e.inserted_at as int) < ttl as int
}

/// No two entries share a fingerprint.
pub open spec fn unique_keys(entries: Seq<CacheEntry>) -> bool {
    forall|i: int, j: int|
        0 <= i < entries.len() && 0 <= j < entries.len() && i != j
            ==> entries[i].fingerprint != entries[j].fingerprint
}

/// Whether some entry carries `fp`.
pub open spec fn has_key(entries: Seq<CacheEntry>, fp: u64) -> bool {
    exists|i: int| 0 <= i < entries.len() && entries[i].fingerprint == fp
}

/// The payload that a lookup of `fp` at `now` serves: that of a fresh entry
/// carrying `fp`, if there is one.
pub open spec fn lookup(entries: Seq<CacheEntry>, fp: u64, now: u64, ttl: u64) -> Option<Seq<u8>> {
    if exists|i: int| 0 <= i < entries.len() && entries[i].fingerprint == fp && fresh(entries[i], now, ttl) {
        let i = choose|i: int|
            0 <= i < entries.len() && entries[i].fingerprint == fp && fresh(entries[i], now, ttl);
        Some(entries[i].payload@)
    } else {
        None
    }
}

/// The entries without the one carrying `fp`.
pub open spec fn remove_key(entries: Seq<CacheEntry>, fp: u64) -> Seq<CacheEntry> {
    if has_key(entries, fp) {
        entries.remove(choose|i: int| 0 <= i < entries.len() && entries[i].fingerprint == fp)
    } else {
        entries
    }
}

/// The entries after storing `payload` under `fp` at `now` in a cache of
/// capacity `cap`: any older entry for `fp` goes, then the oldest entry goes
/// if the cache is still full, and the new entry comes last. A cache of
/// capacity zero stores nothing.
pub open spec fn admitted(
    entries: Seq<CacheEntry>,
    cap: nat,
    fp: u64,
    payload: Vec<u8>,
    now: u64,
) -> Seq<CacheEntry> {
    if cap == 0 {
        entries
    } else {
        let rest = remove_key(entries, fp);
        let kept = if rest.len() >= cap {
            rest.subrange(1, rest.len() as int)
        } else {
            rest
        };
        kept.push(CacheEntry { fingerprint: fp, payload, inserted_at: now })
    }
}

/// Storing keeps the cache within its bounds: from at most `cap` entries
/// with distinct fingerprints, an insertion leads again to at most `cap`
/// entries with distinct fingerprints, so no sequence of insertions into an
/// empty cache ever holds more than `cap` entries.
pub proof fn lemma_admitted_bounded(
    entries: Seq<CacheEntry>,
    cap: nat,
    fp: u64,
    payload: Vec<u8>,
    now: u64,
)
    requires
        entries.len() <= cap,
        unique_keys(entries),
    ensures
        admitted(entries, cap, fp, payload, now).len() <= cap,
        unique_keys(admitted(entries, cap, fp, payload, now)),
{
    if cap > 0 {
        let rest = remove_key(entries, fp);
        assert(!has_key(rest, fp));
        let kept = if rest.len() >= cap {
            rest.subrange(1, rest.len() as int)
        } else {
            rest
        };
        assert(unique_keys(kept));
        assert(forall|i: int| 0 <= i < kept.len() ==> kept[i].fingerprint != fp);
    }
}

/// The entries after storing each `(fingerprint, payload, clock)` of `ops`
/// in turn.
pub open spec fn after_inserts(entries: Seq<CacheEntry>, cap: nat, ops: Seq<(u64, Vec<u8>, u64)>) -> Seq<
    CacheEntry,
>
    decreases ops.len(),
{
    if ops.len() == 0 {
        entries
    } else {
        let (fp, payload, now) = ops.last();
        admitted(after_inserts(entries, cap, ops.drop_last()), cap, fp, payload, now)
    }
}

/// No sequence of insertions into a cache within its bounds, an empty one
/// in particular, takes it past `cap` entries or gives two entries one
/// fingerprint.
pub proof fn lemma_inserts_bounded(entries: Seq<CacheEntry>, cap: nat, ops: Seq<(u64, Vec<u8>, u64)>)
    requires
        entries.len() <= cap,
        unique_keys(entries),
    ensures
        after_inserts(entries, cap, ops).len() <= cap,
        unique_keys(after_inserts(entries, cap, ops)),
    decreases ops.len(),
{
    if ops.len() > 0 {
        lemma_inserts_bounded(entries, cap, ops.drop_last());
        let (fp, payload, now) = ops.last();
        lemma_admitted_bounded(after_inserts(entries, cap, ops.drop_last()), cap, fp, payload, now);
    }
}

/// An insertion is served back at once: right after storing `payload` under
/// `fp` at `now` in a cache of positive capacity and TTL, a lookup of `fp`
/// at `now` returns `payload`.
pub proof fn lemma_insert_then_get(
    entries: Seq<CacheEntry>,
    cap: nat,
    ttl: u64,
    fp: u64,
    payload: Vec<u8>,
    now: u64,
)
    requires
        entries.len() <= cap,
        unique_keys(entries),
        cap > 0,
        ttl > 0,
    ensures
        lookup(admitted(entries, cap, fp, payload, now), fp, now, ttl) == Some(payload@),
{
    lemma_admitted_bounded(entries, cap, fp, payload, now);
    let a = admitted(entries, cap, fp, payload, now);
    let last = a.len() - 1;
    assert(a[last].fingerprint == fp && fresh(a[last], now, ttl));
}

/// Expiry runs from insertion: once `ttl` has elapsed since `payload` was
/// stored under `fp` at `at`, a lookup of `fp` finds nothing, although the
/// entry is still stored.
pub proof fn lemma_expired_after_ttl(
    entries: Seq<CacheEntry>,
    cap: nat,
    ttl: u64,
    fp: u64,
    payload: Vec<u8>,
    at: u64,
    now: u64,
)
    requires
        entries.len() <= cap,
        unique_keys(entries),
        cap > 0,
        now as int >= at as int + ttl as int,
    ensures
        lookup(admitted(entries, cap, fp, payload, at), fp, now, ttl) is None,
        has_key(admitted(entries, cap, fp, payload, at), fp),
{
    lemma_admitted_bounded(entries, cap, fp, payload, at);
    let a = admitted(entries, cap, fp, payload, at);
    let last = a.len() - 1;
    assert(a[last].fingerprint == fp);
    assert forall|i: int| 0 <= i < a.len() && a[i].fingerprint == fp implies !fresh(a[i], now, ttl) by {
        assert(i == last);
    }
}

/// A response cache holding at most `capacity` entries, each servable for
/// `ttl` clock units after its insertion.
pub struct RequestCache {
    entries: Vec<CacheEntry>,
    capacity: usize,
    ttl: u64,
}

impl RequestCache {
    /// The stored entries, oldest first.
    pub closed spec fn entries(&self) -> Seq<CacheEntry> {
        self.entries@
    }

    pub closed spec fn capacity(&self) -> nat {
        self.capacity as nat
    }

    pub closed spec fn ttl(&self) -> u64 {
        self.ttl
    }

    /// Never more entries than the capacity, and one entry per fingerprint.
    pub open spec fn wf(&self) -> bool {
        &&& self.entries().len() <= self.capacity()
        &&& unique_keys(self.entries())
    }

    /// An empty cache.
    pub fn new(capacity: usize, ttl: u64) -> (r: RequestCache)
        ensures
            r.wf(),
            r.entries().len() == 0,
            r.capacity() == capacity,
            r.ttl() == ttl,
    {
        RequestCache { entries: Vec::new(), capacity, ttl }
    }

    /// An empty cache with the service's bounds: `MAX_ENTRIES` entries, each
    /// servable for `TTL_SECONDS` seconds.
    pub fn standard() -> (r: RequestCache)
        ensures
            r.wf(),
            r.entries().len() == 0,
            r.capacity() == MAX_ENTRIES,
            r.ttl() == TTL_SECONDS,
    {
        RequestCache::new(MAX_ENTRIES, TTL_SECONDS)
    }

    /// How many entries are stored, expired ones included.
    pub fn len(&self) -> (r: usize)
        ensures
            r == self.entries().len(),
    {
        self.entries.len()
    }

    /// The position of the entry carrying `fp`, if any.
    fn position(&self, fp: u64) -> (r: Option<usize>)
        ensures
            r matches Some(i) ==> i < self.entries().len() && self.entries()[i as int].fingerprint == fp,
            r is None ==> !has_key(self.entries(), fp),
    {
        let n = self.entries.len();
        let mut i: usize = 0;
        while i < n
            invariant
                i <= n,
                n == self.entries@.len(),
                forall|j: int| 0 <= j < i ==> self.entries@[j].fingerprint != fp,
            decreases n - i,
        {
            if self.entries[i].fingerprint == fp {
                return Some(i);
            }
            i = i + 1;
        }
        None
    }

    /// The payload stored under `fp`, unless it is absent or has expired at `now`.
    pub fn get(&self, fp: u64, now: u64) -> (r: Option<Vec<u8>>)
        requires
            self.wf(),
        ensures
            match r {
                Some(b) => lookup(self.entries(), fp, now, self.ttl()) == Some(b@),
                None => lookup(self.entries(), fp, now, self.ttl()) is None,
            },
    {
        match self.position(fp) {
            None => None,
            Some(i) => {
                let e = &self.entries[i];
                if (now as i128) - (e.inserted_at as i128) < self.ttl as i128 {
                    let b = e.payload.clone();
                    proof {
                        assert(b@ =~= e.payload@);
                    }
                    Some(b)
                } else {
                    None
                }
            },
        }
    }

    /// Stores `payload` under `fp` at `now`, replacing any entry for `fp` and
    /// evicting the oldest entry when the cache is full.
    pub fn insert(&mut self, fp: u64, payload: Vec<u8>, now: u64)
        requires
            old(self).wf(),
        ensures
            final(self).wf(),
            final(self).capacity() == old(self).capacity(),
            final(self).ttl() == old(self).ttl(),
            final(self).entries() == admitted(old(self).entries(), old(self).capacity(), fp, payload, now),
    {
        if self.capacity == 0 {
            return;
        }
        let ghost start = self.entries@;
        match self.position(fp) {
            Some(i) => {
                self.entries.remove(i);
            },
            None => {},
        }
        assert(self.entries@ == remove_key(start, fp));
        if self.entries.len() >= self.capacity {
            self.entries.remove(0);
        }
        self.entries.push(CacheEntry { fingerprint: fp, payload, inserted_at: now });
        assert(self.entries@ =~= admitted(start, self.capacity as nat, fp, payload, now));
    }
}

} // verus!
