//! The response cache: a capacity- and time-bounded mapping from cache key
//! to a previously fetched response.  Time is explicit: every operation
//! that depends on entry age takes the current time as an argument, so the
//! time-to-live semantics is part of the contracts.

use vstd::prelude::*;

verus! {

/// The mathematical model of a cached response.
pub ghost struct RespModel {
    /// The response status code.
    pub status: int,
    /// The response headers, as name/value pairs.
    pub headers: Seq<(Seq<char>, Seq<char>)>,
    /// The response body bytes.
    pub body: Seq<u8>,
}

/// A cached response: status code, full header collection, and body bytes.
/// Immutable once constructed; the store hands it to callers as a shared
/// read-only reference, so a caller must clone before modifying.
pub struct CachedResponse {
    /// The origin's status code.
    pub status: u16,
    /// The origin's headers, unsanitized; sanitization happens on relay.
    pub headers: Vec<(String, String)>,
    /// The fully buffered body.
    pub body: Vec<u8>,
}

impl View for CachedResponse {
    type V = RespModel;

    open spec fn view(&self) -> RespModel {
        RespModel {
            status: self.status as int,
            headers: self.headers.deep_view(),
            body: self.body.deep_view(),
        }
    }
}

/// One stored entry: the key, the response, and the insertion time.
struct CacheEntry {
    key: String,
    resp: CachedResponse,
    inserted_at: u64,
}

/// No two entries share a key.
spec fn s_unique(s: Seq<CacheEntry>) -> bool {
    forall|i: int, j: int|
        0 <= i < j < s.len() ==> #[trigger] s[i].key@ != #[trigger] s[j].key@
}

/// Some entry carries key `k`.
spec fn s_contains(s: Seq<CacheEntry>, k: Seq<char>) -> bool {
    exists|i: int| 0 <= i < s.len() && #[trigger] s[i].key@ == k
}

/// The index of the entry carrying key `k`.
spec fn s_idx(s: Seq<CacheEntry>, k: Seq<char>) -> int {
    choose|i: int| 0 <= i < s.len() && #[trigger] s[i].key@ == k
}

/// The entry carrying key `k`.
spec fn s_entry(s: Seq<CacheEntry>, k: Seq<char>) -> CacheEntry {
    s[s_idx(s, k)]
}

/// With unique keys, the entry at a valid index is the one its key finds.
proof fn lemma_idx_at(s: Seq<CacheEntry>, i: int)
    requires
        s_unique(s),
        0 <= i < s.len(),
    ensures
        s_contains(s, s[i].key@),
        s_idx(s, s[i].key@) == i,
{
    assert(s_contains(s, s[i].key@));
    let j = s_idx(s, s[i].key@);
    if j != i {
        assert(s[i].key@ != s[j].key@);
    }
}

/// Removing an entry keeps keys unique, removes exactly that key, and
/// leaves every other entry as it was.
proof fn lemma_remove(s: Seq<CacheEntry>, i: int)
    requires
        s_unique(s),
        0 <= i < s.len(),
    ensures
        s_unique(s.remove(i)),
        forall|k: Seq<char>|
            #[trigger] s_contains(s.remove(i), k) <==> (s_contains(s, k) && k != s[i].key@),
        forall|k: Seq<char>|
            s_contains(s.remove(i), k) ==> #[trigger] s_entry(s.remove(i), k) == s_entry(s, k),
{
    let t = s.remove(i);
    assert forall|k: Seq<char>| #[trigger] s_contains(t, k) implies (s_contains(s, k) && k
        != s[i].key@) by {
        let j = choose|j: int| 0 <= j < t.len() && #[trigger] t[j].key@ == k;
        let j0 = if j < i {
            j
        } else {
            j + 1
        };
        assert(s[j0].key@ == k);
        if k == s[i].key@ {
            assert(j0 != i);
            if j0 < i {
                assert(s[j0].key@ != s[i].key@);
            } else {
                assert(s[i].key@ != s[j0].key@);
            }
        }
    }
    assert forall|k: Seq<char>| s_contains(s, k) && k != s[i].key@ implies #[trigger] s_contains(
        t,
        k,
    ) by {
        let j = choose|j: int| 0 <= j < s.len() && #[trigger] s[j].key@ == k;
        if j < i {
            assert(t[j].key@ == k);
        } else {
            assert(j != i);
            assert(t[j - 1].key@ == k);
        }
    }
    assert forall|k: Seq<char>| s_contains(t, k) implies #[trigger] s_entry(t, k) == s_entry(
        s,
        k,
    ) by {
        let j = s_idx(t, k);
        assert(0 <= j < t.len() && t[j].key@ == k);
        let j0 = if j < i {
            j
        } else {
            j + 1
        };
        assert(s[j0] == t[j]);
        lemma_idx_at(s, j0);
    }
    assert forall|a: int, b: int| 0 <= a < b < t.len() implies #[trigger] t[a].key@
        != #[trigger] t[b].key@ by {
        let a0 = if a < i {
            a
        } else {
            a + 1
        };
        let b0 = if b < i {
            b
        } else {
            b + 1
        };
        assert(t[a] == s[a0] && t[b] == s[b0]);
        assert(s[a0].key@ != s[b0].key@);
    }
}

/// Appending an entry with a fresh key keeps keys unique, adds exactly
/// that key, and leaves every other entry as it was.
proof fn lemma_push(s: Seq<CacheEntry>, e: CacheEntry)
    requires
        s_unique(s),
        !s_contains(s, e.key@),
    ensures
        s_unique(s.push(e)),
        forall|k: Seq<char>|
            #[trigger] s_contains(s.push(e), k) <==> (s_contains(s, k) || k == e.key@),
        s_entry(s.push(e), e.key@) == e,
        forall|k: Seq<char>|
            s_contains(s, k) ==> #[trigger] s_entry(s.push(e), k) == s_entry(s, k),
{
    let t = s.push(e);
    assert(t[s.len() as int] == e);
    assert forall|a: int, b: int| 0 <= a < b < t.len() implies #[trigger] t[a].key@
        != #[trigger] t[b].key@ by {
        if b < s.len() {
            assert(s[a].key@ != s[b].key@);
        } else {
            lemma_idx_at(s, a);
            assert(s_contains(s, s[a].key@));
        }
    }
    assert forall|k: Seq<char>| #[trigger] s_contains(t, k) implies (s_contains(s, k) || k
        == e.key@) by {
        let j = choose|j: int| 0 <= j < t.len() && #[trigger] t[j].key@ == k;
        if j < s.len() {
            assert(s[j].key@ == k);
        }
    }
    assert forall|k: Seq<char>| s_contains(s, k) || k == e.key@ implies #[trigger] s_contains(
        t,
        k,
    ) by {
        if s_contains(s, k) {
            let j = choose|j: int| 0 <= j < s.len() && #[trigger] s[j].key@ == k;
            assert(t[j].key@ == k);
        } else {
            assert(t[s.len() as int].key@ == k);
        }
    }
    lemma_idx_at(t, s.len() as int);
    assert forall|k: Seq<char>| s_contains(s, k) implies #[trigger] s_entry(t, k) == s_entry(
        s,
        k,
    ) by {
        let j = s_idx(s, k);
        assert(0 <= j < s.len() && s[j].key@ == k);
        assert(t[j] == s[j]);
        lemma_idx_at(t, j);
    }
}

/// Cache for origin responses with a configured entry capacity and
/// time-to-live.  The insertion policy (which responses are eligible) is
/// enforced by the caller; the store accepts whatever is given to it.
pub struct CdnCache {
    entries: Vec<CacheEntry>,
    max_entries: u64,
    ttl_seconds: u64,
}

impl CdnCache {
    /// Internal consistency: keys are unique and the entry count stays
    /// within the configured capacity.
    pub closed spec fn wf(&self) -> bool {
        s_unique(self.entries@) && self.entries@.len() <= self.max_entries
    }

    /// The configured maximum entry count.
    pub closed spec fn spec_max(&self) -> u64 {
        self.max_entries
    }

    /// The configured time-to-live, in seconds.
    pub closed spec fn spec_ttl(&self) -> u64 {
        self.ttl_seconds
    }

    /// The number of entries currently stored (expired entries included
    /// until they are replaced or evicted).
    pub closed spec fn spec_len(&self) -> nat {
        self.entries@.len()
    }

    /// An entry for key `k` is stored.
    pub closed spec fn spec_contains(&self, k: Seq<char>) -> bool {
        s_contains(self.entries@, k)
    }

    /// The time the stored entry for `k` was inserted.
    pub closed spec fn spec_inserted_at(&self, k: Seq<char>) -> u64 {
        s_entry(self.entries@, k).inserted_at
    }

    /// The response stored for `k`.
    pub closed spec fn spec_resp(&self, k: Seq<char>) -> RespModel {
        s_entry(self.entries@, k).resp@
    }

    /// The entry for `k` is stored and its age at `now` is strictly below
    /// the time-to-live.
    pub open spec fn spec_live(&self, k: Seq<char>, now: u64) -> bool {
        &&& self.spec_contains(k)
        &&& self.spec_inserted_at(k) <= now
        &&& now - self.spec_inserted_at(k) < self.spec_ttl()
    }

    /// What a lookup of `k` at time `now` yields: the stored response
    /// while the entry is live, nothing otherwise.
    pub open spec fn spec_get(&self, k: Seq<char>, now: u64) -> Option<RespModel> {
        if self.spec_live(k, now) {
            Some(self.spec_resp(k))
        } else {
            None
        }
    }

    /// Creates a cache with the given size budget (in megabytes) and
    /// time-to-live (in seconds).  The budget is converted to an entry
    /// count under the fixed assumption of roughly ten kilobytes per
    /// entry; the real memory ceiling is an approximation, not an exact
    /// byte budget.
    pub fn new(size_mb: u64, ttl_seconds: u64) -> (r: CdnCache)
        requires
            size_mb * 1024 * 1024 <= u64::MAX,
        ensures
            r.wf(),
            r.spec_len() == 0,
            r.spec_max() == (size_mb * 1024 * 1024) as int / 10240int,
            r.spec_ttl() == ttl_seconds,
            forall|k: Seq<char>| !r.spec_contains(k),
    {
        let max_entries = size_mb * 1024 * 1024 / (10 * 1024);
        CdnCache { entries: Vec::new(), max_entries, ttl_seconds }
    }

    /// Finds the index of the entry carrying `key`, if one is stored.
    fn find_idx(&self, key: &String) -> (r: Option<usize>)
        ensures
            r matches Some(i) ==> i < self.entries@.len() && self.entries@[i as int].key@ == key@,
            r is None ==> !self.spec_contains(key@),
    {
        let n = self.entries.len();
        let mut i: usize = 0;
        while i < n
            invariant
                n == self.entries@.len(),
                0 <= i <= n,
                forall|j: int| 0 <= j < i ==> self.entries@[j].key@ != key@,
            decreases n - i,
        {
            if self.entries[i].key == *key {
                return Some(i);
            }
            i = i + 1;
        }
        None
    }

    /// Retrieves the response cached under `key`, if its entry is live at
    /// `now`.  An entry is treated as absent once its age reaches the
    /// time-to-live, regardless of access frequency.
    pub fn get(&self, key: &str, now: u64) -> (r: Option<&CachedResponse>)
        requires
            self.wf(),
        ensures
            r matches Some(resp) ==> self.spec_get(key@, now) == Some(resp@),
            r is None ==> self.spec_get(key@, now) is None,
    {
        let k = key.to_owned();
        match self.find_idx(&k) {
            None => None,
            Some(i) => {
                proof {
                    lemma_idx_at(self.entries@, i as int);
                }
                let e = &self.entries[i];
                if now >= e.inserted_at && now - e.inserted_at < self.ttl_seconds {
                    Some(&e.resp)
                } else {
                    None
                }
            },
        }
    }

    /// Inserts a response under `key` at time `now`, replacing any entry
    /// already stored under it.  When the store is full, one stored entry
    /// (the oldest by insertion time) is evicted first; callers must not
    /// rely on which.  A cache configured with a zero capacity stores
    /// nothing.
    pub fn insert(
        &mut self,
        key: String,
        status: u16,
        headers: Vec<(String, String)>,
        body: Vec<u8>,
        now: u64,
    )
        requires
            old(self).wf(),
        ensures
            final(self).wf(),
            final(self).spec_max() == old(self).spec_max(),
            final(self).spec_ttl() == old(self).spec_ttl(),
            old(self).spec_max() == 0 ==> final(self).spec_len() == old(self).spec_len() && forall|
                k: Seq<char>,
            | #[trigger] final(self).spec_contains(k) == old(self).spec_contains(k),
            old(self).spec_max() > 0 ==> {
                &&& final(self).spec_contains(key@)
                &&& final(self).spec_inserted_at(key@) == now
                &&& final(self).spec_resp(key@) == (RespModel {
                    status: status as int,
                    headers: headers.deep_view(),
                    body: body.deep_view(),
                })
                &&& forall|k: Seq<char>|
                    k != key@ && #[trigger] final(self).spec_contains(k) ==> old(
                        self,
                    ).spec_contains(k) && final(self).spec_resp(k) == old(self).spec_resp(k)
                        && final(self).spec_inserted_at(k) == old(self).spec_inserted_at(k)
                &&& (old(self).spec_contains(key@) || old(self).spec_len() < old(
                    self,
                ).spec_max()) ==> forall|k: Seq<char>|
                    #[trigger] old(self).spec_contains(k) ==> final(self).spec_contains(k)
                &&& final(self).spec_len() == (if old(self).spec_contains(key@) {
                    old(self).spec_len()
                } else if old(self).spec_len() < old(self).spec_max() {
                    old(self).spec_len() + 1
                } else {
                    old(self).spec_len()
                })
            },
    {
        if self.max_entries == 0 {
            return ;
        }
        match self.find_idx(&key) {
            Some(i) => {
                proof {
                    lemma_idx_at(self.entries@, i as int);
                    lemma_remove(self.entries@, i as int);
                }
                self.entries.remove(i);
            },
            None => {},
        }
        if self.entries.len() as u64 >= self.max_entries {
            let victim = self.oldest_idx();
            proof {
                lemma_remove(self.entries@, victim as int);
            }
            self.entries.remove(victim);
        }
        let entry = CacheEntry { key, resp: CachedResponse { status, headers, body }, inserted_at: now };
        proof {
            lemma_push(self.entries@, entry);
        }
        self.entries.push(entry);
    }

    /// The index of an entry with the smallest insertion time.
    fn oldest_idx(&self) -> (r: usize)
        requires
            self.entries@.len() > 0,
        ensures
            r < self.entries@.len(),
    {
        let n = self.entries.len();
        let mut best: usize = 0;
        let mut j: usize = 1;
        while j < n
            invariant
                n == self.entries@.len(),
                best < n,
                1 <= j <= n,
            decreases n - j,
        {
            if self.entries[j].inserted_at < self.entries[best].inserted_at {
                best = j;
            }
            j = j + 1;
        }
        best
    }

    /// Removes the entry stored under `key`, if any; every other entry is
    /// left as it was.
    pub fn invalidate(&mut self, key: &str)
        requires
            old(self).wf(),
        ensures
            final(self).wf(),
            final(self).spec_max() == old(self).spec_max(),
            final(self).spec_ttl() == old(self).spec_ttl(),
            !final(self).spec_contains(key@),
            forall|k: Seq<char>|
                k != key@ ==> (#[trigger] final(self).spec_contains(k) == old(self).spec_contains(
                    k,
                )),
            forall|k: Seq<char>|
                k != key@ && #[trigger] final(self).spec_contains(k) ==> final(self).spec_resp(k)
                    == old(self).spec_resp(k) && final(self).spec_inserted_at(k) == old(
                    self,
                ).spec_inserted_at(k),
            final(self).spec_len() == (if old(self).spec_contains(key@) {
                old(self).spec_len() - 1
            } else {
                old(self).spec_len() as int
            }),
    {
        let k = key.to_owned();
        match self.find_idx(&k) {
            Some(i) => {
                proof {
                    lemma_idx_at(self.entries@, i as int);
                    lemma_remove(self.entries@, i as int);
                }
                self.entries.remove(i);
            },
            None => {},
        }
    }

    /// Empties the store.
    pub fn clear(&mut self)
        requires
            old(self).wf(),
        ensures
            final(self).wf(),
            final(self).spec_max() == old(self).spec_max(),
            final(self).spec_ttl() == old(self).spec_ttl(),
            final(self).spec_len() == 0,
            forall|k: Seq<char>| !final(self).spec_contains(k),
    {
        self.entries.clear();
    }

    /// The number of entries currently stored.
    pub fn len(&self) -> (r: u64)
        requires
            self.wf(),
        ensures
            r == self.spec_len(),
    {
        self.entries.len() as u64
    }
}

/// Cache hit idempotence: once a response is stored under a key at some
/// time, every lookup of that key strictly within the time-to-live window
/// returns exactly that response, until the entry is replaced, invalidated
/// or evicted (which would falsify the premises).
pub proof fn lemma_cache_hit_idempotent(
    c: &CdnCache,
    k: Seq<char>,
    r: RespModel,
    t: u64,
    now: u64,
)
    requires
        c.spec_contains(k),
        c.spec_resp(k) == r,
        c.spec_inserted_at(k) == t,
        t <= now,
        now - t < c.spec_ttl(),
    ensures
        c.spec_get(k, now) == Some(r),
{
}

/// Capacity bound: a consistent store never holds more entries than its
/// configured maximum, whatever sequence of operations produced it.
pub proof fn lemma_capacity_bound(c: &CdnCache)
    requires
        c.wf(),
    ensures
        c.spec_len() <= c.spec_max(),
{
}

/// Time-to-live boundary: an entry inserted at time `t` is gone from
/// lookups at `t + ttl` and after, and (while still stored) served
/// strictly before `t + ttl`.
pub proof fn lemma_ttl_boundary(c: &CdnCache, k: Seq<char>, t: u64, now: u64)
    requires
        c.spec_contains(k),
        c.spec_inserted_at(k) == t,
    ensures
        now >= t + c.spec_ttl() ==> c.spec_get(k, now) is None,
        t <= now < t + c.spec_ttl() ==> c.spec_get(k, now) == Some(c.spec_resp(k)),
{
}

} // verus!
