//! The static-asset path: a cache-aside store keyed by file name, a
//! content-hash-derived entity tag, and the conditional-request decision.
//! Unlike the response cache, this store has no time-to-live and no
//! capacity bound; unbounded growth is accepted for this secondary path.

use vstd::prelude::*;
use vstd::string::StrSliceExecFns;
use vstd::string::StringExecFns;
use vstd::utf8::is_ascii_chars;

verus! {

/// What the SHA-256 digest of a byte sequence is; a function of the input
/// alone.
pub uninterp spec fn sha256_of(data: Seq<u8>) -> Seq<u8>;

/// Relies on `sha2::Sha256` through the `Digest` trait: the digest is 32
/// bytes and depends on the input bytes alone.
#[verifier::external_body]
fn sha256_digest(data: &[u8]) -> (r: Vec<u8>)
    ensures
        r@ == sha256_of(data@),
        r@.len() == 32,
{
    <sha2::Sha256 as sha2::Digest>::digest(data).to_vec()
}

/// The lowercase hexadecimal digit for a value below sixteen.
pub open spec fn hex_digit(d: int) -> char {
    if d == 0 {
        '0'
    } else if d == 1 {
        '1'
    } else if d == 2 {
        '2'
    } else if d == 3 {
        '3'
    } else if d == 4 {
        '4'
    } else if d == 5 {
        '5'
    } else if d == 6 {
        '6'
    } else if d == 7 {
        '7'
    } else if d == 8 {
        '8'
    } else if d == 9 {
        '9'
    } else if d == 10 {
        'a'
    } else if d == 11 {
        'b'
    } else if d == 12 {
        'c'
    } else if d == 13 {
        'd'
    } else if d == 14 {
        'e'
    } else {
        'f'
    }
}

/// The lowercase hexadecimal encoding of a byte sequence: two digits per
/// byte, high nibble first.
pub open spec fn hex_of(data: Seq<u8>) -> Seq<char>
    decreases data.len(),
{
    if data.len() == 0 {
        Seq::empty()
    } else {
        seq![hex_digit(data.first() as int / 16), hex_digit(data.first() as int % 16)] + hex_of(
            data.drop_first(),
        )
    }
}

/// The hexadecimal encoding is twice as long as its input and all ASCII.
pub proof fn lemma_hex_of_shape(data: Seq<u8>)
    ensures
        hex_of(data).len() == 2 * data.len(),
        is_ascii_chars(hex_of(data)),
    decreases data.len(),
{
    if data.len() == 0 {
    } else {
        lemma_hex_of_shape(data.drop_first());
    }
}

/// Relies on `hex::encode`: each byte becomes two lowercase hexadecimal
/// digits, high nibble first.
#[verifier::external_body]
fn hex_encode(data: &[u8]) -> (r: String)
    ensures
        r@ == hex_of(data@),
{
    hex::encode(data)
}

/// The entity tag derived from asset content: the first 32 hexadecimal
/// digits of the content's SHA-256 digest, wrapped in double quotes.
pub open spec fn spec_etag(content: Seq<u8>) -> Seq<char> {
    "\""@ + hex_of(sha256_of(content)).take(32) + "\""@
}

/// Computes the entity tag for asset content.
pub fn compute_etag(content: &[u8]) -> (r: String)
    ensures
        r@ == spec_etag(content@),
{
    let digest = sha256_digest(content);
    let full_hex = hex_encode(digest.as_slice());
    proof {
        lemma_hex_of_shape(digest@);
    }
    let prefix = full_hex.as_str().substring_ascii(0, 32);
    let mut tag = "\"".to_owned();
    tag.append(prefix);
    tag.append("\"");
    proof {
        assert(hex_of(digest@).subrange(0, 32) =~= hex_of(sha256_of(content@)).take(32));
    }
    tag
}

/// One stored asset: its content bytes and the derived entity tag.
pub struct AssetEntry {
    /// The file's bytes, as read once from disk.
    pub content: Vec<u8>,
    /// The content-derived entity tag served with the asset.
    pub etag: String,
}

/// The mathematical model of a stored asset.
pub ghost struct AssetModel {
    /// The content bytes.
    pub content: Seq<u8>,
    /// The entity tag.
    pub etag: Seq<char>,
}

impl View for AssetEntry {
    type V = AssetModel;

    open spec fn view(&self) -> AssetModel {
        AssetModel { content: self.content.deep_view(), etag: self.etag@ }
    }
}

/// One slot of the asset store.
struct AssetSlot {
    name: String,
    entry: AssetEntry,
}

/// No two slots share a file name.
spec fn a_unique(s: Seq<AssetSlot>) -> bool {
    forall|i: int, j: int|
        0 <= i < j < s.len() ==> #[trigger] s[i].name@ != #[trigger] s[j].name@
}

/// Some slot carries file name `k`.
spec fn a_contains(s: Seq<AssetSlot>, k: Seq<char>) -> bool {
    exists|i: int| 0 <= i < s.len() && #[trigger] s[i].name@ == k
}

/// The index of the slot carrying file name `k`.
spec fn a_idx(s: Seq<AssetSlot>, k: Seq<char>) -> int {
    choose|i: int| 0 <= i < s.len() && #[trigger] s[i].name@ == k
}

/// With unique names, the slot at a valid index is the one its name finds.
proof fn lemma_a_idx_at(s: Seq<AssetSlot>, i: int)
    requires
        a_unique(s),
        0 <= i < s.len(),
    ensures
        a_contains(s, s[i].name@),
        a_idx(s, s[i].name@) == i,
{
    let j = a_idx(s, s[i].name@);
    if j != i {
        assert(s[i].name@ != s[j].name@);
    }
}

/// Removing a slot keeps names unique, removes exactly that name, and
/// leaves every other slot as it was.
proof fn lemma_a_remove(s: Seq<AssetSlot>, i: int)
    requires
        a_unique(s),
        0 <= i < s.len(),
    ensures
        a_unique(s.remove(i)),
        forall|k: Seq<char>|
            #[trigger] a_contains(s.remove(i), k) <==> (a_contains(s, k) && k != s[i].name@),
        forall|k: Seq<char>|
            a_contains(s.remove(i), k) ==> #[trigger] s.remove(i)[a_idx(s.remove(i), k)] == s[
                a_idx(s, k)
            ],
{
    let t = s.remove(i);
    assert forall|k: Seq<char>| #[trigger] a_contains(t, k) implies (a_contains(s, k) && k != s[
        i
    ].name@) by {
        let j = choose|j: int| 0 <= j < t.len() && #[trigger] t[j].name@ == k;
        let j0 = if j < i {
            j
        } else {
            j + 1
        };
        assert(s[j0].name@ == k);
        if k == s[i].name@ {
            assert(j0 != i);
            if j0 < i {
                assert(s[j0].name@ != s[i].name@);
            } else {
                assert(s[i].name@ != s[j0].name@);
            }
        }
    }
    assert forall|k: Seq<char>| a_contains(s, k) && k != s[i].name@ implies #[trigger] a_contains(
        t,
        k,
    ) by {
        let j = choose|j: int| 0 <= j < s.len() && #[trigger] s[j].name@ == k;
        if j < i {
            assert(t[j].name@ == k);
        } else {
            assert(j != i);
            assert(t[j - 1].name@ == k);
        }
    }
    assert forall|k: Seq<char>| a_contains(t, k) implies #[trigger] t[a_idx(t, k)] == s[a_idx(
        s,
        k,
    )] by {
        let j = a_idx(t, k);
        assert(0 <= j < t.len() && t[j].name@ == k);
        let j0 = if j < i {
            j
        } else {
            j + 1
        };
        assert(s[j0] == t[j]);
        lemma_a_idx_at(s, j0);
    }
    assert forall|a: int, b: int| 0 <= a < b < t.len() implies #[trigger] t[a].name@
        != #[trigger] t[b].name@ by {
        let a0 = if a < i {
            a
        } else {
            a + 1
        };
        let b0 = if b < i {
            b
        } else {
            b + 1
        };
        assert(t[a] == s[a0] && t[b] == s[b0]);
        assert(s[a0].name@ != s[b0].name@);
    }
}

/// Appending a slot with a fresh name keeps names unique, adds exactly
/// that name, and leaves every other slot as it was.
proof fn lemma_a_push(s: Seq<AssetSlot>, e: AssetSlot)
    requires
        a_unique(s),
        !a_contains(s, e.name@),
    ensures
        a_unique(s.push(e)),
        forall|k: Seq<char>|
            #[trigger] a_contains(s.push(e), k) <==> (a_contains(s, k) || k == e.name@),
        s.push(e)[a_idx(s.push(e), e.name@)] == e,
        forall|k: Seq<char>|
            a_contains(s, k) ==> #[trigger] s.push(e)[a_idx(s.push(e), k)] == s[a_idx(s, k)],
{
    let t = s.push(e);
    assert(t[s.len() as int] == e);
    assert forall|a: int, b: int| 0 <= a < b < t.len() implies #[trigger] t[a].name@
        != #[trigger] t[b].name@ by {
        if b < s.len() {
            assert(s[a].name@ != s[b].name@);
        } else {
            lemma_a_idx_at(s, a);
        }
    }
    assert forall|k: Seq<char>| #[trigger] a_contains(t, k) implies (a_contains(s, k) || k
        == e.name@) by {
        let j = choose|j: int| 0 <= j < t.len() && #[trigger] t[j].name@ == k;
        if j < s.len() {
            assert(s[j].name@ == k);
        }
    }
    assert forall|k: Seq<char>| a_contains(s, k) || k == e.name@ implies #[trigger] a_contains(
        t,
        k,
    ) by {
        if a_contains(s, k) {
            let j = choose|j: int| 0 <= j < s.len() && #[trigger] s[j].name@ == k;
            assert(t[j].name@ == k);
        } else {
            assert(t[s.len() as int].name@ == k);
        }
    }
    lemma_a_idx_at(t, s.len() as int);
    assert forall|k: Seq<char>| a_contains(s, k) implies #[trigger] t[a_idx(t, k)] == s[a_idx(
        s,
        k,
    )] by {
        let j = a_idx(s, k);
        assert(0 <= j < s.len() && s[j].name@ == k);
        assert(t[j] == s[j]);
        lemma_a_idx_at(t, j);
    }
}

/// The cache-aside store for static assets, keyed by file name.
pub struct AssetCache {
    slots: Vec<AssetSlot>,
}

impl AssetCache {
    /// Internal consistency: file names are unique.
    pub closed spec fn wf(&self) -> bool {
        a_unique(self.slots@)
    }

    /// An asset is stored under file name `k`.
    pub closed spec fn spec_contains(&self, k: Seq<char>) -> bool {
        a_contains(self.slots@, k)
    }

    /// The asset stored under `k`.
    pub closed spec fn spec_asset(&self, k: Seq<char>) -> AssetModel {
        self.slots@[a_idx(self.slots@, k)].entry@
    }

    /// The number of stored assets.
    pub closed spec fn spec_len(&self) -> nat {
        self.slots@.len()
    }

    /// Creates an empty store.
    pub fn new() -> (r: AssetCache)
        ensures
            r.wf(),
            r.spec_len() == 0,
            forall|k: Seq<char>| !r.spec_contains(k),
    {
        AssetCache { slots: Vec::new() }
    }

    /// Finds the index of the slot carrying `name`, if one is stored.
    fn find_idx(&self, name: &String) -> (r: Option<usize>)
        ensures
            r matches Some(i) ==> i < self.slots@.len() && self.slots@[i as int].name@ == name@,
            r is None ==> !self.spec_contains(name@),
    {
        let n = self.slots.len();
        let mut i: usize = 0;
        while i < n
            invariant
                n == self.slots@.len(),
                0 <= i <= n,
                forall|j: int| 0 <= j < i ==> self.slots@[j].name@ != name@,
            decreases n - i,
        {
            if self.slots[i].name == *name {
                return Some(i);
            }
            i = i + 1;
        }
        None
    }

    /// Retrieves the asset stored under `name`, if any.
    pub fn get(&self, name: &str) -> (r: Option<&AssetEntry>)
        requires
            self.wf(),
        ensures
            r matches Some(e) ==> self.spec_contains(name@) && e@ == self.spec_asset(name@),
            r is None ==> !self.spec_contains(name@),
    {
        let k = name.to_owned();
        match self.find_idx(&k) {
            None => None,
            Some(i) => {
                proof {
                    lemma_a_idx_at(self.slots@, i as int);
                }
                Some(&self.slots[i].entry)
            },
        }
    }

    /// Stores `entry` under `name`, replacing wholesale any asset already
    /// stored under it; every other asset is left as it was.
    pub fn insert(&mut self, name: String, entry: AssetEntry)
        requires
            old(self).wf(),
        ensures
            final(self).wf(),
            final(self).spec_contains(name@),
            final(self).spec_asset(name@) == entry@,
            forall|k: Seq<char>|
                k != name@ ==> (#[trigger] final(self).spec_contains(k) == old(self).spec_contains(
                    k,
                )),
            forall|k: Seq<char>|
                k != name@ && #[trigger] final(self).spec_contains(k) ==> final(self).spec_asset(k)
                    == old(self).spec_asset(k),
            final(self).spec_len() == (if old(self).spec_contains(name@) {
                old(self).spec_len() as int
            } else {
                old(self).spec_len() + 1int
            }),
    {
        match self.find_idx(&name) {
            Some(i) => {
                proof {
                    lemma_a_idx_at(self.slots@, i as int);
                    lemma_a_remove(self.slots@, i as int);
                }
                self.slots.remove(i);
            },
            None => {},
        }
        let slot = AssetSlot { name, entry };
        proof {
            lemma_a_push(self.slots@, slot);
        }
        self.slots.push(slot);
    }

    /// The number of stored assets.
    pub fn len(&self) -> (r: usize)
        ensures
            r == self.spec_len(),
    {
        self.slots.len()
    }
}

/// The conditional-request decision: a `304 Not Modified` is owed exactly
/// when the client presented an `If-None-Match` value equal to the stored
/// entity tag.
pub fn not_modified(etag: &String, if_none_match: Option<&String>) -> (r: bool)
    ensures
        r == (match if_none_match {
            Some(v) => v@ == etag@,
            None => false,
        }),
{
    match if_none_match {
        Some(v) => *v == *etag,
        None => false,
    }
}

/// The headers served with an asset: its entity tag, the fixed long-lived
/// cache-control directive, and the cache-status indicator.
pub fn asset_headers(etag: &String, from_cache: bool) -> (r: Vec<(String, String)>)
    ensures
        r.deep_view() =~= seq![
            ("etag"@, etag@),
            ("cache-control"@, "public, max-age=86400"@),
            ("x-shadowstep-cache"@, (if from_cache {
                "HIT"@
            } else {
                "MISS"@
            })),
        ],
{
    let mut out: Vec<(String, String)> = Vec::new();
    out.push(("etag".to_owned(), etag.clone()));
    out.push(("cache-control".to_owned(), "public, max-age=86400".to_owned()));
    let indicator = if from_cache {
        "HIT".to_owned()
    } else {
        "MISS".to_owned()
    };
    out.push(("x-shadowstep-cache".to_owned(), indicator));
    out
}

/// Reads the file's content through the store: computes the entity tag,
/// stores the asset under `name`, and returns the tag.
pub fn store_asset(cache: &mut AssetCache, name: &str, content: Vec<u8>) -> (r: String)
    requires
        old(cache).wf(),
    ensures
        final(cache).wf(),
        r@ == spec_etag(content@),
        final(cache).spec_contains(name@),
        final(cache).spec_asset(name@) == (AssetModel {
            content: content.deep_view(),
            etag: spec_etag(content@),
        }),
        forall|k: Seq<char>|
            k != name@ ==> (#[trigger] final(cache).spec_contains(k) == old(cache).spec_contains(
                k,
            )),
{
    let etag = compute_etag(content.as_slice());
    let entry = AssetEntry { content, etag: etag.clone() };
    cache.insert(name.to_owned(), entry);
    etag
}

/// Counters for the diagnostics endpoint: hits, misses, and the stored
/// item count.  Saturating at the integer bound, which is never reached in
/// practice.
pub struct CacheStats {
    /// Number of lookups answered from the store.
    pub hits: u64,
    /// Number of lookups that had to read from disk.
    pub misses: u64,
    /// Item count of the store after the last miss.
    pub items: u64,
}

impl CacheStats {
    /// Fresh counters, all zero.
    pub fn new() -> (r: CacheStats)
        ensures
            r.hits == 0,
            r.misses == 0,
            r.items == 0,
    {
        CacheStats { hits: 0, misses: 0, items: 0 }
    }

    /// Counts a hit.
    pub fn record_hit(&mut self)
        ensures
            final(self).hits == (if old(self).hits < u64::MAX {
                old(self).hits + 1
            } else {
                old(self).hits as int
            }),
            final(self).misses == old(self).misses,
            final(self).items == old(self).items,
    {
        if self.hits < u64::MAX {
            self.hits = self.hits + 1;
        }
    }

    /// Counts a miss and records the store's item count.
    pub fn record_miss(&mut self, items: u64)
        ensures
            final(self).misses == (if old(self).misses < u64::MAX {
                old(self).misses + 1
            } else {
                old(self).misses as int
            }),
            final(self).hits == old(self).hits,
            final(self).items == items,
    {
        if self.misses < u64::MAX {
            self.misses = self.misses + 1;
        }
        self.items = items;
    }
}

} // verus!
