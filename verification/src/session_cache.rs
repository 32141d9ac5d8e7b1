//! The client-side session-resumption cache.
//!
//! Sessions are cached under opaque byte-blob keys.  A cache entry combines
//! the engine's serialized session with the peer's transport parameters,
//! framed as two length-prefixed byte strings (an eight-byte big-endian
//! length before each).  The bounded cache evicts its least recently used
//! entry; it keeps the entries in an outside LRU structure, reached through
//! trusted wrappers whose contracts state what the structure's source shows.

use vstd::prelude::*;

verus! {

/// The big-endian eight-byte encoding of `v`.
pub open spec fn u64_be_bytes(v: u64) -> Seq<u8> {
    seq![
        ((v >> 56) & 0xff) as u8,
        ((v >> 48) & 0xff) as u8,
        ((v >> 40) & 0xff) as u8,
        ((v >> 32) & 0xff) as u8,
        ((v >> 24) & 0xff) as u8,
        ((v >> 16) & 0xff) as u8,
        ((v >> 8) & 0xff) as u8,
        (v & 0xff) as u8,
    ]
}

/// The value eight big-endian bytes stand for.
pub open spec fn u64_from_be(s: Seq<u8>) -> u64
    recommends
        s.len() == 8,
{
    (((s[0] as u64) << 56) | ((s[1] as u64) << 48) | ((s[2] as u64) << 40) | ((s[3] as u64) << 32)
        | ((s[4] as u64) << 24) | ((s[5] as u64) << 16) | ((s[6] as u64) << 8) | (s[7] as u64))
}

/// Eight big-endian bytes decode back to the value they encode.
pub proof fn lemma_u64_be_roundtrip(v: u64)
    ensures
        u64_from_be(u64_be_bytes(v)) == v,
{
    assert(((((((v >> 56) & 0xff) as u8) as u64) << 56) | (((((v >> 48) & 0xff) as u8) as u64)
        << 48) | (((((v >> 40) & 0xff) as u8) as u64) << 40) | (((((v >> 32) & 0xff) as u8) as u64)
        << 32) | (((((v >> 24) & 0xff) as u8) as u64) << 24) | (((((v >> 16) & 0xff) as u8) as u64)
        << 16) | (((((v >> 8) & 0xff) as u8) as u64) << 8) | (((v & 0xff) as u8) as u64)) == v)
        by (bit_vector);
}

/// Appends the big-endian eight-byte encoding of `v`.
fn push_u64_be(out: &mut Vec<u8>, v: u64)
    requires
        old(out)@.len() + 8 <= usize::MAX,
    ensures
        final(out)@ == old(out)@ + u64_be_bytes(v),
{
    out.push(((v >> 56) & 0xff) as u8);
    out.push(((v >> 48) & 0xff) as u8);
    out.push(((v >> 40) & 0xff) as u8);
    out.push(((v >> 32) & 0xff) as u8);
    out.push(((v >> 24) & 0xff) as u8);
    out.push(((v >> 16) & 0xff) as u8);
    out.push(((v >> 8) & 0xff) as u8);
    out.push((v & 0xff) as u8);
    proof {
        assert(out@ =~= old(out)@ + u64_be_bytes(v));
    }
}

/// Reads the eight big-endian bytes at `offset`.
fn read_u64_be(data: &Vec<u8>, offset: usize) -> (v: u64)
    requires
        offset + 8 <= data@.len(),
    ensures
        v == u64_from_be(data@.subrange(offset as int, offset as int + 8)),
{
    proof {
        assert(data.len() == data@.len());
    }
    let v: u64 = ((data[offset] as u64) << 56) | ((data[offset + 1] as u64) << 48) | ((data[offset
        + 2] as u64) << 40) | ((data[offset + 3] as u64) << 32) | ((data[offset + 4] as u64) << 24)
        | ((data[offset + 5] as u64) << 16) | ((data[offset + 6] as u64) << 8) | (data[offset
        + 7] as u64);
    proof {
        let s = data@.subrange(offset as int, offset as int + 8);
        assert(s[0] == data@[offset as int]);
        assert(s[1] == data@[offset as int + 1]);
        assert(s[2] == data@[offset as int + 2]);
        assert(s[3] == data@[offset as int + 3]);
        assert(s[4] == data@[offset as int + 4]);
        assert(s[5] == data@[offset as int + 5]);
        assert(s[6] == data@[offset as int + 6]);
        assert(s[7] == data@[offset as int + 7]);
    }
    v
}

/// Copies the bytes of `src` from `start` (inclusive) to `end` (exclusive).
fn copy_range(src: &Vec<u8>, start: usize, end: usize) -> (r: Vec<u8>)
    requires
        start <= end,
        end <= src@.len(),
    ensures
        r@ == src@.subrange(start as int, end as int),
{
    let mut r: Vec<u8> = Vec::new();
    let mut i: usize = start;
    while i < end
        invariant
            start <= i <= end,
            end <= src@.len(),
            r@ == src@.subrange(start as int, i as int),
        decreases end - i,
    {
        r.push(src[i]);
        proof {
            assert(r@ =~= src@.subrange(start as int, i + 1));
        }
        i = i + 1;
    }
    r
}

/// An engine session and the peer's transport parameters, both as the byte
/// strings their own encoders produced, combined into one cache value.
pub struct Entry {
    /// The serialized session.
    pub session: Vec<u8>,
    /// The serialized transport parameters.
    pub params: Vec<u8>,
}

/// The framing of a cache value: each part behind its eight-byte big-endian
/// length.
pub open spec fn entry_encoding(session: Seq<u8>, params: Seq<u8>) -> Seq<u8> {
    u64_be_bytes(session.len() as u64) + session + u64_be_bytes(params.len() as u64) + params
}

/// The session length a framed value claims.
pub open spec fn claimed_session_len(s: Seq<u8>) -> int {
    u64_from_be(s.subrange(0, 8)) as int
}

/// The parameter length a framed value claims.
pub open spec fn claimed_params_len(s: Seq<u8>) -> int {
    u64_from_be(s.subrange(8 + claimed_session_len(s), 16 + claimed_session_len(s))) as int
}

/// Whether `s` carries a complete framed cache value: both length prefixes
/// present and both claimed parts within bounds.
pub open spec fn valid_entry_encoding(s: Seq<u8>) -> bool {
    &&& s.len() >= 16
    &&& 16 + claimed_session_len(s) <= s.len()
    &&& 16 + claimed_session_len(s) + claimed_params_len(s) <= s.len()
}

/// The session bytes a framed value carries.
pub open spec fn decoded_session(s: Seq<u8>) -> Seq<u8> {
    s.subrange(8, 8 + claimed_session_len(s))
}

/// The parameter bytes a framed value carries.
pub open spec fn decoded_params(s: Seq<u8>) -> Seq<u8> {
    s.subrange(
        16 + claimed_session_len(s),
        16 + claimed_session_len(s) + claimed_params_len(s),
    )
}

impl Entry {
    /// Encodes this entry into a cache value: the session behind its length,
    /// then the parameters behind theirs.
    pub fn encode(&self) -> (r: Vec<u8>)
        requires
            self.session@.len() + self.params@.len() + 16 <= usize::MAX,
        ensures
            r@ == entry_encoding(self.session@, self.params@),
    {
        let mut out: Vec<u8> = Vec::new();
        push_u64_be(&mut out, self.session.len() as u64);
        out.extend_from_slice(self.session.as_slice());
        push_u64_be(&mut out, self.params.len() as u64);
        out.extend_from_slice(self.params.as_slice());
        proof {
            assert(out@ =~= entry_encoding(self.session@, self.params@));
        }
        out
    }

    /// Decodes a cache value back into an entry.  Bytes past the second part
    /// are ignored, as the decoders of the two parts would ignore them.
    pub fn decode(encoded: &Vec<u8>) -> (r: Entry)
        requires
            valid_entry_encoding(encoded@),
        ensures
            r.session@ == decoded_session(encoded@),
            r.params@ == decoded_params(encoded@),
    {
        proof {
            assert(encoded.len() == encoded@.len());
        }
        let n1_u64 = read_u64_be(encoded, 0);
        proof {
            assert(n1_u64 as int == claimed_session_len(encoded@));
        }
        let n1 = n1_u64 as usize;
        let session = copy_range(encoded, 8, 8 + n1);
        let n2_u64 = read_u64_be(encoded, 8 + n1);
        proof {
            assert(n2_u64 as int == claimed_params_len(encoded@));
        }
        let n2 = n2_u64 as usize;
        let params = copy_range(encoded, 16 + n1, 16 + n1 + n2);
        Entry { session, params }
    }
}

/// A client-side session cache, keyed by opaque byte blobs.  Every
/// implementation names its own structural invariant, which each operation
/// preserves.
pub trait SessionCache {
    /// The implementation's structural invariant.
    spec fn inv(&self) -> bool;

    /// Adds the given value to the session cache.
    fn put(&mut self, key: Vec<u8>, value: Vec<u8>)
        requires
            old(self).inv(),
        ensures
            final(self).inv(),
    ;

    /// Returns the cached session, if it exists.
    fn get(&mut self, key: &Vec<u8>) -> (r: Option<Vec<u8>>)
        requires
            old(self).inv(),
        ensures
            final(self).inv(),
    ;

    /// Removes the cached session, if it exists.
    fn remove(&mut self, key: &Vec<u8>)
        requires
            old(self).inv(),
        ensures
            final(self).inv(),
    ;

    /// Removes all entries from the cache.
    fn clear(&mut self)
        requires
            old(self).inv(),
        ensures
            final(self).inv(),
    ;
}

/// A session cache that never caches anything.  Requires no storage.
pub struct NoSessionCache;

impl SessionCache for NoSessionCache {
    open spec fn inv(&self) -> bool {
        true
    }

    fn put(&mut self, _key: Vec<u8>, _value: Vec<u8>) {
    }

    fn get(&mut self, _key: &Vec<u8>) -> Option<Vec<u8>> {
        None
    }

    fn remove(&mut self, _key: &Vec<u8>) {
    }

    fn clear(&mut self) {
    }
}

#[verifier::external_type_specification]
#[verifier::external_body]
#[verifier::reject_recursive_types(K)]
#[verifier::reject_recursive_types(V)]
#[verifier::reject_recursive_types(S)]
pub struct ExLruCache<K, V, S>(lru::LruCache<K, V, S>);

/// The LRU structure the cache keeps its entries in.
pub type SessionLru = lru::LruCache<Vec<u8>, Vec<u8>, std::collections::hash_map::RandomState>;

/// The key-to-value association an LRU structure holds.
pub uninterp spec fn lru_contents(c: SessionLru) -> Map<Seq<u8>, Seq<u8>>;

/// The keys an LRU structure holds, most recently used first.
pub uninterp spec fn lru_recency(c: SessionLru) -> Seq<Seq<u8>>;

/// The capacity an LRU structure was made with.
pub uninterp spec fn lru_capacity(c: SessionLru) -> nat;

/// The association of a cache that holds nothing.
pub open spec fn empty_contents() -> Map<Seq<u8>, Seq<u8>> {
    Map::empty()
}

/// The recency order with one key taken out.
pub open spec fn without_key(order: Seq<Seq<u8>>, k: Seq<u8>) -> Seq<Seq<u8>> {
    order.filter(|x: Seq<u8>| x != k)
}

/// What the LRU structure maintains: the recency order lists each held key
/// exactly once, within capacity.
pub open spec fn lru_wf(c: SessionLru) -> bool {
    &&& lru_capacity(c) >= 1
    &&& lru_contents(c).dom().finite()
    &&& lru_recency(c).no_duplicates()
    &&& lru_recency(c).to_set() == lru_contents(c).dom()
    &&& lru_recency(c).len() == lru_contents(c).len()
    &&& lru_recency(c).len() <= lru_capacity(c)
}

/// Relies on lru::LruCache::new: an empty cache holding at most `cap`
/// entries.
#[verifier::external_body]
fn lru_new(cap: usize) -> (c: SessionLru)
    requires
        cap >= 1,
    ensures
        lru_wf(c),
        lru_contents(c) == empty_contents(),
        lru_recency(c) == Seq::<Seq<u8>>::empty(),
        lru_capacity(c) == cap,
{
    lru::LruCache::with_hasher(
        std::num::NonZeroUsize::new(cap).unwrap(),
        std::collections::hash_map::RandomState::new(),
    )
}

/// Relies on lru::LruCache::put: a held key gets the new value, becomes the
/// most recent, and the old value comes back; a new key is inserted as the
/// most recent, evicting the least recently used entry when the cache is
/// full.
#[verifier::external_body]
fn lru_put(c: &mut SessionLru, k: Vec<u8>, v: Vec<u8>) -> (r: Option<Vec<u8>>)
    requires
        lru_wf(*old(c)),
    ensures
        lru_wf(*final(c)),
        lru_capacity(*final(c)) == lru_capacity(*old(c)),
        lru_contents(*old(c)).contains_key(k@) ==> (lru_contents(*final(c)) == lru_contents(
            *old(c),
        ).insert(k@, v@) && lru_recency(*final(c)) == seq![k@] + without_key(
            lru_recency(*old(c)),
            k@,
        ) && (r matches Some(prev) && prev@ == lru_contents(*old(c))[k@])),
        !lru_contents(*old(c)).contains_key(k@) && lru_recency(*old(c)).len() < lru_capacity(
            *old(c),
        ) ==> (lru_contents(*final(c)) == lru_contents(*old(c)).insert(k@, v@) && lru_recency(
            *final(c),
        ) == seq![k@] + lru_recency(*old(c)) && r is None),
        !lru_contents(*old(c)).contains_key(k@) && lru_recency(*old(c)).len() == lru_capacity(
            *old(c),
        ) ==> (lru_contents(*final(c)) == lru_contents(*old(c)).remove(
            lru_recency(*old(c)).last(),
        ).insert(k@, v@) && lru_recency(*final(c)) == seq![k@] + lru_recency(
            *old(c),
        ).drop_last() && r is None),
{
    c.put(k, v)
}

/// Relies on lru::LruCache::get: a hit returns the value and marks the key
/// most recent; a miss changes nothing.
#[verifier::external_body]
fn lru_get(c: &mut SessionLru, k: &Vec<u8>) -> (r: Option<Vec<u8>>)
    requires
        lru_wf(*old(c)),
    ensures
        lru_wf(*final(c)),
        lru_capacity(*final(c)) == lru_capacity(*old(c)),
        lru_contents(*final(c)) == lru_contents(*old(c)),
        lru_contents(*old(c)).contains_key(k@) ==> (r matches Some(v) && v@ == lru_contents(
            *old(c),
        )[k@] && lru_recency(*final(c)) == seq![k@] + without_key(lru_recency(*old(c)), k@)),
        !lru_contents(*old(c)).contains_key(k@) ==> (r is None && lru_recency(*final(c))
            == lru_recency(*old(c))),
{
    c.get(k).cloned()
}

/// Relies on lru::LruCache::pop: removes the key's entry and returns its
/// value; a miss changes nothing.
#[verifier::external_body]
fn lru_pop(c: &mut SessionLru, k: &Vec<u8>) -> (r: Option<Vec<u8>>)
    requires
        lru_wf(*old(c)),
    ensures
        lru_wf(*final(c)),
        lru_capacity(*final(c)) == lru_capacity(*old(c)),
        lru_contents(*final(c)) == lru_contents(*old(c)).remove(k@),
        lru_recency(*final(c)) == without_key(lru_recency(*old(c)), k@),
        lru_contents(*old(c)).contains_key(k@) ==> (r matches Some(v) && v@ == lru_contents(
            *old(c),
        )[k@]),
        !lru_contents(*old(c)).contains_key(k@) ==> r is None,
{
    c.pop(k)
}

/// Relies on lru::LruCache::clear: removes every entry.
#[verifier::external_body]
fn lru_clear(c: &mut SessionLru)
    requires
        lru_wf(*old(c)),
    ensures
        lru_wf(*final(c)),
        lru_capacity(*final(c)) == lru_capacity(*old(c)),
        lru_contents(*final(c)) == empty_contents(),
        lru_recency(*final(c)) == Seq::<Seq<u8>>::empty(),
{
    c.clear()
}

/// Relies on lru::LruCache::len: the number of held entries.
#[verifier::external_body]
fn lru_len(c: &SessionLru) -> (n: usize)
    requires
        lru_wf(*c),
    ensures
        n == lru_recency(*c).len(),
{
    c.len()
}

/// A bounded session cache with least-recently-used eviction.
pub struct SimpleCache {
    /// The outside LRU structure holding the entries.
    pub cache: SessionLru,
}

impl SimpleCache {
    /// The key-to-value association the cache holds.
    pub open spec fn contents(&self) -> Map<Seq<u8>, Seq<u8>> {
        lru_contents(self.cache)
    }

    /// The held keys, most recently used first.
    pub open spec fn recency(&self) -> Seq<Seq<u8>> {
        lru_recency(self.cache)
    }

    /// The most entries the cache will hold.
    pub open spec fn capacity(&self) -> nat {
        lru_capacity(self.cache)
    }

    /// The cache's structural invariant.
    pub open spec fn wf(&self) -> bool {
        lru_wf(self.cache)
    }

    /// An empty cache holding at most `num_entries` entries.  A capacity of
    /// zero is excluded: the underlying structure has no meaning for it.
    pub fn new(num_entries: usize) -> (c: SimpleCache)
        requires
            num_entries >= 1,
        ensures
            c.wf(),
            c.contents() == Map::<Seq<u8>, Seq<u8>>::empty(),
            c.recency() == Seq::<Seq<u8>>::empty(),
            c.capacity() == num_entries,
    {
        SimpleCache { cache: lru_new(num_entries) }
    }

    /// Stores `value` under `key` and makes the key the most recent.  When a
    /// new key would exceed the capacity, the least recently used entry
    /// leaves first.
    pub fn put_entry(&mut self, key: Vec<u8>, value: Vec<u8>)
        requires
            old(self).wf(),
        ensures
            final(self).wf(),
            final(self).capacity() == old(self).capacity(),
            final(self).contents().contains_key(key@),
            final(self).contents()[key@] == value@,
            final(self).recency().len() > 0 && final(self).recency()[0] == key@,
            old(self).contents().contains_key(key@) ==> (final(self).contents() == old(
                self,
            ).contents().insert(key@, value@) && final(self).recency() == seq![key@] + without_key(
                old(self).recency(),
                key@,
            )),
            !old(self).contents().contains_key(key@) && old(self).recency().len() < old(
                self,
            ).capacity() ==> (final(self).contents() == old(self).contents().insert(key@, value@)
                && final(self).recency() == seq![key@] + old(self).recency()),
            !old(self).contents().contains_key(key@) && old(self).recency().len() == old(
                self,
            ).capacity() ==> (final(self).contents() == old(self).contents().remove(
                old(self).recency().last(),
            ).insert(key@, value@) && final(self).recency() == seq![key@] + old(
                self,
            ).recency().drop_last()),
    {
        let ghost k = key@;
        let _ = lru_put(&mut self.cache, key, value);
        proof {
            if old(self).contents().contains_key(k) {
                assert(self.recency()[0] == k);
            } else if old(self).recency().len() < old(self).capacity() {
                assert(self.recency()[0] == k);
            } else {
                assert(self.recency()[0] == k);
            }
        }
    }

    /// Returns the value cached under `key`, if any, and on a hit makes the
    /// key the most recent.  The association itself never changes.
    pub fn get_entry(&mut self, key: &Vec<u8>) -> (r: Option<Vec<u8>>)
        requires
            old(self).wf(),
        ensures
            final(self).wf(),
            final(self).capacity() == old(self).capacity(),
            final(self).contents() == old(self).contents(),
            old(self).contents().contains_key(key@) ==> (r matches Some(v) && v@ == old(
                self,
            ).contents()[key@] && final(self).recency() == seq![key@] + without_key(
                old(self).recency(),
                key@,
            )),
            !old(self).contents().contains_key(key@) ==> (r is None && final(self).recency()
                == old(self).recency()),
    {
        lru_get(&mut self.cache, key)
    }

    /// Removes the entry cached under `key`, if any.
    pub fn remove_entry(&mut self, key: &Vec<u8>)
        requires
            old(self).wf(),
        ensures
            final(self).wf(),
            final(self).capacity() == old(self).capacity(),
            final(self).contents() == old(self).contents().remove(key@),
            final(self).recency() == without_key(old(self).recency(), key@),
            !final(self).contents().contains_key(key@),
    {
        let _ = lru_pop(&mut self.cache, key);
    }

    /// Removes every entry.
    pub fn clear_entries(&mut self)
        requires
            old(self).wf(),
        ensures
            final(self).wf(),
            final(self).capacity() == old(self).capacity(),
            final(self).contents() == Map::<Seq<u8>, Seq<u8>>::empty(),
            final(self).recency() == Seq::<Seq<u8>>::empty(),
    {
        lru_clear(&mut self.cache);
    }

    /// The number of entries held, never above the capacity.
    pub fn len(&self) -> (n: usize)
        requires
            self.wf(),
        ensures
            n == self.contents().len(),
            n <= self.capacity(),
    {
        lru_len(&self.cache)
    }
}

impl SessionCache for SimpleCache {
    open spec fn inv(&self) -> bool {
        self.wf()
    }

    fn put(&mut self, key: Vec<u8>, value: Vec<u8>) {
        self.put_entry(key, value);
    }

    fn get(&mut self, key: &Vec<u8>) -> Option<Vec<u8>> {
        self.get_entry(key)
    }

    fn remove(&mut self, key: &Vec<u8>) {
        self.remove_entry(key);
    }

    fn clear(&mut self) {
        self.clear_entries();
    }
}

/// A value framed by `encode` is valid and decodes back to the same entry.
pub proof fn lemma_entry_roundtrip(session: Seq<u8>, params: Seq<u8>)
    requires
        session.len() + params.len() + 16 <= usize::MAX,
    ensures
        valid_entry_encoding(entry_encoding(session, params)),
        decoded_session(entry_encoding(session, params)) == session,
        decoded_params(entry_encoding(session, params)) == params,
{
    let e = entry_encoding(session, params);
    lemma_u64_be_roundtrip(session.len() as u64);
    lemma_u64_be_roundtrip(params.len() as u64);
    assert(e.subrange(0, 8) =~= u64_be_bytes(session.len() as u64));
    assert(claimed_session_len(e) == session.len());
    assert(e.subrange(8 + session.len() as int, 16 + session.len() as int) =~= u64_be_bytes(
        params.len() as u64,
    ));
    assert(claimed_params_len(e) == params.len());
    assert(decoded_session(e) =~= session);
    assert(decoded_params(e) =~= params);
}

} // verus!
