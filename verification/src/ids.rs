//! Generational ID pools bridging the VA-API `u32` ID space and typed keys.
//!
//! libva hands callers opaque 32-bit IDs for configs, surfaces, contexts,
//! buffers and images. Internally every object is named by a typed 64-bit key
//! ([`ConfigKey`], [`SurfaceKey`], ...) issued by a [`slotmap::DenseSlotMap`]:
//! the low half is the slot's index, the high half the slot's version, which
//! grows each time the slot is filled and each time it is vacated.
//!
//! [`key_to_id`] packs both into 32 bits: 16 of the index and 16 of the version.
//! Pools stay far below 2^16 live entries, so the index fits, and no two live
//! keys share an ID: the ID of a live object resolves to exactly that object
//! ([`Pool::lookup`]). The version bits tell 2^16 generations of a slot apart,
//! so a stale ID fails the lookup when its slot holds another object.

use slotmap::{DefaultKey, DenseSlotMap, Key, KeyData};
use vstd::prelude::*;

verus! {

/// The number of live entries at which a pool is full: every slot index fits
/// the 16 bits that an ID has for it, and no ID is all ones.
pub const POOL_LIMIT: u32 = 0xFFFE;

/// The number of generations of a slot that the version bits of an ID tell
/// apart.
pub const GENERATIONS: u32 = 0x1_0000;

/// The slot's index in a key.
pub open spec fn slot_index(raw: u64) -> u32 {
    (raw & 0xFFFF_FFFF) as u32
}

/// The slot's version in a key.
pub open spec fn version_bits(raw: u64) -> u32 {
    (raw >> 32) as u32
}

/// The ID that a client gets for a key: 16 bits of the slot's index, and above
/// them 16 bits of the slot's version. The lowest bit of the version is left
/// out, since it is set in every issued key.
pub open spec fn id_of(raw: u64) -> u32 {
    ((raw & 0xFFFF) | (((raw >> 33) & 0xFFFF) << 16)) as u32
}

/// A raw key with the version made odd, as every issued key has it.
pub open spec fn occupied_raw(raw: u64) -> u64 {
    raw | 0x1_0000_0000
}

// ---------------------------------------------------------------------------
// The slot table
// ---------------------------------------------------------------------------

/// The generational key table: a `DenseSlotMap` that holds no payload of its
/// own. The records that belong to its keys lie beside it, in the same dense
/// order (see [`Pool`]).
#[verifier::external_body]
pub struct SlotTable {
    inner: DenseSlotMap<DefaultKey, ()>,
}

/// The raw form of every live key of a table, in the table's dense order.
pub uninterp spec fn slot_keys(table: SlotTable) -> Seq<u64>;

/// The version of every slot of a table by index; odd exactly for the slots
/// in use. Slot 0 is a sentinel that is never used.
pub uninterp spec fn slot_versions(table: SlotTable) -> Seq<u32>;

/// Outside call: `DenseSlotMap::new`. An empty table holds no key and the
/// sentinel slot alone.
#[verifier::external_body]
fn slots_new() -> (table: SlotTable)
    ensures
        slot_keys(table) == Seq::<u64>::empty(),
        slot_versions(table) == seq![0u32],
{
    SlotTable { inner: DenseSlotMap::new() }
}

/// Outside call: `DenseSlotMap::insert`, which panics on a full map.
///
/// The new key goes to the end of the dense order. Its slot is a vacant one or
/// a fresh one at the end, and never the sentinel; no live key has that slot. A
/// fresh slot is taken only where no slot is vacant, so that every slot but the
/// sentinel has a live key. The key's version is the slot's new one, which is
/// odd.
#[verifier::external_body]
fn slots_insert(table: &mut SlotTable) -> (raw: u64)
    requires
        slot_keys(*old(table)).len() < POOL_LIMIT,
    ensures
        slot_keys(*final(table)) == slot_keys(*old(table)).push(raw),
        forall|i: int|
            0 <= i < slot_keys(*old(table)).len() ==> slot_index(
                #[trigger] slot_keys(*old(table))[i],
            ) != slot_index(raw),
        occupied_raw(raw) == raw,
        1 <= slot_index(raw) <= slot_versions(*old(table)).len(),
        slot_index(raw) == slot_versions(*old(table)).len() ==> slot_keys(*old(table)).len() + 1
            == slot_versions(*old(table)).len() && version_bits(raw) == 1
            && slot_versions(*final(table)) == slot_versions(*old(table)).push(1u32),
        slot_index(raw) < slot_versions(*old(table)).len() ==> {
            let before = slot_versions(*old(table))[slot_index(raw) as int];
            &&& before % 2 == 0
            &&& version_bits(raw) == before + 1
            &&& slot_versions(*final(table)) == slot_versions(*old(table)).update(
                slot_index(raw) as int,
                version_bits(raw),
            )
        },
{
    table.inner.insert(()).data().as_ffi()
}

/// Outside call: `DenseSlotMap::remove`, on a key that is live.
///
/// The last key of the dense order takes the removed key's place, and the
/// slot's version goes up by one, wrapping at 32 bits.
#[verifier::external_body]
fn slots_remove(table: &mut SlotTable, raw: u64)
    requires
        occupied_raw(raw) == raw,
        slot_keys(*old(table)).contains(raw),
    ensures
        slot_keys(*final(table)) == swap_removed(
            slot_keys(*old(table)),
            slot_keys(*old(table)).index_of(raw),
        ),
        slot_index(raw) < slot_versions(*old(table)).len(),
        slot_versions(*old(table))[slot_index(raw) as int] == version_bits(raw),
        slot_versions(*final(table)) == slot_versions(*old(table)).update(
            slot_index(raw) as int,
            next_version(version_bits(raw)),
        ),
{
    table.inner.remove(DefaultKey::from(KeyData::from_ffi(raw)));
}

/// Outside call: `DenseSlotMap::keys`, each key as the integer that
/// `KeyData::as_ffi` gives.
#[verifier::external_body]
fn slots_raw_keys(table: &SlotTable) -> (raws: Vec<u64>)
    ensures
        raws@ == slot_keys(*table),
{
    table.inner.keys().map(|k| k.data().as_ffi()).collect()
}

/// Outside call: `KeyData::from_ffi`, read back with `KeyData::as_ffi`: the
/// same bits with the version made odd.
#[verifier::external_body]
fn raw_through_key_data(raw: u64) -> (data: u64)
    ensures
        data == occupied_raw(raw),
{
    KeyData::from_ffi(raw).as_ffi()
}

/// A sequence from which the entry at `i` was removed by moving the last entry
/// into its place.
pub open spec fn swap_removed<T>(s: Seq<T>, i: int) -> Seq<T> {
    s.update(i, s.last()).drop_last()
}

/// A slot version one step on.
pub open spec fn next_version(v: u32) -> u32 {
    if v == u32::MAX {
        0
    } else {
        (v + 1) as u32
    }
}

/// The number of steps from one slot version to another, going up and coming
/// round at 32 bits.
pub open spec fn versions_between(from: u32, to: u32) -> int {
    if from <= to {
        to - from
    } else {
        to - from + 0x1_0000_0000
    }
}

/// The parts of an ID: where the slot index fits 16 bits, an ID gives it and
/// the low bits of the slot's generation.
proof fn lemma_id_parts(a: u64, b: u64)
    ensures
        slot_index(a) <= 0xFFFF && slot_index(b) <= 0xFFFF && id_of(a) == id_of(b) ==> slot_index(a)
            == slot_index(b) && (version_bits(a) / 2) % GENERATIONS == (version_bits(b) / 2)
            % GENERATIONS,
        1 <= slot_index(a) <= POOL_LIMIT ==> id_of(a) != 0 && id_of(a) != 0xFFFF_FFFF,
{
    assert(((a & 0xFFFF_FFFF) as u32) <= 0xFFFF && ((b & 0xFFFF_FFFF) as u32) <= 0xFFFF && ((a
        & 0xFFFF) | (((a >> 33) & 0xFFFF) << 16)) as u32 == ((b & 0xFFFF) | (((b >> 33) & 0xFFFF)
        << 16)) as u32 ==> ((a & 0xFFFF_FFFF) as u32) == ((b & 0xFFFF_FFFF) as u32) && (((a >> 32)
        as u32) / 2) % 0x1_0000 == (((b >> 32) as u32) / 2) % 0x1_0000) by (bit_vector);
    assert(1 <= ((a & 0xFFFF_FFFF) as u32) && ((a & 0xFFFF_FFFF) as u32) <= 0xFFFE ==> ((a & 0xFFFF)
        | (((a >> 33) & 0xFFFF) << 16)) as u32 != 0 && ((a & 0xFFFF) | (((a >> 33) & 0xFFFF)
        << 16)) as u32 != 0xFFFF_FFFF) by (bit_vector);
}

// ---------------------------------------------------------------------------
// Typed keys
// ---------------------------------------------------------------------------

/// A typed pool key: a wrapper round the raw 64-bit form.
pub trait PoolKey: Sized + Copy {
    /// The raw form.
    spec fn raw(self) -> u64;

    /// The key with a given raw form.
    spec fn of(raw: u64) -> Self;

    /// A key is named by its raw form.
    proof fn lemma_of_raw(self)
        ensures
            Self::of(self.raw()) == self,
    ;

    /// Every integer is the raw form of the key it gives.
    proof fn lemma_raw_of(raw: u64)
        ensures
            Self::of(raw).raw() == raw,
    ;

    fn data(self) -> (raw: u64)
        ensures
            raw == self.raw(),
    ;

    fn from_data(raw: u64) -> (key: Self)
        ensures
            key == Self::of(raw),
    ;
}

/// Key of an entry in the config pool.
#[derive(Clone, Copy, Debug, PartialEq, Eq, Structural)]
pub struct ConfigKey {
    pub raw: u64,
}

/// Key of an entry in the surface pool.
#[derive(Clone, Copy, Debug, PartialEq, Eq, Structural)]
pub struct SurfaceKey {
    pub raw: u64,
}

/// Key of an entry in the context pool.
#[derive(Clone, Copy, Debug, PartialEq, Eq, Structural)]
pub struct ContextKey {
    pub raw: u64,
}

/// Key of an entry in the buffer pool.
#[derive(Clone, Copy, Debug, PartialEq, Eq, Structural)]
pub struct BufferKey {
    pub raw: u64,
}

/// Key of an entry in the image pool.
#[derive(Clone, Copy, Debug, PartialEq, Eq, Structural)]
pub struct ImageKey {
    pub raw: u64,
}

impl PoolKey for ConfigKey {
    open spec fn raw(self) -> u64 {
        self.raw
    }

    open spec fn of(raw: u64) -> Self {
        ConfigKey { raw }
    }

    proof fn lemma_of_raw(self) {
    }

    proof fn lemma_raw_of(raw: u64) {
    }

    fn data(self) -> (raw: u64) {
        self.raw
    }

    fn from_data(raw: u64) -> (key: Self) {
        ConfigKey { raw }
    }
}

impl PoolKey for SurfaceKey {
    open spec fn raw(self) -> u64 {
        self.raw
    }

    open spec fn of(raw: u64) -> Self {
        SurfaceKey { raw }
    }

    proof fn lemma_of_raw(self) {
    }

    proof fn lemma_raw_of(raw: u64) {
    }

    fn data(self) -> (raw: u64) {
        self.raw
    }

    fn from_data(raw: u64) -> (key: Self) {
        SurfaceKey { raw }
    }
}

impl PoolKey for ContextKey {
    open spec fn raw(self) -> u64 {
        self.raw
    }

    open spec fn of(raw: u64) -> Self {
        ContextKey { raw }
    }

    proof fn lemma_of_raw(self) {
    }

    proof fn lemma_raw_of(raw: u64) {
    }

    fn data(self) -> (raw: u64) {
        self.raw
    }

    fn from_data(raw: u64) -> (key: Self) {
        ContextKey { raw }
    }
}

impl PoolKey for BufferKey {
    open spec fn raw(self) -> u64 {
        self.raw
    }

    open spec fn of(raw: u64) -> Self {
        BufferKey { raw }
    }

    proof fn lemma_of_raw(self) {
    }

    proof fn lemma_raw_of(raw: u64) {
    }

    fn data(self) -> (raw: u64) {
        self.raw
    }

    fn from_data(raw: u64) -> (key: Self) {
        BufferKey { raw }
    }
}

impl PoolKey for ImageKey {
    open spec fn raw(self) -> u64 {
        self.raw
    }

    open spec fn of(raw: u64) -> Self {
        ImageKey { raw }
    }

    proof fn lemma_of_raw(self) {
    }

    proof fn lemma_raw_of(raw: u64) {
    }

    fn data(self) -> (raw: u64) {
        self.raw
    }

    fn from_data(raw: u64) -> (key: Self) {
        ImageKey { raw }
    }
}

fn raw_to_id(raw: u64) -> (id: u32)
    ensures
        id == id_of(raw),
{
    ((raw & 0xFFFF) | (((raw >> 33) & 0xFFFF) << 16)) as u32
}

/// Pack a key into the 32-bit VA ID space: the slot's index and version, 16
/// bits each.
pub fn key_to_id<K: PoolKey>(k: K) -> (id: u32)
    ensures
        id == id_of(k.raw()),
{
    raw_to_id(k.data())
}

/// Reverse lookup: the key of `map_probe` that `id` names.
pub fn id_to_key<K: PoolKey, M: ContainsKey<K>>(id: u32, map_probe: &M) -> (found: Option<K>)
    requires
        map_probe.probe_wf(),
    ensures
        match found {
            Some(k) => map_probe.probe_keys().contains(k) && id_of(k.raw()) == id,
            None => forall|k: K|
                map_probe.probe_keys().contains(k) ==> id_of(#[trigger] k.raw()) != id,
        },
{
    map_probe.find_by_low_bits(id)
}

/// Rebuild a key from all 64 bits of its raw form. The version is made odd, so
/// the raw form of every issued key gives back that key.
pub fn key_from_raw<K: PoolKey>(raw: u64) -> (key: K)
    ensures
        key == K::of(occupied_raw(raw)),
        occupied_raw(raw) == raw ==> key.raw() == raw,
{
    proof {
        K::lemma_raw_of(raw);
    }
    K::from_data(raw_through_key_data(raw))
}

/// Implemented by every pool type that supports reverse lookup by ID.
pub trait ContainsKey<K: PoolKey>: Sized {
    /// The pool can be searched.
    spec fn probe_wf(&self) -> bool;

    /// The keys that a search covers.
    spec fn probe_keys(&self) -> Set<K>;

    /// A key that `id` names, if there is any.
    fn find_by_low_bits(&self, id: u32) -> (found: Option<K>)
        requires
            self.probe_wf(),
        ensures
            match found {
                Some(k) => self.probe_keys().contains(k) && id_of(k.raw()) == id,
                None => forall|k: K|
                    self.probe_keys().contains(k) ==> id_of(#[trigger] k.raw()) != id,
            },
    ;
}

// ---------------------------------------------------------------------------
// Pools
// ---------------------------------------------------------------------------

/// The key of a map that a client's ID names.
pub open spec fn find_id<K: PoolKey, T>(m: Map<K, T>, id: u32) -> Option<K> {
    if exists|k: K| #[trigger] m.contains_key(k) && id_of(k.raw()) == id {
        Some(choose|k: K| #[trigger] m.contains_key(k) && id_of(k.raw()) == id)
    } else {
        None
    }
}

/// Keys are retired as before, with as many reuses of their slots.
pub open spec fn same_ages<K: PoolKey, V: View>(before: Pool<K, V>, after: Pool<K, V>) -> bool {
    forall|k: K|
        #![trigger before.retired(k)]
        #![trigger after.retired(k)]
        after.retired(k) == before.retired(k) && after.reuses(k) == before.reuses(k)
}

/// Keys that were retired still are, and keys that are gone were retired.
pub open spec fn lost_are_retired<K: PoolKey, V: View>(
    before: Pool<K, V>,
    after: Pool<K, V>,
) -> bool {
    &&& forall|k: K| #[trigger]
        before.retired(k) ==> after.retired(k) && after.reuses(k) == before.reuses(k)
    &&& forall|k: K| #[trigger]
        before@.contains_key(k) && !after@.contains_key(k) ==> after.retired(k)
            && after.reuses(k) == 0
}

/// Keys that were retired still are after a number of insertions, each of which
/// uses one slot once more. A slot's version comes round after 2^31 reuses.
pub open spec fn retired_through<K: PoolKey, V: View>(
    before: Pool<K, V>,
    after: Pool<K, V>,
    insertions: int,
) -> bool {
    forall|k: K| #[trigger]
        before.retired(k) && before.reuses(k) + insertions < 0x8000_0000 ==> after.retired(k)
            && before.reuses(k) <= after.reuses(k) <= before.reuses(k) + insertions
}

/// A pool gained one record, which a new nonzero ID names; the other records,
/// and the IDs that name them, are as before.
pub open spec fn gained<K: PoolKey, V: View>(
    before: Pool<K, V>,
    after: Pool<K, V>,
    id: u32,
    record: V::V,
) -> bool {
    &&& after.wf()
    &&& id != 0
    &&& find_id(before@, id) is None
    &&& find_id(after@, id) matches Some(k) && {
        &&& id_of(k.raw()) == id
        &&& !before@.contains_key(k)
        &&& after@ == before@.insert(k, record)
        &&& after.order() == before.order().push(k)
    }
    &&& retired_through(before, after, 1)
}

/// A pool lost one record: no ID names it any more, and the other records are
/// as before. The last key of the dense order takes the place of the lost one.
pub open spec fn lost<K: PoolKey, V: View>(before: Pool<K, V>, after: Pool<K, V>, key: K) -> bool {
    &&& after.wf()
    &&& before@.contains_key(key)
    &&& after@ == before@.remove(key)
    &&& after.order() == swap_removed(before.order(), before.order().index_of(key))
    &&& after.order().len() == before.order().len() - 1
    &&& find_id(after@, id_of(key.raw())) is None
    &&& lost_are_retired(before, after)
}

/// One record of a pool changed in place.
pub open spec fn changed<K: PoolKey, V: View>(
    before: Pool<K, V>,
    after: Pool<K, V>,
    key: K,
    record: V::V,
) -> bool {
    &&& after.wf()
    &&& before@.contains_key(key)
    &&& after@ == before@.insert(key, record)
    &&& after.order() == before.order()
    &&& same_ages(before, after)
}

/// A pool of records: the slot table that issues the keys, and the records in
/// the table's dense order.
#[verifier::reject_recursive_types(K)]
#[verifier::reject_recursive_types(V)]
pub struct Pool<K: PoolKey, V: View> {
    slots: SlotTable,
    records: Vec<V>,
    marker: Ghost<Option<K>>,
}

impl<K: PoolKey, V: View> View for Pool<K, V> {
    type V = Map<K, V::V>;

    /// The records by key.
    closed spec fn view(&self) -> Map<K, V::V> {
        Map::new(
            |k: K| slot_keys(self.slots).contains(k.raw()),
            |k: K| self.records@[slot_keys(self.slots).index_of(k.raw())]@,
        )
    }
}

impl<K: PoolKey, V: View> Pool<K, V> {
    /// The live keys in dense order: insertion appends, and removal moves the
    /// last key into the gap.
    pub closed spec fn order(&self) -> Seq<K> {
        slot_keys(self.slots).map_values(|raw: u64| K::of(raw))
    }

    /// What every operation keeps: one record per key, no two live keys with
    /// one ID, no key with ID 0, and a key is live exactly where its slot is
    /// in use at the key's version.
    pub closed spec fn wf(&self) -> bool {
        let keys = slot_keys(self.slots);
        let versions = slot_versions(self.slots);
        &&& keys.len() == self.records@.len()
        &&& keys.len() <= POOL_LIMIT
        &&& 1 <= versions.len() <= POOL_LIMIT + 1
        &&& forall|i: int, j: int|
            0 <= i < keys.len() && 0 <= j < keys.len() && i != j ==> slot_index(
                #[trigger] keys[i],
            ) != slot_index(#[trigger] keys[j])
        &&& forall|i: int|
            0 <= i < keys.len() ==> {
                &&& occupied_raw(#[trigger] keys[i]) == keys[i]
                &&& 1 <= slot_index(keys[i]) < versions.len()
                &&& versions[slot_index(keys[i]) as int] == version_bits(keys[i])
                &&& version_bits(keys[i]) % 2 == 1
            }
    }

    /// The key was issued and removed: it has the form of an issued key, and
    /// its slot is at another version.
    pub closed spec fn retired(&self, k: K) -> bool {
        &&& version_bits(k.raw()) % 2 == 1
        &&& slot_index(k.raw()) < slot_versions(self.slots).len()
        &&& version_bits(k.raw()) != slot_versions(self.slots)[slot_index(k.raw()) as int]
    }

    /// How many keys the slot of a retired key was given to since. Versions
    /// come round at 32 bits, two steps per key.
    pub closed spec fn reuses(&self, k: K) -> int {
        versions_between(
            version_bits(k.raw()),
            slot_versions(self.slots)[slot_index(k.raw()) as int],
        ) / 2
    }

    /// The live key that a client's ID names.
    pub open spec fn lookup(&self, id: u32) -> Option<K> {
        find_id(self@, id)
    }

    /// Another record can be stored.
    pub open spec fn has_room(&self) -> bool {
        self.order().len() < POOL_LIMIT
    }

    /// The pool holds nothing.
    pub open spec fn is_vacant(&self) -> bool {
        self@ == Map::<K, V::V>::empty() && self.order() == Seq::<K>::empty()
    }

    /// The dense order lists exactly the live keys, each once; IDs are nonzero
    /// and not `VA_INVALID_ID`, name one key each, and resolve to the key they
    /// come from.
    pub proof fn lemma_pool(&self)
        requires
            self.wf(),
        ensures
            self.order().len() <= POOL_LIMIT,
            self.order().no_duplicates(),
            self.order().len() == self@.dom().len(),
            self@.dom().finite(),
            forall|i: int|
                0 <= i < self.order().len() ==> self@.contains_key(#[trigger] self.order()[i]),
            forall|k: K| #[trigger] self@.contains_key(k) ==> self.order().contains(k),
            forall|k: K| #[trigger]
                self@.contains_key(k) ==> id_of(k.raw()) != 0 && id_of(k.raw()) != 0xFFFF_FFFF
                    && self.lookup(id_of(k.raw())) == Some(k) && occupied_raw(k.raw()) == k.raw(),
            forall|k: K, j: K| #[trigger]
                self@.contains_key(k) && #[trigger] self@.contains_key(j) && id_of(k.raw()) == id_of(
                    j.raw(),
                ) ==> k == j,
    {
        let keys = slot_keys(self.slots);
        assert forall|i: int| 0 <= i < keys.len() implies (#[trigger] self.order()[i]).raw()
            == keys[i] by {
            K::lemma_raw_of(keys[i]);
        }
        assert forall|i: int| 0 <= i < self.order().len() implies self@.contains_key(
            #[trigger] self.order()[i],
        ) by {
            assert(keys[i] == self.order()[i].raw());
        }
        assert forall|k: K| #[trigger] self@.contains_key(k) implies self.order().contains(k) by {
            let i = keys.index_of(k.raw());
            assert(keys[i] == k.raw());
            k.lemma_of_raw();
            assert(self.order()[i] == k);
        }
        assert forall|k: K, j: K| #[trigger]
            self@.contains_key(k) && #[trigger] self@.contains_key(j) && id_of(k.raw()) == id_of(
                j.raw(),
            ) implies k == j by {
            let a = keys.index_of(k.raw());
            let b = keys.index_of(j.raw());
            assert(keys[a] == k.raw() && keys[b] == j.raw());
            lemma_id_parts(k.raw(), j.raw());
            k.lemma_of_raw();
            j.lemma_of_raw();
        }
        assert(self.order().no_duplicates()) by {
            assert forall|i: int, j: int|
                0 <= i < self.order().len() && 0 <= j < self.order().len() && i
                    != j implies self.order()[i] != self.order()[j] by {
                assert(self.order()[i].raw() == keys[i] && self.order()[j].raw() == keys[j]);
            }
        }
        assert forall|k: K| #[trigger] self@.contains_key(k) implies id_of(k.raw()) != 0 && id_of(
            k.raw(),
        ) != 0xFFFF_FFFF && self.lookup(id_of(k.raw())) == Some(k) && occupied_raw(k.raw())
            == k.raw() by {
            let a = keys.index_of(k.raw());
            assert(keys[a] == k.raw());
            lemma_id_parts(k.raw(), k.raw());
        }
        self.order().unique_seq_to_set();
        assert(self.order().to_set() =~= self@.dom());
    }

    /// A retired key is not live, and its ID names nothing while the version
    /// bits of the ID tell the slot's keys apart.
    pub proof fn lemma_retired(&self, k: K)
        requires
            self.wf(),
            self.retired(k),
        ensures
            !self@.contains_key(k),
            0 <= self.reuses(k) < 0x8000_0000,
            self.reuses(k) < GENERATIONS ==> self.lookup(id_of(k.raw())) == None::<K>,
    {
        let keys = slot_keys(self.slots);
        if self@.contains_key(k) {
            let a = keys.index_of(k.raw());
            assert(keys[a] == k.raw());
        }
        if let Some(j) = self.lookup(id_of(k.raw())) {
            assert(self@.contains_key(j) && id_of(j.raw()) == id_of(k.raw()));
            let a = keys.index_of(j.raw());
            assert(keys[a] == j.raw());
            lemma_id_parts(k.raw(), j.raw());
        }
    }

    /// An empty pool.
    pub fn new() -> (pool: Self)
        ensures
            pool.wf(),
            pool.is_vacant(),
    {
        let pool = Pool { slots: slots_new(), records: Vec::new(), marker: Ghost(None) };
        proof {
            assert(pool@ =~= Map::<K, V::V>::empty());
            assert(pool.order() =~= Seq::<K>::empty());
        }
        pool
    }

    /// The number of live records.
    pub fn len(&self) -> (n: usize)
        requires
            self.wf(),
        ensures
            n == self.order().len(),
            n == self@.dom().len(),
            n <= POOL_LIMIT,
    {
        proof {
            self.lemma_pool();
        }
        self.records.len()
    }

    /// Store a record under a fresh key, whose ID is nonzero and is the ID of
    /// no other live key.
    pub fn insert(&mut self, record: V) -> (key: K)
        requires
            old(self).wf(),
            old(self).has_room(),
        ensures
            final(self).wf(),
            !old(self)@.contains_key(key),
            old(self).lookup(id_of(key.raw())) == None::<K>,
            id_of(key.raw()) != 0,
            occupied_raw(key.raw()) == key.raw(),
            final(self)@ == old(self)@.insert(key, record@),
            final(self).order() == old(self).order().push(key),
            retired_through(*old(self), *final(self), 1),
    {
        let ghost keys0 = slot_keys(self.slots);
        let ghost before = *self;
        let raw: u64 = slots_insert(&mut self.slots);
        self.records.push(record);
        let key = K::from_data(raw);
        proof {
            K::lemma_raw_of(raw);
            let keys1 = slot_keys(self.slots);
            assert(raw >> 32 & 1 == 1) by (bit_vector)
                requires
                    raw | 0x1_0000_0000 == raw,
            ;
            assert(((raw >> 32) as u32) % 2 == 1) by (bit_vector)
                requires
                    raw >> 32 & 1 == 1,
            ;
            assert forall|i: int, j: int|
                0 <= i < keys1.len() && 0 <= j < keys1.len() && i != j implies slot_index(
                #[trigger] keys1[i],
            ) != slot_index(#[trigger] keys1[j]) by {
                if i == keys0.len() {
                    assert(keys1[j] == keys0[j]);
                } else if j == keys0.len() {
                    assert(keys1[i] == keys0[i]);
                } else {
                    assert(keys1[i] == keys0[i] && keys1[j] == keys0[j]);
                }
            }
            assert(!keys0.contains(raw));
            assert forall|k: K| before@.contains_key(k) implies id_of(k.raw()) != id_of(raw) by {
                let a = keys0.index_of(k.raw());
                assert(keys0[a] == k.raw());
                lemma_id_parts(k.raw(), raw);
            }
            lemma_id_parts(raw, raw);
            assert forall|i: int| 0 <= i < keys1.len() implies {
                &&& occupied_raw(#[trigger] keys1[i]) == keys1[i]
                &&& 1 <= slot_index(keys1[i]) < slot_versions(self.slots).len()
                &&& slot_versions(self.slots)[slot_index(keys1[i]) as int] == version_bits(keys1[i])
                &&& version_bits(keys1[i]) % 2 == 1
            } by {
                if i < keys0.len() {
                    assert(keys1[i] == keys0[i]);
                }
            }
            assert(self.wf());
            assert(self.order() =~= before.order().push(key));
            assert forall|k: K| #[trigger] self@.contains_key(k) <==> before@.contains_key(k) || k
                == key by {
                k.lemma_of_raw();
                if keys0.contains(k.raw()) {
                    let a = keys0.index_of(k.raw());
                    assert(keys1[a] == k.raw());
                }
                if keys1.contains(k.raw()) {
                    let a = keys1.index_of(k.raw());
                    if a < keys0.len() {
                        assert(keys0[a] == k.raw());
                    }
                }
                assert(keys1[keys0.len() as int] == raw);
            }
            assert forall|k: K| #[trigger] self@.contains_key(k) implies self@[k]
                == before@.insert(key, record@)[k] by {
                let a = keys1.index_of(k.raw());
                assert(keys1[a] == k.raw());
                if k == key {
                    assert(keys1[keys0.len() as int] == raw);
                    assert(a == keys0.len());
                } else {
                    let b = keys0.index_of(k.raw());
                    assert(keys0[b] == k.raw() && keys1[b] == k.raw());
                    assert(a == b);
                }
            }
            assert(self@ =~= before@.insert(key, record@));
        }
        key
    }

    /// Whether another record can be stored.
    pub fn room(&self) -> (room: bool)
        requires
            self.wf(),
        ensures
            room == self.has_room(),
    {
        self.len() < POOL_LIMIT as usize
    }

    /// Store a record and give the ID that names it.
    pub fn insert_id(&mut self, record: V) -> (id: u32)
        requires
            old(self).wf(),
            old(self).has_room(),
        ensures
            gained(*old(self), *final(self), id, record@),
    {
        let key = self.insert(record);
        proof {
            self.lemma_pool();
            assert(self@.contains_key(key));
        }
        key_to_id(key)
    }

    /// Take out the record that an ID names.
    pub fn remove_id(&mut self, id: u32) -> (record: Option<V>)
        requires
            old(self).wf(),
        ensures
            match old(self).lookup(id) {
                Some(k) => record matches Some(r) && r@ == old(self)@[k] && lost(
                    *old(self),
                    *final(self),
                    k,
                ),
                None => record is None && *final(self) == *old(self),
            },
    {
        match self.find_by_low_bits(id) {
            Some(key) => self.remove(key),
            None => None,
        }
    }

    /// The record that an ID names.
    pub fn get_id(&self, id: u32) -> (record: Option<&V>)
        requires
            self.wf(),
        ensures
            match self.lookup(id) {
                Some(k) => record matches Some(r) && r@ == self@[k] && self@.contains_key(k),
                None => record is None,
            },
    {
        match self.find_by_low_bits(id) {
            Some(key) => self.get(key),
            None => None,
        }
    }

    /// Position of a key in the dense order.
    fn position(&self, key: K) -> (at: Option<usize>)
        requires
            self.wf(),
        ensures
            match at {
                Some(i) => i < self.order().len() && slot_keys(self.slots)[i as int] == key.raw()
                    && slot_keys(self.slots).index_of(key.raw()) == i && self@.contains_key(key),
                None => !self@.contains_key(key),
            },
    {
        let raws = slots_raw_keys(&self.slots);
        let want: u64 = key.data();
        let mut i: usize = 0;
        while i < raws.len()
            invariant
                self.wf(),
                want == key.raw(),
                raws@ == slot_keys(self.slots),
                i <= raws.len(),
                forall|j: int| 0 <= j < i ==> raws@[j] != want,
            decreases raws.len() - i,
        {
            if raws[i] == want {
                proof {
                    let a = raws@.index_of(want);
                    assert(raws@[i as int] == want);
                    assert(raws@[a] == want);
                    assert(a == i);
                }
                return Some(i);
            }
            i += 1;
        }
        None
    }

    /// Whether a key is live.
    pub fn contains_key(&self, key: K) -> (live: bool)
        requires
            self.wf(),
        ensures
            live == self@.contains_key(key),
    {
        self.position(key).is_some()
    }

    /// The key at a position of the dense order.
    pub fn key_at(&self, i: usize) -> (key: K)
        requires
            self.wf(),
            i < self.order().len(),
        ensures
            key == self.order()[i as int],
            self@.contains_key(key),
    {
        proof {
            self.lemma_pool();
        }
        let raws = slots_raw_keys(&self.slots);
        K::from_data(raws[i])
    }

    /// The record of a live key.
    pub fn get(&self, key: K) -> (record: Option<&V>)
        requires
            self.wf(),
        ensures
            match record {
                Some(r) => self@.contains_key(key) && r@ == self@[key],
                None => !self@.contains_key(key),
            },
    {
        match self.position(key) {
            Some(i) => Some(&self.records[i]),
            None => None,
        }
    }

    /// The record of a live key, for change in place. The other records and
    /// the keys stay as they are.
    pub fn get_mut(&mut self, key: K) -> (record: Option<&mut V>)
        requires
            old(self).wf(),
        ensures
            match record {
                Some(r) => {
                    &&& old(self)@.contains_key(key)
                    &&& (*r)@ == old(self)@[key]
                    &&& final(self).wf()
                    &&& final(self)@ == old(self)@.insert(key, (*final(r))@)
                    &&& final(self).order() == old(self).order()
                    &&& same_ages(*old(self), *final(self))
                },
                None => !old(self)@.contains_key(key) && *final(self) == *old(self),
            },
    {
        match self.position(key) {
            Some(i) => {
                let ghost before = *self;
                proof {
                    assert forall|after: Self|
                        #![trigger after.view()]
                        #![trigger after.wf()]
                        #![trigger after.order()]
                        after.slots == before.slots && after.records@ == before.records@.update(
                            i as int,
                            after.records@[i as int],
                        ) implies after.wf() && after@ == before@.insert(
                        key,
                        after.records@[i as int]@,
                    ) && after.order() == before.order() && same_ages(before, after) by {
                        lemma_record_changed(before, after, key);
                    }
                }
                Some(&mut self.records[i])
            },
            None => None,
        }
    }

    /// Take a record out. Its key is retired: its ID names nothing for as many
    /// reuses of the slot as the version bits of an ID tell apart.
    pub fn remove(&mut self, key: K) -> (record: Option<V>)
        requires
            old(self).wf(),
        ensures
            final(self).wf(),
            match record {
                Some(r) => {
                    &&& old(self)@.contains_key(key)
                    &&& r@ == old(self)@[key]
                    &&& final(self)@ == old(self)@.remove(key)
                    &&& final(self).order() == swap_removed(
                        old(self).order(),
                        old(self).order().index_of(key),
                    )
                    &&& final(self).order().len() == old(self).order().len() - 1
                    &&& final(self).lookup(id_of(key.raw())) == None::<K>
                    &&& lost_are_retired(*old(self), *final(self))
                },
                None => !old(self)@.contains_key(key) && *final(self) == *old(self),
            },
    {
        let ghost keys0 = slot_keys(self.slots);
        let ghost before = *self;
        match self.position(key) {
            Some(i) => {
                let raw: u64 = key.data();
                proof {
                    before.lemma_pool();
                    assert(keys0[i as int] == raw);
                }
                slots_remove(&mut self.slots, raw);
                let record = self.records.swap_remove(i);
                proof {
                    let keys1 = slot_keys(self.slots);
                    let n = keys0.len() as int;
                    assert(keys1 == keys0.update(i as int, keys0.last()).drop_last());
                    assert forall|a: int| 0 <= a < keys1.len() implies #[trigger] keys1[a] == keys0[if a == i {
                        n - 1
                    } else {
                        a
                    }] by {
                    }
                    assert(self.records@ =~= before.records@.update(i as int, before.records@[n - 1]).drop_last());
                    assert(self.wf());
                    let o = before.order();
                    assert(o[i as int] == key) by {
                        key.lemma_of_raw();
                    }
                    assert(o.index_of(key) == i);
                    assert(self.order() =~= swap_removed(o, i as int));
                    assert forall|k: K| #[trigger] self@.contains_key(k) <==> before@.contains_key(k)
                        && k != key by {
                        k.lemma_of_raw();
                        key.lemma_of_raw();
                        if self@.contains_key(k) {
                            let a = keys1.index_of(k.raw());
                            assert(keys1[a] == k.raw());
                            assert(keys0[if a == i {
                                n - 1
                            } else {
                                a
                            }] == k.raw());
                        }
                        if before@.contains_key(k) && k != key {
                            let b = keys0.index_of(k.raw());
                            assert(keys0[b] == k.raw());
                            if b == n - 1 {
                                assert(keys1[i as int] == k.raw());
                            } else {
                                assert(keys1[b] == k.raw());
                            }
                        }
                    }
                    assert forall|k: K| #[trigger] self@.contains_key(k) implies self@[k] == before@[k] by {
                        let a = keys1.index_of(k.raw());
                        assert(keys1[a] == k.raw());
                        let b = keys0.index_of(k.raw());
                        assert(keys0[b] == k.raw());
                        let a0 = if a == i {
                            n - 1
                        } else {
                            a
                        };
                        assert(keys0[a0] == k.raw());
                        assert(a0 == b);
                    }
                    assert(self@ =~= before@.remove(key));
                    assert forall|k: K| #[trigger] self@.contains_key(k) implies id_of(k.raw())
                        != id_of(key.raw()) by {
                        assert(before@.contains_key(k) && before@.contains_key(key));
                    }
                }
                Some(record)
            },
            None => None,
        }
    }
}

/// Changing one record in place changes that entry of the view alone.
proof fn lemma_record_changed<K: PoolKey, V: View>(before: Pool<K, V>, after: Pool<K, V>, key: K)
    requires
        before.wf(),
        before@.contains_key(key),
        after.slots == before.slots,
        ({
            let at = slot_keys(before.slots).index_of(key.raw());
            after.records@ == before.records@.update(at, after.records@[at])
        }),
    ensures
        after.wf(),
        after@ == before@.insert(
            key,
            after.records@[slot_keys(before.slots).index_of(key.raw())]@,
        ),
        after.order() == before.order(),
        same_ages(before, after),
{
    let keys = slot_keys(before.slots);
    let at = keys.index_of(key.raw());
    assert(keys[at] == key.raw());
    assert forall|k: K| #[trigger] after@.contains_key(k) implies after@[k] == before@.insert(
        key,
        after.records@[at]@,
    )[k] by {
        let a = keys.index_of(k.raw());
        assert(keys[a] == k.raw());
        k.lemma_of_raw();
        key.lemma_of_raw();
    }
    assert(after@ =~= before@.insert(key, after.records@[at]@));
}

impl<K: PoolKey, V: View> ContainsKey<K> for Pool<K, V> {
    open spec fn probe_wf(&self) -> bool {
        self.wf()
    }

    open spec fn probe_keys(&self) -> Set<K> {
        self@.dom()
    }

    fn find_by_low_bits(&self, id: u32) -> (found: Option<K>)
        ensures
            found == self.lookup(id),
    {
        proof {
            self.lemma_pool();
        }
        let raws = slots_raw_keys(&self.slots);
        let mut i: usize = 0;
        while i < raws.len()
            invariant
                self.wf(),
                raws@ == slot_keys(self.slots),
                i <= raws.len(),
                forall|j: int| 0 <= j < i ==> id_of(#[trigger] raws@[j]) != id,
            decreases raws.len() - i,
        {
            let raw: u64 = raws[i];
            if raw_to_id(raw) == id {
                let key = K::from_data(raw);
                proof {
                    K::lemma_raw_of(raw);
                    self.lemma_pool();
                    assert(raws@[i as int] == raw);
                    assert(slot_keys(self.slots).contains(key.raw()));
                    assert(self@.contains_key(key));
                }
                return Some(key);
            }
            i += 1;
        }
        proof {
            assert forall|k: K| #[trigger] self@.contains_key(k) implies id_of(k.raw()) != id by {
                let a = slot_keys(self.slots).index_of(k.raw());
                assert(raws@[a] == k.raw());
            }
        }
        None
    }
}

// ---------------------------------------------------------------------------
// Laws
// ---------------------------------------------------------------------------

/// A stale ID fails the lookup and does not alias a new record: once a record
/// was taken out, its ID names nothing, also while the slot holds other
/// records, for as many reuses of the slot as the version bits of an ID tell
/// apart.
pub proof fn law_stale_id_finds_nothing<K: PoolKey, V: View>(pool: Pool<K, V>, key: K)
    requires
        pool.wf(),
        pool.retired(key),
        pool.reuses(key) < GENERATIONS,
    ensures
        find_id(pool@, id_of(key.raw())) is None,
        !pool@.contains_key(key),
{
    pool.lemma_retired(key);
}

/// The ID of a record that is taken out stays dead through the insertion that
/// follows, whichever slot that takes.
pub proof fn law_reused_slot_has_another_id<K: PoolKey, V: View>(
    before: Pool<K, V>,
    removed: Pool<K, V>,
    stored: Pool<K, V>,
    key: K,
    new_id: u32,
    record: V::V,
)
    requires
        lost(before, removed, key),
        gained(removed, stored, new_id, record),
    ensures
        new_id != id_of(key.raw()),
        find_id(stored@, id_of(key.raw())) is None,
{
    assert(before@.contains_key(key) && !removed@.contains_key(key));
    assert(removed.retired(key));
    stored.lemma_retired(key);
}

/// An ID keeps naming its record while other records come and go.
pub proof fn law_live_id_is_stable<K: PoolKey, V: View>(
    before: Pool<K, V>,
    after: Pool<K, V>,
    id: u32,
    new_id: u32,
    record: V::V,
    other: K,
)
    requires
        before.wf(),
        find_id(before@, id) is Some,
    ensures
        gained(before, after, new_id, record) ==> find_id(after@, id) == find_id(before@, id)
            && after@[find_id(before@, id)->Some_0] == before@[find_id(before@, id)->Some_0],
        lost(before, after, other) && find_id(before@, id) != Some(other) ==> find_id(after@, id)
            == find_id(before@, id) && after@[find_id(before@, id)->Some_0] == before@[find_id(
            before@,
            id,
        )->Some_0],
{
    let k = find_id(before@, id)->Some_0;
    assert(before@.contains_key(k) && id_of(k.raw()) == id);
    before.lemma_pool();
    if gained(before, after, new_id, record) || lost(before, after, other) {
        after.lemma_pool();
        if after@.contains_key(k) {
            assert(after.lookup(id_of(k.raw())) == Some(k));
        }
    }
}

/// What was stored is found: the ID of a new record names it, and once the
/// record is taken out the ID names nothing, so that taking it out again
/// fails.
pub proof fn law_stored_found_removed_gone<K: PoolKey, V: View>(
    before: Pool<K, V>,
    stored: Pool<K, V>,
    removed: Pool<K, V>,
    id: u32,
    record: V::V,
)
    requires
        before.wf(),
        gained(before, stored, id, record),
        lost(stored, removed, find_id(stored@, id)->Some_0),
    ensures
        stored@[find_id(stored@, id)->Some_0] == record,
        find_id(removed@, id) is None,
        removed@ == before@,
{
    assert(removed@ =~= before@);
}

/// A raw key that a pool issued is rebuilt exactly from its 64 bits.
pub proof fn law_issued_keys_round_trip<K: PoolKey, V: View>(pool: Pool<K, V>, key: K)
    requires
        pool.wf(),
        pool@.contains_key(key),
    ensures
        K::of(occupied_raw(key.raw())) == key,
{
    pool.lemma_pool();
    key.lemma_of_raw();
}

} // verus!
