use vstd::prelude::*;
use ic_stable_structures::memory_manager::{MemoryId, MemoryManager, VirtualMemory};
use ic_stable_structures::{Cell, DefaultMemoryImpl, StableBTreeMap};

verus! {

/// Identifier of the segment that backs the identifier counter. Segment
/// identifiers are part of the durable contract: changing one without a
/// migration makes the existing data unreachable.
pub const COUNTER_SEGMENT: u8 = 0;

/// Identifier of the segment that backs the record store.
pub const STORE_SEGMENT: u8 = 1;

/// One contiguous persistent region together with the manager that partitions
/// it into independently growable segments, and the two segment identifiers
/// handed out at initialization. Writing past the high-water mark of one
/// segment never touches bytes of another; that separation is
/// `ic_stable_structures`' memory manager's contract and is relied on by the
/// two structures below holding their segments at the same time.
#[verifier::external_body]
pub struct SegmentAllocator {
    manager: MemoryManager<DefaultMemoryImpl>,
    region: DefaultMemoryImpl,
    counter_segment: u8,
    store_segment: u8,
}

/// Identity of the persistent region behind an allocator. The token has no
/// structure of its own; it only lets contracts say that two handles belong
/// to one region, which `fresh_state` establishes and `reopen` demands.
pub uninterp spec fn alloc_region(a: SegmentAllocator) -> int;

/// The durable 8-byte identifier counter: a `Cell<u64>` of
/// `ic_stable_structures` over one segment.
#[verifier::external_body]
pub struct Counter {
    cell: Cell<u64, VirtualMemory<DefaultMemoryImpl>>,
}

/// The value that the counter's segment currently holds.
pub uninterp spec fn counter_value(c: Counter) -> u64;

/// Identity of the persistent region that holds the counter's segment.
pub uninterp spec fn counter_region(c: Counter) -> int;

/// The durable ordered map from id to encoded record: a
/// `StableBTreeMap<u64, Vec<u8>>` of `ic_stable_structures` over one segment.
/// The structure keeps its entries ordered by key; the model here is the
/// key-value association alone, which is all the operations below speak of.
#[verifier::external_body]
pub struct Store {
    map: StableBTreeMap<u64, Vec<u8>, VirtualMemory<DefaultMemoryImpl>>,
}

/// The entries that the store's segment currently holds.
pub uninterp spec fn store_contents(s: Store) -> Map<u64, Seq<u8>>;

/// Identity of the persistent region that holds the store's segment.
pub uninterp spec fn store_region(s: Store) -> int;

impl Counter {
    /// Relies on `Cell::get`: returns the value last written to the segment,
    /// with no side effect.
    #[verifier::external_body]
    pub(crate) fn value(&self) -> (r: u64)
        ensures
            r == counter_value(*self),
    {
        *self.cell.get()
    }

    /// Relies on `Cell::set`: durably overwrites the value. The write cannot
    /// fail here: `flush_value` fails only for values longer than `u32::MAX`
    /// bytes (this one is 8) or when the cell's segment cannot grow, and the
    /// segment's one page was already allocated when `Cell::init` wrote the
    /// initial value.
    #[verifier::external_body]
    pub(crate) fn set_value(&mut self, v: u64)
        ensures
            counter_value(*final(self)) == v,
            counter_region(*final(self)) == counter_region(*old(self)),
    {
        let _prev = self.cell.set(v);
    }
}

impl Store {
    /// Relies on `BTreeMap::get`: point lookup returning the stored value if
    /// the key is present, with no side effect.
    #[verifier::external_body]
    pub(crate) fn fetch(&self, id: u64) -> (r: Option<Vec<u8>>)
        ensures
            match r {
                Some(v) => store_contents(*self).dom().contains(id) && v@ == store_contents(
                    *self,
                )[id],
                None => !store_contents(*self).dom().contains(id),
            },
    {
        self.map.get(&id)
    }

    /// Relies on `BTreeMap::insert`: writes the value under the key,
    /// overwriting and returning the previous one if present. A `u64` key is
    /// always within its fixed 8-byte bound and a byte vector is unbounded,
    /// so the call never rejects an entry; like any allocation it aborts if
    /// the region's address space is ever exhausted.
    #[verifier::external_body]
    pub(crate) fn put(&mut self, id: u64, bytes: Vec<u8>) -> (prev: Option<Vec<u8>>)
        ensures
            store_contents(*final(self)) == store_contents(*old(self)).insert(id, bytes@),
            store_region(*final(self)) == store_region(*old(self)),
            match prev {
                Some(v) => store_contents(*old(self)).dom().contains(id) && v@ == store_contents(
                    *old(self),
                )[id],
                None => !store_contents(*old(self)).dom().contains(id),
            },
    {
        self.map.insert(id, bytes)
    }

    /// Relies on `BTreeMap::remove`: removes the entry for the key if
    /// present, returning its value.
    #[verifier::external_body]
    pub(crate) fn take(&mut self, id: u64) -> (r: Option<Vec<u8>>)
        ensures
            store_contents(*final(self)) == store_contents(*old(self)).remove(id),
            store_region(*final(self)) == store_region(*old(self)),
            match r {
                Some(v) => store_contents(*old(self)).dom().contains(id) && v@ == store_contents(
                    *old(self),
                )[id],
                None => !store_contents(*old(self)).dom().contains(id),
            },
    {
        self.map.remove(&id)
    }
}

/// The three durable handles over one region, as initialization returns them.
pub struct DurableParts {
    pub alloc: SegmentAllocator,
    pub counter: Counter,
    pub store: Store,
}

/// Builds the durable state over a brand-new region: the allocator over the
/// region, and the counter and the store each over its own segment.
///
/// Relies on `MemoryManager::init` (lays out a fresh region),
/// `MemoryManager::get` (returns disjoint virtual memories for distinct
/// identifiers below 255, the one value `MemoryId::new` rejects),
/// `Cell::init` (an empty segment yields the default value, here 0) and
/// `StableBTreeMap::init` (an empty segment yields the empty map).
///
/// The fresh-and-empty claim holds of the in-process memory that
/// `DefaultMemoryImpl` names on this target: each call builds its own
/// vector-backed region. On the wasm32 canister target the same alias names
/// the one global stable memory; there a private fresh region per call does
/// not exist and this initialization would have to take the region, and what
/// it already holds, as an input.
#[verifier::external_body]
pub(crate) fn fresh_state(counter_segment: u8, store_segment: u8) -> (r: DurableParts)
    requires
        counter_segment != store_segment,
        counter_segment != 255,
        store_segment != 255,
    ensures
        counter_value(r.counter) == 0,
        forall|id: u64| !store_contents(r.store).dom().contains(id),
        counter_region(r.counter) == alloc_region(r.alloc),
        store_region(r.store) == alloc_region(r.alloc),
{
    let region = DefaultMemoryImpl::default();
    let manager = MemoryManager::init(region.clone());
    let counter = Counter { cell: Cell::init(manager.get(MemoryId::new(counter_segment)), 0) };
    let store = Store { map: StableBTreeMap::init(manager.get(MemoryId::new(store_segment))) };
    let alloc = SegmentAllocator { manager, region, counter_segment, store_segment };
    DurableParts { alloc, counter, store }
}

/// Re-initializes the two durable structures from the same region, as a
/// process restart does: the old handles are dropped and everything is loaded
/// back from the persisted bytes.
///
/// Relies on the same `ic_stable_structures` entry points as `fresh_state`:
/// on a region they have written, `MemoryManager::init` finds its own layout,
/// `Cell::init` reloads the value last set and `StableBTreeMap::init` loads
/// the map the segment holds, so both keep their contents. The reload reads
/// the allocator's region alone, so it preserves the counter and store values
/// only for handles of that same region: the `requires` demands exactly that.
#[verifier::external_body]
pub(crate) fn reopen(alloc: SegmentAllocator, counter: Counter, store: Store) -> (r: DurableParts)
    requires
        counter_region(counter) == alloc_region(alloc),
        store_region(store) == alloc_region(alloc),
    ensures
        counter_value(r.counter) == counter_value(counter),
        store_contents(r.store) == store_contents(store),
        counter_region(r.counter) == alloc_region(r.alloc),
        store_region(r.store) == alloc_region(r.alloc),
{
    let SegmentAllocator { manager, region, counter_segment, store_segment } = alloc;
    drop(manager);
    drop(counter);
    drop(store);
    let manager = MemoryManager::init(region.clone());
    let counter = Counter { cell: Cell::init(manager.get(MemoryId::new(counter_segment)), 0) };
    let store = Store { map: StableBTreeMap::init(manager.get(MemoryId::new(store_segment))) };
    let alloc = SegmentAllocator { manager, region, counter_segment, store_segment };
    DurableParts { alloc, counter, store }
}

} // verus!
