//! The durable regions.
//!
//! Everything in this file is a statement about `ic_stable_structures` that
//! Verus takes on trust: the structs that hold the crate's memory, regions,
//! cell and map out of Verus's sight, the names for what each of them holds,
//! what the crate asks of a memory before it opens it, and one thin function
//! per method that the store calls.
//!
//! A memory is made here and nowhere else and cannot be copied; it is split
//! once, into two regions that cannot be copied either; and a region is used
//! up by the one cell or map that is made in it. So a cell or a map has its
//! region to itself.
//!
//! Where there is no canister, every memory is a new, empty one. On a
//! canister every memory is the canister's one stable memory, and what it
//! holds is the environment: it is read before it is opened, and opened only
//! where the crate finds a layout that it reads, or none. Two things no
//! contract here can leave out. A write aborts the call when the memory
//! cannot grow. And a memory that carries the crate's marks and versions over
//! tables or nodes that the crate did not write can abort a later call.

use ic_stable_structures::memory_manager::{MemoryId, MemoryManager, VirtualMemory};
use ic_stable_structures::storable::Blob;
use ic_stable_structures::{Cell, DefaultMemoryImpl, Memory, StableBTreeMap};
use vstd::prelude::*;

verus! {

/// The most bytes that one stored record may take.
pub const MAX_RECORD_SIZE: usize = 1024;

/// The memory that a store lives in: the default memory of the crate. It
/// is made by `StableMemory::new` alone and has no copy.
#[verifier::external_body]
pub struct StableMemory {
    memory: DefaultMemoryImpl,
}

/// One region of a memory that was split: a `VirtualMemory`. It has no copy,
/// and making a cell or a map in it uses it up.
#[verifier::external_body]
pub struct Region {
    memory: VirtualMemory<DefaultMemoryImpl>,
}

/// The durable counter: a `Cell` that holds one `u64` in a region of its own.
#[verifier::external_body]
pub struct CounterCell {
    cell: Cell<u64, VirtualMemory<DefaultMemoryImpl>>,
}

/// The durable map: a `StableBTreeMap` from an id to a record of at most
/// `MAX_RECORD_SIZE` bytes, in a region of its own.
#[verifier::external_body]
pub struct RecordMap {
    map: StableBTreeMap<u64, Blob<MAX_RECORD_SIZE>, VirtualMemory<DefaultMemoryImpl>>,
}

/// The bytes in a page of memory.
pub const PAGE_SIZE: u64 = 65536;

/// The bytes that a memory holds, page after page.
pub uninterp spec fn memory_bytes(memory: &StableMemory) -> Seq<u8>;

/// The bytes that a region holds, page after page.
pub uninterp spec fn region_bytes(region: &Region) -> Seq<u8>;

/// The value that a counter cell holds.
pub uninterp spec fn counter_value(cell: &CounterCell) -> u64;

/// The records that a map holds, by key.
pub uninterp spec fn map_records(map: &RecordMap) -> Map<u64, Seq<u8>>;

/// `entries` lists `records`: every entry once, in ascending order of its key.
pub open spec fn is_listing(entries: Seq<(u64, Vec<u8>)>, records: Map<u64, Seq<u8>>) -> bool {
    &&& forall|i: int, j: int| 0 <= i < j < entries.len() ==> entries[i].0 < entries[j].0
    &&& forall|i: int|
        0 <= i < entries.len() ==> records.contains_key(#[trigger] entries[i].0)
            && records[entries[i].0] == entries[i].1@
    &&& forall|key: u64| #[trigger]
        records.contains_key(key) ==> exists|i: int| 0 <= i < entries.len() && entries[i].0 == key
}

/// The three bytes from `at` on are the mark `a`, `b`, `c`.
pub open spec fn has_mark(bytes: Seq<u8>, at: int, a: u8, b: u8, c: u8) -> bool {
    bytes[at] == a && bytes[at + 1] == b && bytes[at + 2] == c
}

/// What `MemoryManager::init` asks of a memory: that it is empty, or does not
/// start with the manager's mark `MGR`, or carries layout version 1 after
/// it. On any other memory it aborts.
pub open spec fn manager_loads(bytes: Seq<u8>) -> bool {
    bytes.len() == 0 || !has_mark(bytes, 0, 0x4D, 0x47, 0x52) || bytes[3] == 1
}

/// What `Cell::init` asks of the region of a `u64` cell: that it is empty, or
/// does not start with the cell's mark `SCL`, or carries layout version 1
/// and, in the four bytes after it, the length 8 of a `u64`. On any other
/// region it aborts.
pub open spec fn cell_loads(bytes: Seq<u8>) -> bool {
    bytes.len() == 0 || !has_mark(bytes, 0, 0x53, 0x43, 0x4C) || (bytes[3] == 1 && bytes[4] == 8
        && bytes[5] == 0 && bytes[6] == 0 && bytes[7] == 0)
}

/// What `StableBTreeMap::init` asks of a region: that it is empty, or does
/// not start with the map's mark `BTR`, or carries layout version 1 or 2
/// after it and, from byte 52 on, the allocator's mark `BTA` and its layout
/// version 1. On any other region it aborts.
pub open spec fn map_loads(bytes: Seq<u8>) -> bool {
    bytes.len() == 0 || !has_mark(bytes, 0, 0x42, 0x54, 0x52) || ((bytes[3] == 1 || bytes[3] == 2)
        && has_mark(bytes, 52, 0x42, 0x54, 0x41) && bytes[55] == 1)
}

/// `DefaultMemoryImpl::default`: the default memory. Nothing is claimed of
/// what it holds.
#[verifier::external_body]
pub(crate) fn default_memory() -> StableMemory {
    StableMemory { memory: DefaultMemoryImpl::default() }
}

impl StableMemory {
    /// The default memory. Where there is no canister it is a new, empty
    /// memory of its own. On a canister it is the canister's one stable
    /// memory, with whatever that holds, and a second one made there is the
    /// same memory again: a canister makes one, and no contract can ask it.
    pub fn new() -> StableMemory {
        default_memory()
    }
}

/// `Memory::size` of the memory: how many pages it holds.
#[verifier::external_body]
pub(crate) fn memory_pages(memory: &StableMemory) -> (pages: u64)
    ensures
        pages * PAGE_SIZE == memory_bytes(memory).len(),
{
    memory.memory.size()
}

/// `Memory::read` of the memory: `len` of its bytes from `offset` on. A read
/// past the end aborts.
#[verifier::external_body]
pub(crate) fn memory_read(memory: &StableMemory, offset: u64, len: usize) -> (bytes: Vec<u8>)
    requires
        offset + len <= memory_bytes(memory).len(),
    ensures
        bytes@ == memory_bytes(memory).subrange(offset as int, offset + len),
{
    let mut bytes = vec![0u8; len];
    memory.memory.read(offset, &mut bytes);
    bytes
}

/// `MemoryManager::init`, then `MemoryManager::get` twice: the regions
/// numbered `first` and `second` of the memory. `MemoryId::new` refuses 255.
/// Nothing is claimed of what the regions hold.
#[verifier::external_body]
pub(crate) fn split(memory: StableMemory, first: u8, second: u8) -> (regions: (Region, Region))
    requires
        manager_loads(memory_bytes(&memory)),
        first != 255,
        second != 255,
        first != second,
{
    let manager = MemoryManager::init(memory.memory);
    let one = Region { memory: manager.get(MemoryId::new(first)) };
    let other = Region { memory: manager.get(MemoryId::new(second)) };
    (one, other)
}

/// `Memory::size` of the region: how many pages it holds.
#[verifier::external_body]
pub(crate) fn region_pages(region: &Region) -> (pages: u64)
    ensures
        pages * PAGE_SIZE == region_bytes(region).len(),
{
    region.memory.size()
}

/// `Memory::read` of the region: `len` of its bytes from `offset` on. A read
/// past the end aborts.
#[verifier::external_body]
pub(crate) fn region_read(region: &Region, offset: u64, len: usize) -> (bytes: Vec<u8>)
    requires
        offset + len <= region_bytes(region).len(),
    ensures
        bytes@ == region_bytes(region).subrange(offset as int, offset + len),
{
    let mut bytes = vec![0u8; len];
    region.memory.read(offset, &mut bytes);
    bytes
}

/// `Cell::new`: a cell that holds `value`, written over whatever the region
/// held before.
#[verifier::external_body]
pub(crate) fn counter_create(region: Region, value: u64) -> (cell: CounterCell)
    ensures
        counter_value(&cell) == value,
{
    CounterCell { cell: Cell::new(region.memory, value) }
}

/// `Cell::init`: the cell that the region holds, or one that holds `default`
/// where it holds none. Which of the two depends on the region, so nothing is
/// claimed of the value.
#[verifier::external_body]
pub(crate) fn counter_open(region: Region, default: u64) -> CounterCell
    requires
        cell_loads(region_bytes(&region)),
{
    CounterCell { cell: Cell::init(region.memory, default) }
}

/// `Cell::into_memory`, then `Cell::init` on that memory: the cell read anew
/// from the region it wrote to. It holds what the cell held; `default` is
/// for a region without a cell, which this one is not.
#[verifier::external_body]
pub(crate) fn counter_reopen(cell: CounterCell, default: u64) -> (again: CounterCell)
    ensures
        counter_value(&again) == counter_value(&cell),
{
    CounterCell { cell: Cell::init(cell.cell.into_memory(), default) }
}

/// `Cell::get`: the value held.
#[verifier::external_body]
pub(crate) fn counter_get(cell: &CounterCell) -> (value: u64)
    ensures
        value == counter_value(cell),
{
    *cell.cell.get()
}

/// `Cell::set`: stores `value` and hands back the value held before.
#[verifier::external_body]
pub(crate) fn counter_set(cell: &mut CounterCell, value: u64) -> (previous: u64)
    ensures
        counter_value(final(cell)) == value,
        previous == counter_value(old(cell)),
{
    cell.cell.set(value)
}

/// `StableBTreeMap::new`: an empty map, written over whatever the region held
/// before.
#[verifier::external_body]
pub(crate) fn map_create(region: Region) -> (created: RecordMap)
    ensures
        (map_records(&created) == Map::<u64, Seq<u8>>::empty()),
{
    RecordMap { map: StableBTreeMap::new(region.memory) }
}

/// `StableBTreeMap::init`: the map that the region holds, or an empty one
/// where it holds none. Nothing is claimed of its records.
#[verifier::external_body]
pub(crate) fn map_open(region: Region) -> RecordMap
    requires
        map_loads(region_bytes(&region)),
{
    RecordMap { map: StableBTreeMap::init(region.memory) }
}

/// `StableBTreeMap::into_memory`, then `StableBTreeMap::init` on that
/// memory: the map read anew from the region it wrote to. It holds the
/// records that the map held.
#[verifier::external_body]
pub(crate) fn map_reopen(map: RecordMap) -> (again: RecordMap)
    ensures
        map_records(&again) == map_records(&map),
{
    RecordMap { map: StableBTreeMap::init(map.map.into_memory()) }
}

/// `StableBTreeMap::insert`: stores `record` under `key`, over any record
/// already there, and hands back the record that was there. The bytes go in
/// as a `Blob`, which holds no more than `MAX_RECORD_SIZE` of them.
#[verifier::external_body]
pub(crate) fn map_insert(map: &mut RecordMap, key: u64, record: &[u8]) -> (previous: Option<
    Vec<u8>,
>)
    requires
        record@.len() <= MAX_RECORD_SIZE,
    ensures
        map_records(final(map)) == map_records(old(map)).insert(key, record@),
        match previous {
            Some(bytes) => map_records(old(map)).contains_key(key) && bytes@ == map_records(
                old(map),
            )[key],
            None => !map_records(old(map)).contains_key(key),
        },
{
    let blob = Blob::<MAX_RECORD_SIZE>::try_from(record).unwrap();
    map.map.insert(key, blob).map(|b| b.as_slice().to_vec())
}

/// `StableBTreeMap::get`: the record stored under `key`, if there is one.
#[verifier::external_body]
pub(crate) fn map_get(map: &RecordMap, key: u64) -> (found: Option<Vec<u8>>)
    ensures
        match found {
            Some(bytes) => map_records(map).contains_key(key) && bytes@ == map_records(map)[key],
            None => !map_records(map).contains_key(key),
        },
{
    map.map.get(&key).map(|b| b.as_slice().to_vec())
}

/// `StableBTreeMap::iter`, collected: every entry of the map, once, in
/// ascending order of its key.
#[verifier::external_body]
pub(crate) fn map_entries(map: &RecordMap) -> (entries: Vec<(u64, Vec<u8>)>)
    ensures
        is_listing(entries@, map_records(map)),
{
    map.map
        .iter()
        .map(|entry| entry.into_pair())
        .map(|(key, blob)| (key, blob.as_slice().to_vec()))
        .collect()
}

} // verus!
