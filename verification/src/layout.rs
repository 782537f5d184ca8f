//! Looking at a memory before it is opened: whether the memory, the region
//! of the counter and the region of the records each hold nothing, or
//! something that is not the outside crate's, or a layout that it reads.

use crate::stable::{
    cell_loads, has_mark, manager_loads, map_loads, memory_bytes, memory_pages, memory_read,
    region_bytes, region_pages, region_read, Region, StableMemory,
};
use vstd::prelude::*;

verus! {

/// Whether the three bytes from `at` on are the mark `a`, `b`, `c`.
fn marked(bytes: &Vec<u8>, at: usize, a: u8, b: u8, c: u8) -> (yes: bool)
    requires
        at + 3 <= bytes.len(),
    ensures
        yes == has_mark(bytes@, at as int, a, b, c),
{
    bytes[at] == a && bytes[at + 1] == b && bytes[at + 2] == c
}

/// Whether the memory can be split into regions.
pub fn manager_opens(memory: &StableMemory) -> (ok: bool)
    ensures
        ok == manager_loads(memory_bytes(memory)),
{
    if memory_pages(memory) == 0 {
        return true;
    }
    let head = memory_read(memory, 0, 4);
    !marked(&head, 0, 0x4D, 0x47, 0x52) || head[3] == 1
}

/// Whether a cell of a `u64` can be opened in the region.
pub(crate) fn cell_opens(region: &Region) -> (ok: bool)
    ensures
        ok == cell_loads(region_bytes(region)),
{
    if region_pages(region) == 0 {
        return true;
    }
    let head = region_read(region, 0, 8);
    !marked(&head, 0, 0x53, 0x43, 0x4C) || (head[3] == 1 && head[4] == 8 && head[5] == 0
        && head[6] == 0 && head[7] == 0)
}

/// Whether a map can be opened in the region.
pub(crate) fn map_opens(region: &Region) -> (ok: bool)
    ensures
        ok == map_loads(region_bytes(region)),
{
    if region_pages(region) == 0 {
        return true;
    }
    let head = region_read(region, 0, 56);
    !marked(&head, 0, 0x42, 0x54, 0x52) || ((head[3] == 1 || head[3] == 2) && marked(
        &head,
        52,
        0x42,
        0x54,
        0x41,
    ) && head[55] == 1)
}

} // verus!
