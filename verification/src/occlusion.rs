//! The per-frame visibility record ("z-buffer").
//!
//! This is deliberately not a dense minimum-depth array: it is an
//! append-only list of `(x, y, depth)` entries, scanned linearly.  A
//! candidate write at `(x, y)` with depth `z` is rejected exactly when
//! some existing entry at the same cell has a strictly smaller depth
//! (smaller depth is closer to the camera and wins).  An accepted write
//! appends its entry; duplicates at the same cell are kept.  The record
//! lives for one frame and is cleared at flush.

use vstd::prelude::*;

use crate::fx::Fx;

verus! {

/// One accepted write: cell coordinates and depth.
#[derive(Clone, Copy, Debug, PartialEq, Eq, Structural)]
pub struct DepthEntry {
    pub x: u32,
    pub y: u32,
    pub z: Fx,
}

/// Whether entry `e` blocks a candidate write at `(x, y)` with depth `z`.
pub open spec fn entry_blocks(e: DepthEntry, x: u32, y: u32, z: int) -> bool {
    e.x == x && e.y == y && e.z.raw < z
}

/// Whether some existing entry blocks a candidate write at `(x, y)`
/// with depth `z`.
pub open spec fn occluded_spec(entries: Seq<DepthEntry>, x: u32, y: u32, z: int) -> bool {
    exists|i: int| 0 <= i < entries.len() && entry_blocks(#[trigger] entries[i], x, y, z)
}

/// No entry at cell `(x, y)` at all.
pub open spec fn cell_unwritten(entries: Seq<DepthEntry>, x: u32, y: u32) -> bool {
    forall|i: int|
        0 <= i < entries.len() ==> !((#[trigger] entries[i]).x == x && entries[i].y == y)
}

/// The append-only per-frame occlusion record.
pub struct OcclusionRecord {
    pub entries: Vec<DepthEntry>,
}

impl OcclusionRecord {
    pub fn new() -> (r: OcclusionRecord)
        ensures
            r.entries@.len() == 0,
    {
        OcclusionRecord { entries: Vec::new() }
    }

    /// Scans the record: is a candidate write at `(x, y)` with depth
    /// `z` blocked by an existing strictly closer entry at that cell?
    pub fn blocked(&self, x: u32, y: u32, z: Fx) -> (r: bool)
        ensures
            r == occluded_spec(self.entries@, x, y, z.raw as int),
    {
        let n = self.entries.len();
        for i in 0..n
            invariant
                n == self.entries@.len(),
                forall|j: int|
                    0 <= j < i ==> !entry_blocks(#[trigger] self.entries@[j], x, y, z.raw as int),
        {
            let e = self.entries[i];
            if e.x == x && e.y == y && e.z.raw < z.raw {
                return true;
            }
        }
        false
    }

    /// Records an accepted write; earlier entries are never removed or
    /// overwritten.
    pub fn insert(&mut self, x: u32, y: u32, z: Fx)
        ensures
            final(self).entries@ == old(self).entries@.push(DepthEntry { x, y, z }),
    {
        self.entries.push(DepthEntry { x, y, z });
    }

    /// Discards all entries (end of frame).
    pub fn clear(&mut self)
        ensures
            final(self).entries@.len() == 0,
    {
        self.entries.clear();
    }

    pub fn len(&self) -> (r: usize)
        ensures
            r == self.entries@.len(),
    {
        self.entries.len()
    }
}

/// Two writes to one cell, the closer (smaller depth) first: the first
/// is accepted into a record that holds nothing at that cell, and the
/// farther write is then rejected.  Afterwards any write at that cell
/// farther than `z1` stays rejected.
pub proof fn lemma_occlusion_close_then_far(
    rec0: Seq<DepthEntry>,
    x: u32,
    y: u32,
    z1: i64,
    z2: i64,
)
    requires
        z1 < z2,
        cell_unwritten(rec0, x, y),
    ensures
        !occluded_spec(rec0, x, y, z1 as int),
        occluded_spec(rec0.push(DepthEntry { x, y, z: Fx { raw: z1 } }), x, y, z2 as int),
        forall|z: int|
            z > z1 ==> occluded_spec(rec0.push(DepthEntry { x, y, z: Fx { raw: z1 } }), x, y, z),
{
    let rec1 = rec0.push(DepthEntry { x, y, z: Fx { raw: z1 } });
    assert forall|z: int| z > z1 implies occluded_spec(rec1, x, y, z) by {
        assert(entry_blocks(rec1[rec0.len() as int], x, y, z));
    }
}

/// Two writes to one cell, the farther (larger depth) first: both are
/// accepted.  The scan checks only against entries that already exist,
/// so the closer later write is not blocked by the farther one; after
/// both, any write farther than `z1` is rejected, so the smaller depth
/// still wins the record.
pub proof fn lemma_occlusion_far_then_close(
    rec0: Seq<DepthEntry>,
    x: u32,
    y: u32,
    z1: i64,
    z2: i64,
)
    requires
        z1 < z2,
        cell_unwritten(rec0, x, y),
    ensures
        !occluded_spec(rec0, x, y, z2 as int),
        !occluded_spec(rec0.push(DepthEntry { x, y, z: Fx { raw: z2 } }), x, y, z1 as int),
        forall|z: int|
            z > z1 ==> occluded_spec(
                rec0.push(DepthEntry { x, y, z: Fx { raw: z2 } }).push(
                    DepthEntry { x, y, z: Fx { raw: z1 } },
                ),
                x,
                y,
                z,
            ),
{
    let rec1 = rec0.push(DepthEntry { x, y, z: Fx { raw: z2 } });
    let rec2 = rec1.push(DepthEntry { x, y, z: Fx { raw: z1 } });
    assert forall|z: int| z > z1 implies occluded_spec(rec2, x, y, z) by {
        assert(entry_blocks(rec2[rec1.len() as int], x, y, z));
    }
}

} // verus!
