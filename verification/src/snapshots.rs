use vstd::prelude::*;
use crate::world::{SavedState, SavedStateView};

verus! {

/// Whether the snapshots are those of frames that follow one another.
pub open spec fn consecutive(slots: Seq<SavedStateView>) -> bool {
    forall|i: int| 0 <= i < slots.len() ==> (#[trigger] slots[i]).frame == slots[0].frame + i
}

/// The snapshots after one more has been stored behind them in a buffer of
/// the given capacity: a full buffer lets go of its oldest snapshot.
pub open spec fn with_pushed(
    slots: Seq<SavedStateView>,
    saved: SavedStateView,
    capacity: nat,
) -> Seq<SavedStateView> {
    if slots.len() >= capacity {
        slots.drop_first().push(saved)
    } else {
        slots.push(saved)
    }
}

/// The index of the newest snapshot that was taken at or before `target`,
/// among snapshots of frames that follow one another.
pub open spec fn index_at_or_before(slots: Seq<SavedStateView>, target: int) -> int {
    if target >= slots.last().frame {
        slots.len() - 1
    } else {
        target - slots[0].frame
    }
}

/// The most recent snapshots of the world, oldest first, of frames that
/// follow one another. It holds no more than its capacity.
#[derive(Debug)]
pub struct SnapshotRing {
    capacity: usize,
    slots: Vec<SavedState>,
}

impl View for SnapshotRing {
    type V = Seq<SavedStateView>;

    closed spec fn view(&self) -> Seq<SavedStateView> {
        Seq::new(self.slots@.len(), |i: int| self.slots@[i]@)
    }
}

impl SnapshotRing {
    /// The most snapshots the buffer holds.
    pub closed spec fn capacity(&self) -> nat {
        self.capacity as nat
    }

    /// The buffer has room for a snapshot, holds no more than it has room
    /// for, and its snapshots are of frames that follow one another.
    pub open spec fn wf(&self) -> bool {
        &&& self.capacity() > 0
        &&& self@.len() <= self.capacity()
        &&& consecutive(self@)
    }

    /// An empty buffer for up to `capacity` snapshots.
    pub fn new(capacity: usize) -> (ring: SnapshotRing)
        requires
            capacity > 0,
        ensures
            ring.wf(),
            ring@.len() == 0,
            ring.capacity() == capacity,
    {
        SnapshotRing { capacity, slots: Vec::new() }
    }

    /// Number of snapshots held.
    pub fn len(&self) -> (n: usize)
        ensures
            n == self@.len(),
    {
        self.slots.len()
    }

    /// The frame of the oldest snapshot held.
    pub fn oldest_frame(&self) -> (frame: Option<u32>)
        ensures
            frame is Some <==> self@.len() > 0,
            frame is Some ==> frame->0 == self@[0].frame,
    {
        if self.slots.len() == 0 {
            None
        } else {
            Some(self.slots[0].frame)
        }
    }

    /// The frame of the newest snapshot held.
    pub fn newest_frame(&self) -> (frame: Option<u32>)
        ensures
            frame is Some <==> self@.len() > 0,
            frame is Some ==> frame->0 == self@.last().frame,
    {
        if self.slots.len() == 0 {
            None
        } else {
            Some(self.slots[self.slots.len() - 1].frame)
        }
    }

    /// Stores the snapshot of the frame that follows the newest one held.
    /// A full buffer lets go of its oldest snapshot.
    pub fn push(&mut self, saved: SavedState)
        requires
            old(self).wf(),
            old(self)@.len() > 0 ==> saved@.frame == old(self)@.last().frame + 1,
        ensures
            final(self).wf(),
            final(self).capacity() == old(self).capacity(),
            final(self)@ == with_pushed(old(self)@, saved@, old(self).capacity()),
    {
        if self.slots.len() >= self.capacity {
            let _ = self.slots.remove(0);
        }
        self.slots.push(saved);
        assert forall|i: int| 0 <= i < self@.len() implies (#[trigger] self@[i]).frame == self@[0].frame + i by {
            if old(self)@.len() >= old(self).capacity() {
                if i + 1 < old(self)@.len() {
                    assert(self@[i] == old(self)@[i + 1]);
                }
                if old(self)@.len() > 1 {
                    assert(self@[0] == old(self)@[1]);
                }
            } else {
                if i < old(self)@.len() {
                    assert(self@[i] == old(self)@[i]);
                }
            }
        }
    }

    /// Puts the snapshot in the place of the one held for the same frame.
    pub fn overwrite(&mut self, saved: SavedState)
        requires
            old(self).wf(),
            old(self)@.len() > 0,
            old(self)@[0].frame <= saved@.frame <= old(self)@.last().frame,
        ensures
            final(self).wf(),
            final(self).capacity() == old(self).capacity(),
            final(self)@ == old(self)@.update(saved@.frame - old(self)@[0].frame, saved@),
    {
        let first: u32 = self.slots[0].frame;
        let at: usize = (saved.frame - first) as usize;
        self.slots[at] = saved;
        assert forall|i: int| 0 <= i < self@.len() implies (#[trigger] self@[i]).frame == self@[0].frame + i by {
            if i != at {
                assert(self@[i] == old(self)@[i]);
            }
        }
    }

    /// The newest snapshot that was taken at or before the frame `target`;
    /// none where every snapshot held is newer.
    pub fn at_or_before(&self, target: u32) -> (saved: Option<&SavedState>)
        requires
            self.wf(),
        ensures
            saved is Some <==> self@.len() > 0 && self@[0].frame <= target,
            saved is Some ==> saved->0@ == self@[index_at_or_before(self@, target as int)],
    {
        let n: usize = self.slots.len();
        if n == 0 {
            return None;
        }
        let first: u32 = self.slots[0].frame;
        if target < first {
            return None;
        }
        let offset: usize = (target - first) as usize;
        let at: usize = if offset >= n { n - 1 } else { offset };
        Some(&self.slots[at])
    }
}

} // verus!
