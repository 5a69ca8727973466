//! The render worker's buffer of world snapshots, from which frames are
//! interpolated. The interpolation itself is floating-point work done by the
//! embedding application.

use vstd::prelude::*;
use std::collections::VecDeque;
use crate::shared_world::SabSlot;

verus! {

/// Most snapshots kept; older ones are dropped first.
pub const SNAPSHOT_CAP: usize = 16;

/// The world as published at one tick.
#[derive(Debug)]
pub struct SimulationSnapshot {
    pub tick: u64,
    pub entities: Vec<SabSlot>,
}

/// Ticks strictly increase along the buffer.
pub open spec fn ticks_increasing(s: Seq<SimulationSnapshot>) -> bool {
    forall|i: int, j: int| 0 <= i < j < s.len() ==> #[trigger] s[i].tick < #[trigger] s[j].tick
}

/// The tick of the newest snapshot, 0 for an empty buffer.
pub open spec fn back_tick(s: Seq<SimulationSnapshot>) -> u64 {
    if s.len() > 0 {
        s.last().tick
    } else {
        0
    }
}

/// Snapshots of the published world, oldest first.
pub struct SnapshotBuffer {
    snapshots: VecDeque<SimulationSnapshot>,
}

impl SnapshotBuffer {
    /// The snapshots, oldest first.
    pub closed spec fn view(&self) -> Seq<SimulationSnapshot> {
        self.snapshots@
    }

    /// Well-formedness: ticks strictly increase.
    pub open spec fn wf(&self) -> bool {
        ticks_increasing(self@)
    }

    /// An empty buffer.
    pub fn new() -> (b: SnapshotBuffer)
        ensures
            b.wf(),
            b@ == Seq::<SimulationSnapshot>::empty(),
    {
        SnapshotBuffer { snapshots: VecDeque::new() }
    }

    /// Number of snapshots.
    pub fn len(&self) -> (n: usize)
        ensures
            n == self@.len(),
    {
        self.snapshots.len()
    }

    /// The tick of the `i`-th snapshot (oldest is 0).
    pub fn tick_at(&self, i: usize) -> (t: u64)
        requires
            i < self@.len(),
        ensures
            t == self@[i as int].tick,
    {
        self.snapshots[i].tick
    }

    /// The entities of the `i`-th snapshot (oldest is 0).
    pub fn entities_at(&self, i: usize) -> (e: &Vec<SabSlot>)
        requires
            i < self@.len(),
        ensures
            *e == self@[i as int].entities,
    {
        &self.snapshots[i].entities
    }

    /// The tick of the newest snapshot, 0 when empty.
    pub fn latest_tick(&self) -> (t: u64)
        ensures
            t == back_tick(self@),
    {
        let n = self.snapshots.len();
        if n > 0 {
            self.snapshots[n - 1].tick
        } else {
            0
        }
    }

    /// Takes in the world published at `tick`. If time went backwards (a
    /// non-zero tick before the newest snapshot), the buffer is emptied first.
    /// A snapshot is then added when the buffer is empty or the tick is newer
    /// than the newest one; the same tick again adds nothing.
    pub fn observe(&mut self, tick: u64, entities: &[SabSlot]) -> (pushed: bool)
        requires
            old(self).wf(),
        ensures
            final(self).wf(),
            ({
                let back = back_tick(old(self)@);
                let base = if tick < back && tick != 0 {
                    Seq::<SimulationSnapshot>::empty()
                } else {
                    old(self)@
                };
                &&& pushed == (base.len() == 0 || tick > back)
                &&& pushed ==> final(self)@.len() == base.len() + 1 && final(self)@.drop_last()
                    == base && final(self)@.last().tick == tick && final(self)@.last().entities@
                    == entities@
                &&& !pushed ==> final(self)@ == base
            }),
    {
        let back = self.latest_tick();
        if tick < back && tick != 0 {
            self.snapshots.clear();
        }
        if self.snapshots.len() == 0 || tick > back {
            let mut copy: Vec<SabSlot> = Vec::new();
            let mut i: usize = 0;
            while i < entities.len()
                invariant
                    i <= entities@.len(),
                    copy@ == entities@.take(i as int),
                decreases entities@.len() - i,
            {
                copy.push(entities[i]);
                i = i + 1;
                assert(copy@ =~= entities@.take(i as int));
            }
            assert(copy@ =~= entities@);
            let ghost before = self.snapshots@;
            self.snapshots.push_back(SimulationSnapshot { tick, entities: copy });
            assert(self.snapshots@.drop_last() =~= before);
            true
        } else {
            false
        }
    }

    /// Drops the oldest snapshot.
    pub fn pop_oldest(&mut self)
        requires
            old(self).wf(),
            old(self)@.len() > 0,
        ensures
            final(self).wf(),
            final(self)@ == old(self)@.drop_first(),
    {
        let ghost before = self.snapshots@;
        let _ = self.snapshots.pop_front();
        assert(self.snapshots@ =~= before.drop_first());
    }

    /// Drops the oldest snapshots until at most `SNAPSHOT_CAP` remain.
    pub fn enforce_cap(&mut self)
        requires
            old(self).wf(),
        ensures
            final(self).wf(),
            old(self)@.len() <= SNAPSHOT_CAP ==> final(self)@ == old(self)@,
            old(self)@.len() > SNAPSHOT_CAP ==> final(self)@ == old(self)@.skip(
                old(self)@.len() - SNAPSHOT_CAP,
            ),
    {
        let ghost s0 = self@;
        while self.snapshots.len() > SNAPSHOT_CAP
            invariant
                self.wf(),
                self@.len() <= s0.len(),
                s0.len() > SNAPSHOT_CAP ==> self@.len() >= SNAPSHOT_CAP && self@ == s0.skip(
                    s0.len() - self@.len(),
                ),
                s0.len() <= SNAPSHOT_CAP ==> self@ == s0,
            decreases self@.len(),
        {
            let ghost before = self@;
            let ghost k = s0.len() - before.len();
            assert(s0.len() > SNAPSHOT_CAP);
            assert(before == s0.skip(k));
            self.pop_oldest();
            assert(0 <= k < s0.len());
            assert forall|i: int| 0 <= i < before.len() - 1 implies #[trigger] before.drop_first()[i]
                == s0.skip(k + 1)[i] by {
                assert(before[i + 1] == s0.skip(k)[i + 1]);
            }
            assert(before.drop_first() =~= s0.skip(k + 1));
        }
    }
}

} // verus!
