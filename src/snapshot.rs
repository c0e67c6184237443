use vstd::prelude::*;
use crate::world::{World, WorldModel};

verus! {

/// A saved world and the frame it belongs to.
#[derive(Debug)]
pub struct Snapshot {
    pub frame: u64,
    pub world: World,
}

pub open spec fn slot_view(o: Option<Snapshot>) -> Option<(u64, WorldModel)> {
    match o {
        Some(s) => Some((s.frame, s.world@)),
        None => None,
    }
}

/// Slot of frame `f` in a ring of `k` slots.
pub open spec fn slot_of(f: u64, k: int) -> int {
    f as int % k
}

pub open spec fn held_frame(o: Option<(u64, WorldModel)>) -> u64 {
    match o {
        Some(p) => p.0,
        None => 0,
    }
}

pub open spec fn held_world(o: Option<(u64, WorldModel)>) -> WorldModel {
    match o {
        Some(p) => p.1,
        None => arbitrary(),
    }
}

/// Fixed-capacity ring of snapshots: frame `f` lives in slot `f % capacity`,
/// and saving a frame overwrites whatever that slot held.
pub struct SnapshotStore {
    slots: Vec<Option<Snapshot>>,
}

impl View for SnapshotStore {
    type V = Seq<Option<(u64, WorldModel)>>;

    closed spec fn view(&self) -> Seq<Option<(u64, WorldModel)>> {
        self.slots@.map_values(|o: Option<Snapshot>| slot_view(o))
    }
}

impl SnapshotStore {
    /// Whether the store holds the world of frame `f`.
    pub open spec fn holds(&self, f: u64) -> bool {
        &&& self@.len() > 0
        &&& self@[slot_of(f, self@.len() as int)] is Some
        &&& held_frame(self@[slot_of(f, self@.len() as int)]) == f
    }

    /// A store of `capacity` empty slots.
    pub fn new(capacity: usize) -> (r: SnapshotStore)
        requires
            capacity > 0,
        ensures
            r@.len() == capacity,
            forall|i: int| 0 <= i < capacity ==> #[trigger] r@[i] is None,
    {
        let mut slots: Vec<Option<Snapshot>> = Vec::new();
        let mut i: usize = 0;
        while i < capacity
            invariant
                i <= capacity,
                slots@.len() == i,
                forall|k: int| 0 <= k < i ==> #[trigger] slots@[k] is None,
            decreases capacity - i,
        {
            slots.push(None);
            i = i + 1;
        }
        let r = SnapshotStore { slots };
        assert forall|k: int| 0 <= k < capacity implies #[trigger] r@[k] is None by {
            assert(r.slots@[k] is None);
        }
        r
    }

    pub fn capacity(&self) -> (r: usize)
        ensures
            r == self@.len(),
    {
        self.slots.len()
    }

    /// Saves a copy of `world` as the world of `frame`.
    pub fn save(&mut self, frame: u64, world: &World)
        requires
            old(self)@.len() > 0,
        ensures
            final(self)@ == old(self)@.update(slot_of(frame, old(self)@.len() as int), Some((frame, world@))),
    {
        let i = (frame % self.slots.len() as u64) as usize;
        self.slots.set(i, Some(Snapshot { frame, world: world.snapshot() }));
        assert(self@ =~= old(self)@.update(i as int, Some((frame, world@))));
    }

    /// A copy of the world saved for `frame`, if the store still holds it.
    pub fn load(&self, frame: u64) -> (r: Option<World>)
        requires
            self@.len() > 0,
        ensures
            r is Some <==> self.holds(frame),
            r is Some ==> r->0@ == held_world(self@[slot_of(frame, self@.len() as int)]),
    {
        let i = (frame % self.slots.len() as u64) as usize;
        match &self.slots[i] {
            Some(s) => {
                if s.frame == frame {
                    Some(s.world.snapshot())
                } else {
                    None
                }
            },
            None => None,
        }
    }

    /// Drops every snapshot of a frame later than `frame`.
    pub fn discard_after(&mut self, frame: u64)
        ensures
            final(self)@.len() == old(self)@.len(),
            forall|i: int| 0 <= i < old(self)@.len() ==> #[trigger] final(self)@[i] == (
                if old(self)@[i] is Some && held_frame(old(self)@[i]) > frame { None } else { old(self)@[i] }),
    {
        let mut i: usize = 0;
        while i < self.slots.len()
            invariant
                i <= self.slots@.len(),
                self@.len() == old(self)@.len(),
                forall|k: int| 0 <= k < i ==> #[trigger] self@[k] == (
                    if old(self)@[k] is Some && held_frame(old(self)@[k]) > frame { None } else { old(self)@[k] }),
                forall|k: int| i <= k < self@.len() ==> #[trigger] self@[k] == old(self)@[k],
            decreases self.slots@.len() - i,
        {
            assert(self@[i as int] == slot_view(self.slots@[i as int]));
            let stale = match &self.slots[i] {
                Some(s) => s.frame > frame,
                None => false,
            };
            if stale {
                let ghost before = self@;
                self.slots.set(i, None);
                assert(self@ =~= before.update(i as int, None));
            }
            i = i + 1;
        }
    }
}

} // verus!
