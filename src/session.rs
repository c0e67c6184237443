use vstd::prelude::*;
use crate::checksum::{checksum, checksum_of};
use crate::map::{layout_of, round_layout};
use crate::snapshot::{held_frame, held_world, slot_of, SnapshotStore};
use crate::timeline::{
    covered, lemma_covered_shorter, lemma_run_exact, lemma_run_extend, lemma_run_grow, lemma_run_prefix,
    pure_run, run, table_exact, LayoutCache,
};
use crate::world::{
    fresh_player_at, round_seed_of, round_start, LayoutModel, RoundPhase, World, WorldModel, world_ok,
};

verus! {

/// Number of snapshots kept: the deepest rollback the session can perform.
pub const SNAPSHOT_SLOTS: usize = 16;

/// Frames a session can run (over 500 years at 60 frames per second).
pub const MAX_FRAMES: u64 = 1000000000000;

// ---------------------------------------------------------------------------
// Facts about runs that the session keeps.
// ---------------------------------------------------------------------------

/// Every snapshot in `v` is of a frame no later than `g`, sits in its own
/// slot, and holds the world that `used` gives at that frame.
pub open spec fn snapshots_match(
    v: Seq<Option<(u64, WorldModel)>>,
    start: WorldModel,
    used: Seq<(u8, u8)>,
    table: Map<u64, LayoutModel>,
    g: int,
) -> bool {
    forall|i: int| 0 <= i < v.len() && #[trigger] v[i] is Some ==> {
        &&& held_frame(v[i]) <= g
        &&& slot_of(held_frame(v[i]), v.len() as int) == i
        &&& held_world(v[i]) == run(start, used, held_frame(v[i]) as nat, table)
        &&& world_ok(held_world(v[i]))
        &&& held_world(v[i]).frame_number == held_frame(v[i])
    }
}

/// `sums` holds the checksum of the world of every frame `0..=g`.
pub open spec fn sums_match(sums: Seq<u64>, start: WorldModel, used: Seq<(u8, u8)>, table: Map<u64, LayoutModel>, g: int) -> bool {
    forall|f: int| 0 <= f <= g ==> #[trigger] sums[f] == checksum_of(run(start, used, f as nat, table))
}

/// Runs of at most `g` frames are the same under `(u1, t1)` and `(u2, t2)`
/// when the first `g` inputs agree and `t2` only adds layouts to `t1`.
proof fn lemma_same_runs(start: WorldModel, u1: Seq<(u8, u8)>, u2: Seq<(u8, u8)>, t1: Map<u64, LayoutModel>, t2: Map<u64, LayoutModel>, g: nat)
    requires
        g <= u1.len(),
        g <= u2.len(),
        forall|i: int| 0 <= i < g ==> u1[i] == u2[i],
        covered(start, u1, g, t1),
        t1.submap_of(t2),
    ensures
        forall|f: nat| f <= g ==> #[trigger] run(start, u1, f, t1) == run(start, u2, f, t2),
        covered(start, u2, g, t2),
{
    assert forall|f: nat| f <= g implies #[trigger] run(start, u1, f, t1) == run(start, u2, f, t2) by {
        lemma_covered_shorter(start, u1, f, g, t1);
        lemma_run_prefix(start, u1, u2, f, t1);
        lemma_run_grow(start, u2, f, t1, t2);
    }
    lemma_run_prefix(start, u1, u2, g, t1);
    lemma_run_grow(start, u2, g, t1, t2);
}

proof fn lemma_transfer(
    v: Seq<Option<(u64, WorldModel)>>,
    sums: Seq<u64>,
    start: WorldModel,
    u1: Seq<(u8, u8)>,
    u2: Seq<(u8, u8)>,
    t1: Map<u64, LayoutModel>,
    t2: Map<u64, LayoutModel>,
    g: nat,
)
    requires
        g <= u1.len(),
        g <= u2.len(),
        forall|i: int| 0 <= i < g ==> u1[i] == u2[i],
        covered(start, u1, g, t1),
        t1.submap_of(t2),
        snapshots_match(v, start, u1, t1, g as int),
        sums_match(sums, start, u1, t1, g as int),
    ensures
        snapshots_match(v, start, u2, t2, g as int),
        sums_match(sums, start, u2, t2, g as int),
        covered(start, u2, g, t2),
        run(start, u1, g, t1) == run(start, u2, g, t2),
{
    lemma_same_runs(start, u1, u2, t1, t2, g);
    assert forall|i: int| 0 <= i < v.len() && #[trigger] v[i] is Some implies {
        &&& held_frame(v[i]) <= g
        &&& slot_of(held_frame(v[i]), v.len() as int) == i
        &&& held_world(v[i]) == run(start, u2, held_frame(v[i]) as nat, t2)
        &&& world_ok(held_world(v[i]))
        &&& held_world(v[i]).frame_number == held_frame(v[i])
    } by {
        assert(run(start, u1, held_frame(v[i]) as nat, t1) == run(start, u2, held_frame(v[i]) as nat, t2));
    }
    assert forall|f: int| 0 <= f <= g implies #[trigger] sums[f] == checksum_of(run(start, u2, f as nat, t2)) by {
        assert(run(start, u1, f as nat, t1) == run(start, u2, f as nat, t2));
    }
}

// ---------------------------------------------------------------------------
// Inputs.
// ---------------------------------------------------------------------------

pub open spec fn remote_part(local: usize, i: (u8, u8)) -> u8 {
    if local == 0 { i.1 } else { i.0 }
}

pub open spec fn local_part(local: usize, i: (u8, u8)) -> u8 {
    if local == 0 { i.0 } else { i.1 }
}

pub open spec fn with_parts(local: usize, l: u8, r: u8) -> (u8, u8) {
    if local == 0 { (l, r) } else { (r, l) }
}

pub open spec fn remote_at(remote: Seq<Option<u8>>, f: int) -> Option<u8> {
    if 0 <= f < remote.len() { remote[f] } else { None }
}

/// The remote input that frame `f` is simulated with: the confirmed one when
/// it has arrived, else a repeat of the one frame `f - 1` used (nothing
/// pressed before the first frame).
pub open spec fn expected_remote(confirmed: Option<u8>, f: int, used: Seq<(u8, u8)>, local: usize) -> u8 {
    match confirmed {
        Some(v) => v,
        None => if f == 0 { 0 } else { remote_part(local, used[f - 1]) },
    }
}

// ---------------------------------------------------------------------------
// The session.
// ---------------------------------------------------------------------------

/// Where the session stands: simulating forward, replaying history after a
/// correction, or running on after peers' checksums disagreed.
#[derive(Clone, Copy, Debug, PartialEq, Eq, Structural)]
pub enum SessionState {
    Running,
    RollingBack,
    Desynced,
}

#[derive(Clone, Copy, Debug, PartialEq, Eq, Structural)]
pub enum SessionError {
    /// The session has run its largest number of frames.
    FrameLimit,
    /// Simulating on would predict the remote input further than allowed:
    /// hold until more input is confirmed.
    PredictionLimit,
    /// The frame to roll back to is no longer in the snapshot store.
    SnapshotMissing,
    /// The input is for a frame too old to roll back to.
    InputTooOld,
    /// The input is for a frame too far ahead of the simulation.
    InputTooFarAhead,
    /// A different input was already confirmed for that frame.
    InputConflict,
    /// The frame's world is not final yet: it is ahead of the simulation, or
    /// some input before it is unconfirmed or awaits correction.
    FrameNotConfirmed,
}

/// Local and remote checksums that disagreed at a frame.
#[derive(Clone, Copy, Debug, PartialEq, Eq, Structural)]
pub struct DesyncEvent {
    pub frame: u64,
    pub local_checksum: u64,
    pub remote_checksum: u64,
}

/// What one call of `advance_frame` did.
#[derive(Clone, Copy, Debug, PartialEq, Eq, Structural)]
pub struct AdvanceReport {
    /// The frame simulated forward.
    pub frame: u64,
    /// Whether a snapshot was restored first.
    pub rolled_back: bool,
    /// The frame restored (the simulated frame when there was no rollback).
    pub rollback_frame: u64,
    /// Frames replayed from the restored snapshot.
    pub resimulated: u64,
}

/// A rollback session for two players, one local and one remote.
pub struct Session {
    local_handle: usize,
    max_prediction: u64,
    world: World,
    start: Ghost<WorldModel>,
    cache: LayoutCache,
    store: SnapshotStore,
    used: Vec<(u8, u8)>,
    sums: Vec<u64>,
    remote: Vec<Option<u8>>,
    confirmed_upto: u64,
    pending: Option<u64>,
    state: SessionState,
    last_desync: Option<DesyncEvent>,
    rollbacks: u64,
}

impl Session {
    /// Frames simulated so far; the world is the world of this frame.
    pub closed spec fn frame(&self) -> nat {
        self.used@.len()
    }

    /// The inputs each simulated frame was simulated with.
    pub closed spec fn inputs(&self) -> Seq<(u8, u8)> {
        self.used@
    }

    /// The remote input confirmed for frame `f`, if any.
    pub closed spec fn confirmed(&self, f: int) -> Option<u8> {
        remote_at(self.remote@, f)
    }

    /// Length of the longest run of frames from 0 whose remote input is confirmed.
    pub closed spec fn confirmed_frames(&self) -> nat {
        self.confirmed_upto as nat
    }

    /// Earliest simulated frame whose confirmed remote input differs from the
    /// one it was simulated with.
    pub closed spec fn pending(&self) -> Option<u64> {
        self.pending
    }

    pub closed spec fn start_world(&self) -> WorldModel {
        self.start@
    }

    pub closed spec fn layouts(&self) -> Map<u64, LayoutModel> {
        self.cache.table()
    }

    pub closed spec fn world_model(&self) -> WorldModel {
        self.world@
    }

    pub closed spec fn local(&self) -> usize {
        self.local_handle
    }

    pub closed spec fn prediction_window(&self) -> nat {
        self.max_prediction as nat
    }

    pub closed spec fn holds_snapshot(&self, f: u64) -> bool {
        self.store.holds(f)
    }

    pub closed spec fn checksum_history(&self) -> Seq<u64> {
        self.sums@
    }

    pub closed spec fn state_spec(&self) -> SessionState {
        self.state
    }

    pub closed spec fn rollback_count(&self) -> u64 {
        self.rollbacks
    }

    pub closed spec fn last_desync_spec(&self) -> Option<DesyncEvent> {
        self.last_desync
    }

    /// Whether the world of frame `f` is final: every remote input before it
    /// is confirmed and none awaits correction.
    pub open spec fn final_frame(&self, f: int) -> bool {
        &&& 0 <= f <= self.frame()
        &&& f <= self.confirmed_frames()
        &&& (self.pending() is None || f <= self.pending()->0)
    }

    pub closed spec fn wf(&self) -> bool {
        let n = self.used@.len();
        let t = self.cache.table();
        &&& self.local_handle < 2
        &&& 0 < self.max_prediction < SNAPSHOT_SLOTS
        &&& self.cache.wf()
        &&& table_exact(t)
        &&& self.store@.len() == SNAPSHOT_SLOTS
        &&& n <= MAX_FRAMES
        &&& world_ok(self.start@)
        &&& self.start@.frame_number == 0
        &&& covered(self.start@, self.used@, n, t)
        &&& self.world@ == run(self.start@, self.used@, n, t)
        &&& world_ok(self.world@)
        &&& self.world.frame_number == n
        &&& snapshots_match(self.store@, self.start@, self.used@, t, n as int)
        &&& self.sums@.len() == n + 1
        &&& sums_match(self.sums@, self.start@, self.used@, t, n as int)
        &&& (self.pending is Some ==> self.pending->0 < n)
        &&& forall|f: int| 0 <= f < n && #[trigger] remote_at(self.remote@, f) is Some
            && (self.pending is None || f < self.pending->0)
            ==> remote_part(self.local_handle, self.used@[f]) == remote_at(self.remote@, f)->0
        &&& forall|f: int| 0 <= f < self.confirmed_upto ==> #[trigger] remote_at(self.remote@, f) is Some
        &&& remote_at(self.remote@, self.confirmed_upto as int) is None
        &&& self.remote@.len() <= n + SNAPSHOT_SLOTS + 1
        &&& self.rollbacks <= n
        &&& self.state != SessionState::RollingBack
    }
}

/// The remote input frame `g` is simulated with.
fn expected_remote_exec(remote: &Vec<Option<u8>>, used: &Vec<(u8, u8)>, local: usize, g: u64) -> (r: u8)
    requires
        g <= used@.len(),
    ensures
        r == expected_remote(remote_at(remote@, g as int), g as int, used@, local),
{
    let len = used.len();
    assert(g <= len);
    if (g as usize) < remote.len() {
        match remote[g as usize] {
            Some(v) => {
                return v;
            },
            None => {},
        }
    }
    if g == 0 {
        0
    } else {
        let prev = used[(g - 1) as usize];
        if local == 0 { prev.1 } else { prev.0 }
    }
}

impl Session {
    /// A session whose world is `world`, as frame 0.
    pub fn from_world(local_handle: usize, world: World, max_prediction: u64) -> (r: Session)
        requires
            local_handle < 2,
            0 < max_prediction < SNAPSHOT_SLOTS,
            world_ok(world@),
            world.frame_number == 0,
        ensures
            r.wf(),
            r.frame() == 0,
            r.start_world() == world@,
            r.world_model() == world@,
            r.local() == local_handle,
            r.prediction_window() == max_prediction,
            r.pending() is None,
            r.confirmed_frames() == 0,
            forall|f: int| #[trigger] r.confirmed(f) is None,
            r.state_spec() == SessionState::Running,
            r.layouts() == Map::<u64, LayoutModel>::empty(),
    {
        let store = SnapshotStore::new(SNAPSHOT_SLOTS);
        let mut sums: Vec<u64> = Vec::new();
        sums.push(checksum(&world));
        let ghost wm = world@;
        let r = Session {
            local_handle,
            max_prediction,
            world,
            start: Ghost(wm),
            cache: LayoutCache::new(),
            store,
            used: Vec::new(),
            sums,
            remote: Vec::new(),
            confirmed_upto: 0,
            pending: None,
            state: SessionState::Running,
            last_desync: None,
            rollbacks: 0,
        };
        assert(sums_match(r.sums@, r.start@, r.used@, r.cache.table(), 0));
        r
    }

    /// A new match: the first round's world, laid out from the match seed
    /// with both scores at zero.
    pub fn new(local_handle: usize, session_seed: u64, max_prediction: u64) -> (r: Session)
        requires
            local_handle < 2,
            0 < max_prediction < SNAPSHOT_SLOTS,
        ensures
            r.wf(),
            r.frame() == 0,
            r.start_world() == round_start(0, 0, session_seed, 0, layout_of(round_seed_of(0, 0, session_seed))),
            r.world_model() == r.start_world(),
            r.local() == local_handle,
            r.prediction_window() == max_prediction,
            r.pending() is None,
            forall|f: int| #[trigger] r.confirmed(f) is None,
            r.state_spec() == SessionState::Running,
    {
        let layout = round_layout(0, 0, session_seed);
        let world = World::start_round(0, 0, session_seed, 0, &layout);
        Session::from_world(local_handle, world, max_prediction)
    }

    /// Everything that holds while frames `from..g` have been replayed.
    pub closed spec fn replay_inv(
        self,
        start: WorldModel,
        u0: Seq<(u8, u8)>,
        t0: Map<u64, LayoutModel>,
        from: u64,
        g: u64,
        w: WorldModel,
    ) -> bool {
        let n = self.used@.len();
        let t = self.cache.table();
        &&& from <= g <= n
        &&& n <= MAX_FRAMES
        &&& u0.len() == n
        &&& self.local_handle < 2
        &&& self.start@ == start
        &&& self.cache.wf()
        &&& table_exact(t)
        &&& t0.submap_of(t)
        &&& self.store@.len() == SNAPSHOT_SLOTS
        &&& covered(start, self.used@, g as nat, t)
        &&& w == run(start, self.used@, g as nat, t)
        &&& world_ok(w)
        &&& w.frame_number == g
        &&& snapshots_match(self.store@, start, self.used@, t, g as int)
        &&& self.sums@.len() == n + 1
        &&& sums_match(self.sums@, start, self.used@, t, g as int)
        &&& forall|f: int| 0 <= f < from ==> self.used@[f] == u0[f]
        &&& forall|f: int| g <= f < n ==> self.used@[f] == u0[f]
        &&& forall|f: int| 0 <= f < n ==> local_part(self.local_handle, #[trigger] self.used@[f]) == local_part(self.local_handle, u0[f])
        &&& forall|f: int| from <= f < g ==> remote_part(self.local_handle, #[trigger] self.used@[f])
            == expected_remote(remote_at(self.remote@, f), f, self.used@, self.local_handle)
        &&& forall|f: int| 0 <= f < from && #[trigger] remote_at(self.remote@, f) is Some
            ==> remote_part(self.local_handle, self.used@[f]) == remote_at(self.remote@, f)->0
    }

    /// Replays frame `g` during a rollback and returns the world of `g + 1`.
    #[verifier::rlimit(50)]
    fn replay_frame(
        &mut self,
        start: Ghost<WorldModel>,
        u0: Ghost<Seq<(u8, u8)>>,
        t0: Ghost<Map<u64, LayoutModel>>,
        from: u64,
        g: u64,
        w: World,
    ) -> (r: World)
        requires
            old(self).replay_inv(start@, u0@, t0@, from, g, w@),
            g < old(self).used@.len(),
        ensures
            final(self).replay_inv(start@, u0@, t0@, from, (g + 1) as u64, r@),
            final(self).used@.len() == old(self).used@.len(),
            final(self).remote == old(self).remote,
            final(self).confirmed_upto == old(self).confirmed_upto,
            final(self).local_handle == old(self).local_handle,
            final(self).max_prediction == old(self).max_prediction,
            final(self).pending == old(self).pending,
            final(self).last_desync == old(self).last_desync,
            final(self).rollbacks == old(self).rollbacks,
            final(self).state == old(self).state,
    {
        let ghost u1 = self.used@;
        let ghost t1 = self.cache.table();
        let remote_bits = expected_remote_exec(&self.remote, &self.used, self.local_handle, g);
        let len = self.used.len();
        let sums_len = self.sums.len();
        assert(g < len && g + 1 < sums_len);
        let cur = self.used[g as usize];
        let inp = if self.local_handle == 0 { (cur.0, remote_bits) } else { (remote_bits, cur.1) };
        self.used.set(g as usize, inp);
        let ghost u2 = self.used@;
        proof {
            assert(u2 =~= u1.update(g as int, inp));
            assert forall|i: int| 0 <= i < g implies u1[i] == u2[i] by {}
            lemma_transfer(self.store@, self.sums@, start@, u1, u2, t1, t1, g as nat);
        }
        self.store.save(g, &w);
        proof {
            assert(snapshots_match(self.store@, start@, u2, t1, g as int)) by {
                assert forall|i: int| 0 <= i < self.store@.len() && #[trigger] self.store@[i] is Some implies {
                    &&& held_frame(self.store@[i]) <= g
                    &&& slot_of(held_frame(self.store@[i]), self.store@.len() as int) == i
                    &&& held_world(self.store@[i]) == run(start@, u2, held_frame(self.store@[i]) as nat, t1)
                    &&& world_ok(held_world(self.store@[i]))
                    &&& held_world(self.store@[i]).frame_number == held_frame(self.store@[i])
                } by {
                    if i != slot_of(g, SNAPSHOT_SLOTS as int) {
                        assert(self.store@[i] == old(self).store@[i]);
                    }
                }
            }
        }
        let w_next = self.cache.advance(w, inp);
        proof {
            lemma_transfer(self.store@, self.sums@, start@, u2, u2, t1, self.cache.table(), g as nat);
            lemma_run_extend(start@, u2, g as nat, t1, self.cache.table());
            vstd::map_lib::lemma_submap_of_trans(t0@, t1, self.cache.table());
        }
        let ghost sums_before = self.sums@;
        self.sums.set((g + 1) as usize, checksum(&w_next));
        proof {
            let t2 = self.cache.table();
            assert forall|f: int| 0 <= f <= g + 1 implies #[trigger] self.sums@[f] == checksum_of(run(start@, u2, f as nat, t2)) by {
                if f <= g {
                    assert(self.sums@[f] == sums_before[f]);
                }
            }
            assert forall|f: int| from <= f < g + 1 implies remote_part(self.local_handle, #[trigger] self.used@[f])
                == expected_remote(remote_at(self.remote@, f), f, self.used@, self.local_handle) by {
                if f < g {
                    assert(u1[f] == u2[f]);
                    assert(f == 0 || u1[f - 1] == u2[f - 1]);
                }
            }
            assert forall|f: int| 0 <= f < from && #[trigger] remote_at(self.remote@, f) is Some
                implies remote_part(self.local_handle, self.used@[f]) == remote_at(self.remote@, f)->0 by {
                assert(u1[f] == u2[f]);
            }
            assert forall|f: int| 0 <= f < u2.len() implies local_part(self.local_handle, #[trigger] u2[f]) == local_part(self.local_handle, u0@[f]) by {
                assert(local_part(self.local_handle, u1[f]) == local_part(self.local_handle, u0@[f]));
            }
        }
        w_next
    }

    /// Restores the world of frame `from` and replays every frame from there
    /// to the current one, with the remote inputs now confirmed and fresh
    /// predictions for the rest.
    #[verifier::rlimit(100)]
    fn resimulate(&mut self, from: u64, w0: World)
        requires
            old(self).wf(),
            old(self).pending == Some(from),
            w0@ == run(old(self).start@, old(self).used@, from as nat, old(self).cache.table()),
            world_ok(w0@),
            w0.frame_number == from,
        ensures
            final(self).wf(),
            final(self).pending is None,
            final(self).used@.len() == old(self).used@.len(),
            forall|f: int| 0 <= f < from ==> final(self).used@[f] == old(self).used@[f],
            forall|f: int| 0 <= f < old(self).used@.len() ==> local_part(final(self).local_handle, #[trigger] final(self).used@[f])
                == local_part(old(self).local_handle, old(self).used@[f]),
            forall|f: int| from <= f < old(self).used@.len() ==> remote_part(final(self).local_handle, #[trigger] final(self).used@[f])
                == expected_remote(remote_at(final(self).remote@, f), f, final(self).used@, final(self).local_handle),
            final(self).start == old(self).start,
            old(self).cache.table().submap_of(final(self).cache.table()),
            final(self).remote == old(self).remote,
            final(self).confirmed_upto == old(self).confirmed_upto,
            final(self).local_handle == old(self).local_handle,
            final(self).max_prediction == old(self).max_prediction,
            final(self).last_desync == old(self).last_desync,
            final(self).state == (if old(self).state == SessionState::Desynced { SessionState::Desynced } else { SessionState::Running }),
            final(self).rollbacks == old(self).rollbacks,
    {
        let n = self.used.len() as u64;
        let ghost start = self.start@;
        let ghost u0 = self.used@;
        let ghost t0 = self.cache.table();
        let was_desynced = self.state == SessionState::Desynced;
        if !was_desynced {
            self.state = SessionState::RollingBack;
        }
        self.store.discard_after(from);
        proof {
            lemma_covered_shorter(start, u0, from as nat, n as nat, t0);
            assert(snapshots_match(self.store@, start, u0, t0, from as int)) by {
                assert forall|i: int| 0 <= i < self.store@.len() && #[trigger] self.store@[i] is Some implies {
                    &&& held_frame(self.store@[i]) <= from
                    &&& slot_of(held_frame(self.store@[i]), self.store@.len() as int) == i
                    &&& held_world(self.store@[i]) == run(start, u0, held_frame(self.store@[i]) as nat, t0)
                    &&& world_ok(held_world(self.store@[i]))
                    &&& held_world(self.store@[i]).frame_number == held_frame(self.store@[i])
                } by {
                    assert(old(self).store@[i] is Some);
                }
            }
            assert(self.replay_inv(start, u0, t0, from, from, w0@));
        }
        let mut w = w0;
        let mut g = from;
        while g < n
            invariant
                n == self.used@.len(),
                self.replay_inv(start, u0, t0, from, g, w@),
                self.remote == old(self).remote,
                self.confirmed_upto == old(self).confirmed_upto,
                self.local_handle == old(self).local_handle,
                self.max_prediction == old(self).max_prediction,
                self.pending == old(self).pending,
                self.last_desync == old(self).last_desync,
                self.rollbacks == old(self).rollbacks,
                self.state == (if was_desynced { SessionState::Desynced } else { SessionState::RollingBack }),
                was_desynced == (old(self).state == SessionState::Desynced),
            decreases n - g,
        {
            w = self.replay_frame(Ghost(start), Ghost(u0), Ghost(t0), from, g, w);
            g = g + 1;
        }
        self.world = w;
        self.pending = None;
        if !was_desynced {
            self.state = SessionState::Running;
        }
    }
}

fn blank_world() -> (r: World) {
    World {
        p0: fresh_player_at(0, (0, 0)),
        p1: fresh_player_at(1, (0, 0)),
        bullets: Vec::new(),
        walls: Vec::new(),
        score0: 0,
        score1: 0,
        session_seed: 0,
        frame_number: 0,
        phase: RoundPhase::InRound,
        round_end_elapsed: 0,
    }
}

impl Session {
    /// Simulates the current frame forward with the local input and the
    /// remote input that is confirmed or predicted for it.
    #[verifier::rlimit(100)]
    fn forward(&mut self, local_input: u8)
        requires
            old(self).wf(),
            old(self).pending is None,
            old(self).used@.len() < MAX_FRAMES,
        ensures
            final(self).wf(),
            final(self).used@ == old(self).used@.push(with_parts(
                old(self).local_handle,
                local_input,
                expected_remote(remote_at(old(self).remote@, old(self).used@.len() as int), old(self).used@.len() as int, old(self).used@, old(self).local_handle),
            )),
            final(self).start == old(self).start,
            old(self).cache.table().submap_of(final(self).cache.table()),
            final(self).remote == old(self).remote,
            final(self).confirmed_upto == old(self).confirmed_upto,
            final(self).local_handle == old(self).local_handle,
            final(self).max_prediction == old(self).max_prediction,
            final(self).pending == old(self).pending,
            final(self).last_desync == old(self).last_desync,
            final(self).state == old(self).state,
            final(self).rollbacks == old(self).rollbacks,
    {
        let n = self.world.frame_number;
        let ghost start = self.start@;
        let ghost u1 = self.used@;
        let ghost t1 = self.cache.table();
        let remote_bits = expected_remote_exec(&self.remote, &self.used, self.local_handle, n);
        let inp = if self.local_handle == 0 { (local_input, remote_bits) } else { (remote_bits, local_input) };
        self.store.save(n, &self.world);
        self.used.push(inp);
        let ghost u2 = self.used@;
        proof {
            assert forall|i: int| 0 <= i < n implies u1[i] == u2[i] by {}
            lemma_transfer(old(self).store@, self.sums@, start, u1, u2, t1, t1, n as nat);
            assert(snapshots_match(self.store@, start, u2, t1, n as int)) by {
                assert forall|i: int| 0 <= i < self.store@.len() && #[trigger] self.store@[i] is Some implies {
                    &&& held_frame(self.store@[i]) <= n
                    &&& slot_of(held_frame(self.store@[i]), self.store@.len() as int) == i
                    &&& held_world(self.store@[i]) == run(start, u2, held_frame(self.store@[i]) as nat, t1)
                    &&& world_ok(held_world(self.store@[i]))
                    &&& held_world(self.store@[i]).frame_number == held_frame(self.store@[i])
                } by {
                    if i != slot_of(n, SNAPSHOT_SLOTS as int) {
                        assert(self.store@[i] == old(self).store@[i]);
                    }
                }
            }
        }
        let mut w = blank_world();
        std::mem::swap(&mut self.world, &mut w);
        let w_next = self.cache.advance(w, inp);
        proof {
            lemma_transfer(self.store@, self.sums@, start, u2, u2, t1, self.cache.table(), n as nat);
            lemma_run_extend(start, u2, n as nat, t1, self.cache.table());
        }
        let ghost sums_before = self.sums@;
        self.sums.push(checksum(&w_next));
        self.world = w_next;
        proof {
            let t2 = self.cache.table();
            assert forall|f: int| 0 <= f <= n + 1 implies #[trigger] self.sums@[f] == checksum_of(run(start, u2, f as nat, t2)) by {
                if f <= n {
                    assert(self.sums@[f] == sums_before[f]);
                }
            }
            assert forall|f: int| 0 <= f < n + 1 && #[trigger] remote_at(self.remote@, f) is Some
                implies remote_part(self.local_handle, self.used@[f]) == remote_at(self.remote@, f)->0 by {
                if f < n {
                    assert(u1[f] == u2[f]);
                }
            }
            assert(u2 == u1.push(inp));
        }
    }

    /// Simulates the next frame. A confirmed remote input that differs from
    /// the prediction a past frame was simulated with first rolls the world
    /// back to that frame and replays it and every later frame.
    #[verifier::rlimit(100)]
    pub fn advance_frame(&mut self, local_input: u8) -> (r: Result<AdvanceReport, SessionError>)
        requires
            old(self).wf(),
        ensures
            final(self).wf(),
            (r == Err::<AdvanceReport, SessionError>(SessionError::FrameLimit)) <==> old(self).frame() >= MAX_FRAMES,
            (r == Err::<AdvanceReport, SessionError>(SessionError::PredictionLimit)) <==> (old(self).frame() < MAX_FRAMES
                && old(self).frame() >= old(self).confirmed_frames() + old(self).prediction_window()),
            (r == Err::<AdvanceReport, SessionError>(SessionError::SnapshotMissing)) <==> (old(self).frame() < MAX_FRAMES
                && old(self).frame() < old(self).confirmed_frames() + old(self).prediction_window()
                && old(self).pending() is Some && !old(self).holds_snapshot(old(self).pending()->0)),
            (r is Ok) <==> (old(self).frame() < MAX_FRAMES
                && old(self).frame() < old(self).confirmed_frames() + old(self).prediction_window()
                && (old(self).pending() is None || old(self).holds_snapshot(old(self).pending()->0))),
            r is Err ==> *final(self) == *old(self),
            r is Ok ==> {
                let n = old(self).frame();
                let from: int = match old(self).pending() {
                    Some(f) => f as int,
                    None => n as int,
                };
                let ins = final(self).inputs();
                let local = final(self).local();
                &&& final(self).frame() == n + 1
                &&& final(self).pending() is None
                &&& r->Ok_0 == (AdvanceReport {
                    frame: n as u64,
                    rolled_back: old(self).pending() is Some,
                    rollback_frame: from as u64,
                    resimulated: (n - from) as u64,
                })
                &&& forall|f: int| 0 <= f < from ==> ins[f] == old(self).inputs()[f]
                &&& forall|f: int| 0 <= f < n ==> local_part(local, #[trigger] ins[f]) == local_part(local, old(self).inputs()[f])
                &&& local_part(local, ins[n as int]) == local_input
                &&& forall|f: int| from <= f <= n ==> remote_part(local, #[trigger] ins[f])
                    == expected_remote(final(self).confirmed(f), f, ins, local)
                &&& forall|f: int| 0 <= f <= n && #[trigger] final(self).confirmed(f) is Some
                    ==> remote_part(local, ins[f]) == final(self).confirmed(f)->0
                &&& final(self).world_model() == run(final(self).start_world(), ins, n + 1, final(self).layouts())
                &&& final(self).world_model() == pure_run(final(self).start_world(), ins, n + 1)
                &&& final(self).checksum_history()[n + 1int] == checksum_of(final(self).world_model())
                &&& final(self).start_world() == old(self).start_world()
                &&& old(self).layouts().submap_of(final(self).layouts())
                &&& forall|f: int| #[trigger] final(self).confirmed(f) == old(self).confirmed(f)
                &&& final(self).confirmed_frames() == old(self).confirmed_frames()
                &&& local == old(self).local()
                &&& final(self).prediction_window() == old(self).prediction_window()
                &&& final(self).last_desync_spec() == old(self).last_desync_spec()
                &&& final(self).state_spec() == (if old(self).state_spec() == SessionState::Desynced {
                    SessionState::Desynced } else { SessionState::Running })
                &&& final(self).rollback_count() == old(self).rollback_count() + (if old(self).pending() is Some { 1int } else { 0 })
            },
    {
        let n = self.world.frame_number;
        if n >= MAX_FRAMES {
            return Err(SessionError::FrameLimit);
        }
        proof {
            if self.confirmed_upto > self.remote@.len() {
                assert(remote_at(self.remote@, self.remote@.len() as int) is Some);
            }
        }
        if n >= self.confirmed_upto + self.max_prediction {
            return Err(SessionError::PredictionLimit);
        }
        let mut report = AdvanceReport { frame: n, rolled_back: false, rollback_frame: n, resimulated: 0 };
        match self.pending {
            Some(f) => {
                match self.store.load(f) {
                    None => {
                        return Err(SessionError::SnapshotMissing);
                    },
                    Some(w0) => {
                        proof {
                            let i = slot_of(f, SNAPSHOT_SLOTS as int);
                            assert(self.store@[i] is Some);
                        }
                        self.resimulate(f, w0);
                        report = AdvanceReport { frame: n, rolled_back: true, rollback_frame: f, resimulated: n - f };
                    },
                }
            },
            None => {},
        }
        let ghost mid = self.used@;
        let ghost t_mid = self.cache.table();
        self.forward(local_input);
        proof {
            vstd::map_lib::lemma_submap_of_trans(old(self).cache.table(), t_mid, self.cache.table());
        }
        if report.rolled_back {
            self.rollbacks = self.rollbacks + 1;
        }
        proof {
            lemma_run_exact(self.start@, self.used@, self.used@.len(), self.cache.table());
        }
        proof {
            let ins = self.used@;
            assert forall|f: int| 0 <= f < n implies #[trigger] ins[f] == mid[f] by {}
            assert forall|f: int| 0 <= f <= n && #[trigger] remote_at(self.remote@, f) is Some
                implies remote_part(self.local_handle, ins[f]) == remote_at(self.remote@, f)->0 by {
                if f == n {
                } else {
                    assert(ins[f] == mid[f]);
                }
            }
        }
        Ok(report)
    }
}

impl Session {
    /// Records the remote player's confirmed input for `frame`. A value that
    /// differs from the prediction a simulated frame used marks that frame
    /// for rollback at the next `advance_frame`; one that matches it changes
    /// nothing that was simulated. Repeating an input already confirmed is
    /// accepted.
    #[verifier::rlimit(50)]
    pub fn add_remote_input(&mut self, frame: u64, input: u8) -> (r: Result<(), SessionError>)
        requires
            old(self).wf(),
        ensures
            final(self).wf(),
            (r == Err::<(), SessionError>(SessionError::InputTooOld)) <==> frame + SNAPSHOT_SLOTS <= old(self).frame(),
            (r == Err::<(), SessionError>(SessionError::InputTooFarAhead)) <==> old(self).frame() < frame + SNAPSHOT_SLOTS
                && frame > old(self).frame() + SNAPSHOT_SLOTS,
            (r == Err::<(), SessionError>(SessionError::InputConflict)) <==> old(self).frame() < frame + SNAPSHOT_SLOTS
                && frame <= old(self).frame() + SNAPSHOT_SLOTS
                && old(self).confirmed(frame as int) is Some && old(self).confirmed(frame as int)->0 != input,
            (r is Ok) <==> (old(self).frame() < frame + SNAPSHOT_SLOTS
                && frame <= old(self).frame() + SNAPSHOT_SLOTS
                && (old(self).confirmed(frame as int) is None || old(self).confirmed(frame as int)->0 == input)),
            r is Err ==> *final(self) == *old(self),
            r is Ok ==> {
                &&& forall|f: int| #[trigger] final(self).confirmed(f) == (if f == frame { Some(input) } else { old(self).confirmed(f) })
                &&& forall|f: int| 0 <= f < final(self).confirmed_frames() ==> #[trigger] final(self).confirmed(f) is Some
                &&& final(self).confirmed(final(self).confirmed_frames() as int) is None
                &&& final(self).pending() == (if old(self).confirmed(frame as int) is None && frame < old(self).frame()
                    && remote_part(old(self).local(), old(self).inputs()[frame as int]) != input {
                    match old(self).pending() {
                        Some(p) => Some(if p < frame { p } else { frame }),
                        None => Some(frame),
                    }
                } else {
                    old(self).pending()
                })
                &&& final(self).frame() == old(self).frame()
                &&& final(self).inputs() == old(self).inputs()
                &&& final(self).world_model() == old(self).world_model()
                &&& final(self).start_world() == old(self).start_world()
                &&& final(self).layouts() == old(self).layouts()
                &&& final(self).checksum_history() == old(self).checksum_history()
                &&& final(self).local() == old(self).local()
                &&& final(self).prediction_window() == old(self).prediction_window()
                &&& final(self).state_spec() == old(self).state_spec()
                &&& final(self).last_desync_spec() == old(self).last_desync_spec()
                &&& final(self).rollback_count() == old(self).rollback_count()
            },
    {
        let n = self.world.frame_number;
        let slots = SNAPSHOT_SLOTS as u64;
        if n >= slots && frame <= n - slots {
            return Err(SessionError::InputTooOld);
        }
        if frame > n + slots {
            return Err(SessionError::InputTooFarAhead);
        }
        if frame < self.remote.len() as u64 {
            match self.remote[frame as usize] {
                Some(v) => {
                    if v == input {
                        return Ok(());
                    } else {
                        return Err(SessionError::InputConflict);
                    }
                },
                None => {},
            }
        }
        let ghost r0 = self.remote@;
        assert(r0 == old(self).remote@);
        assert(forall|f: int| 0 <= f < self.confirmed_upto ==> #[trigger] remote_at(r0, f) is Some);
        let mut remote: Vec<Option<u8>> = Vec::new();
        std::mem::swap(&mut self.remote, &mut remote);
        while remote.len() as u64 <= frame
            invariant
                remote@.len() <= frame + 1 || remote@.len() == r0.len(),
                remote@.len() >= r0.len(),
                frame <= n + SNAPSHOT_SLOTS,
                n <= MAX_FRAMES,
                forall|f: int| #[trigger] remote_at(remote@, f) == remote_at(r0, f),
            decreases frame + 1 - remote@.len(),
        {
            let ghost before = remote@;
            remote.push(None);
            assert forall|f: int| #[trigger] remote_at(remote@, f) == remote_at(r0, f) by {
                assert(remote_at(remote@, f) == remote_at(before, f));
            }
        }
        self.remote = remote;
        let ghost r1 = self.remote@;
        let idx = frame as usize;
        self.remote.set(idx, Some(input));
        assert forall|f: int| #[trigger] remote_at(self.remote@, f) == (if f == frame { Some(input) } else { remote_at(r0, f) }) by {
            if f != frame {
                assert(remote_at(self.remote@, f) == remote_at(r1, f));
            }
        }
        if frame < n {
            let used_bits = if self.local_handle == 0 { self.used[idx].1 } else { self.used[idx].0 };
            if used_bits != input {
                self.pending = match self.pending {
                    Some(p) => Some(if p < frame { p } else { frame }),
                    None => Some(frame),
                };
            }
        }
        proof {
            if self.confirmed_upto > self.remote@.len() {
                assert(remote_at(r0, self.remote@.len() as int) is Some);
            }
            assert forall|f: int| 0 <= f < self.confirmed_upto implies #[trigger] remote_at(self.remote@, f) is Some by {
                assert(remote_at(r0, f) is Some);
            }
        }
        let mut c = self.confirmed_upto;
        while c < self.remote.len() as u64 && self.remote[c as usize].is_some()
            invariant
                c <= self.remote@.len(),
                self.remote@.len() <= n + SNAPSHOT_SLOTS + 1,
                n <= MAX_FRAMES,
                forall|f: int| 0 <= f < c ==> #[trigger] remote_at(self.remote@, f) is Some,
            decreases self.remote@.len() - c,
        {
            c = c + 1;
        }
        self.confirmed_upto = c;
        Ok(())
    }

    /// Compares the remote peer's checksum of frame `frame` with the local
    /// one. A mismatch moves the session to `Desynced` and records the event;
    /// the session keeps running either way. The frame must be final here:
    /// a predicted frame may still change.
    pub fn report_remote_checksum(&mut self, frame: u64, remote_checksum: u64) -> (r: Result<bool, SessionError>)
        requires
            old(self).wf(),
        ensures
            final(self).wf(),
            (r == Err::<bool, SessionError>(SessionError::FrameNotConfirmed)) <==> !old(self).final_frame(frame as int),
            (r is Ok) <==> old(self).final_frame(frame as int),
            r is Err ==> *final(self) == *old(self),
            r is Ok ==> {
                let local = checksum_of(run(old(self).start_world(), old(self).inputs(), frame as nat, old(self).layouts()));
                &&& old(self).checksum_history()[frame as int] == local
                &&& r->Ok_0 == (local != remote_checksum)
                &&& final(self).state_spec() == (if local != remote_checksum { SessionState::Desynced } else { old(self).state_spec() })
                &&& final(self).last_desync_spec() == (if local != remote_checksum {
                    Some(DesyncEvent { frame, local_checksum: local, remote_checksum })
                } else {
                    old(self).last_desync_spec()
                })
                &&& final(self).frame() == old(self).frame()
                &&& final(self).inputs() == old(self).inputs()
                &&& final(self).world_model() == old(self).world_model()
                &&& final(self).pending() == old(self).pending()
                &&& forall|f: int| #[trigger] final(self).confirmed(f) == old(self).confirmed(f)
            },
    {
        let n = self.world.frame_number;
        if frame > n || frame > self.confirmed_upto {
            return Err(SessionError::FrameNotConfirmed);
        }
        match self.pending {
            Some(p) => {
                if frame > p {
                    return Err(SessionError::FrameNotConfirmed);
                }
            },
            None => {},
        }
        let len = self.sums.len();
        assert(frame < len);
        let local = self.sums[frame as usize];
        if local != remote_checksum {
            self.state = SessionState::Desynced;
            self.last_desync = Some(DesyncEvent { frame, local_checksum: local, remote_checksum });
            Ok(true)
        } else {
            Ok(false)
        }
    }

    /// The current world, for rendering and scoring.
    pub fn world(&self) -> (r: &World)
        ensures
            r@ == self.world_model(),
    {
        &self.world
    }

    /// Frames simulated so far.
    pub fn current_frame(&self) -> (r: u64)
        requires
            self.wf(),
        ensures
            r == self.frame(),
    {
        self.world.frame_number
    }

    pub fn state(&self) -> (r: SessionState)
        ensures
            r == self.state_spec(),
    {
        self.state
    }

    pub fn last_desync(&self) -> (r: Option<DesyncEvent>)
        ensures
            r == self.last_desync_spec(),
    {
        self.last_desync
    }

    /// Number of rollbacks performed.
    pub fn rollbacks(&self) -> (r: u64)
        ensures
            r == self.rollback_count(),
    {
        self.rollbacks
    }

    /// The remote input that the world of frame `frame + 1` used for frame
    /// `frame`, and whether it was confirmed or predicted.
    pub fn input_at(&self, frame: u64) -> (r: Option<(u8, u8)>)
        requires
            self.wf(),
        ensures
            r is Some <==> frame < self.frame(),
            r is Some ==> r->0 == self.inputs()[frame as int],
    {
        if frame < self.world.frame_number {
            let len = self.used.len();
            assert(frame < len);
            Some(self.used[frame as usize])
        } else {
            None
        }
    }

    /// Local checksum of frame `frame`, if simulated.
    pub fn checksum_at(&self, frame: u64) -> (r: Option<u64>)
        requires
            self.wf(),
        ensures
            r is Some <==> frame <= self.frame(),
            r is Some ==> r->0 == checksum_of(run(self.start_world(), self.inputs(), frame as nat, self.layouts())),
    {
        if frame <= self.world.frame_number {
            let len = self.sums.len();
            assert(frame < len);
            Some(self.sums[frame as usize])
        } else {
            None
        }
    }
}

} // verus!
