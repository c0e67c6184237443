use vstd::prelude::*;
use crate::checksum::{checksum, checksum_of};
use crate::map::{layout_of, round_layout};
use crate::step::{needs_layout, step, step_model};
use crate::world::{layout_ok, round_seed_of, Layout, LayoutModel, World, WorldModel, world_ok};

verus! {

/// Generator seed of the round that follows a world's scores.
pub open spec fn seed_of(w: WorldModel) -> u64 {
    round_seed_of(w.score0, w.score1, w.session_seed)
}

/// One step, reading the next round's layout from `table` by seed.
#[verifier::opaque]
pub open spec fn next_world(w: WorldModel, inputs: (u8, u8), table: Map<u64, LayoutModel>) -> WorldModel {
    step_model(w, inputs, table[seed_of(w)])
}

/// The world after the first `n` frames of `inputs`, starting from `start`.
pub open spec fn run(start: WorldModel, inputs: Seq<(u8, u8)>, n: nat, table: Map<u64, LayoutModel>) -> WorldModel
    decreases n,
{
    if n == 0 {
        start
    } else {
        next_world(run(start, inputs, (n - 1) as nat, table), inputs[n - 1], table)
    }
}

/// Every new round started in the first `n` frames found its layout in `table`.
pub open spec fn covered(start: WorldModel, inputs: Seq<(u8, u8)>, n: nat, table: Map<u64, LayoutModel>) -> bool {
    forall|f: nat| f < n && #[trigger] needs_layout(run(start, inputs, f, table))
        ==> table.contains_key(seed_of(run(start, inputs, f, table)))
}

/// Every layout in the table is the one its seed generates.
pub open spec fn table_exact(table: Map<u64, LayoutModel>) -> bool {
    forall|s: u64| table.contains_key(s) ==> #[trigger] table[s] == layout_of(s)
}

/// The world after the first `n` frames of `inputs`, each new round laid out
/// from its seed.
pub open spec fn pure_run(start: WorldModel, inputs: Seq<(u8, u8)>, n: nat) -> WorldModel
    decreases n,
{
    if n == 0 {
        start
    } else {
        let w = pure_run(start, inputs, (n - 1) as nat);
        step_model(w, inputs[n - 1], layout_of(seed_of(w)))
    }
}

/// A run that reads only exact layouts is the run of layouts from seeds.
pub proof fn lemma_run_exact(start: WorldModel, inputs: Seq<(u8, u8)>, n: nat, table: Map<u64, LayoutModel>)
    requires
        covered(start, inputs, n, table),
        table_exact(table),
    ensures
        run(start, inputs, n, table) == pure_run(start, inputs, n),
    decreases n,
{
    if n > 0 {
        let m = (n - 1) as nat;
        lemma_covered_shorter(start, inputs, m, n, table);
        lemma_run_exact(start, inputs, m, table);
        let w = run(start, inputs, m, table);
        reveal(next_world);
        if needs_layout(w) {
            assert(table.contains_key(seed_of(w)));
        } else {
            lemma_layout_unread(w, inputs[m as int], table[seed_of(w)], layout_of(seed_of(w)));
        }
    }
}

pub open spec fn table_ok(table: Map<u64, LayoutModel>) -> bool {
    forall|s: u64| table.contains_key(s) ==> #[trigger] layout_ok(table[s])
}

/// The layout is read only when a new round starts.
pub proof fn lemma_layout_unread(w: WorldModel, inputs: (u8, u8), l1: LayoutModel, l2: LayoutModel)
    requires
        !needs_layout(w),
    ensures
        step_model(w, inputs, l1) == step_model(w, inputs, l2),
{
}

/// The world after `n` frames depends on the first `n` inputs only.
pub proof fn lemma_run_prefix(start: WorldModel, a: Seq<(u8, u8)>, b: Seq<(u8, u8)>, n: nat, table: Map<u64, LayoutModel>)
    requires
        n <= a.len(),
        n <= b.len(),
        forall|i: int| 0 <= i < n ==> a[i] == b[i],
    ensures
        run(start, a, n, table) == run(start, b, n, table),
        covered(start, a, n, table) == covered(start, b, n, table),
    decreases n,
{
    if n > 0 {
        lemma_run_prefix(start, a, b, (n - 1) as nat, table);
    }
    assert forall|f: nat| f < n implies run(start, a, f, table) == run(start, b, f, table) by {
        lemma_run_prefix(start, a, b, f, table);
    }
}

/// Adding layouts for new seeds to a table changes no run that the table covered.
pub proof fn lemma_run_grow(start: WorldModel, inputs: Seq<(u8, u8)>, n: nat, t1: Map<u64, LayoutModel>, t2: Map<u64, LayoutModel>)
    requires
        covered(start, inputs, n, t1),
        t1.submap_of(t2),
    ensures
        run(start, inputs, n, t1) == run(start, inputs, n, t2),
        covered(start, inputs, n, t2),
    decreases n,
{
    if n > 0 {
        let m = (n - 1) as nat;
        assert(covered(start, inputs, m, t1));
        lemma_run_grow(start, inputs, m, t1, t2);
        let w = run(start, inputs, m, t1);
        reveal(next_world);
        if needs_layout(w) {
            assert(t1.contains_key(seed_of(w)));
        } else {
            lemma_layout_unread(w, inputs[m as int], t1[seed_of(w)], t2[seed_of(w)]);
        }
    }
    assert forall|f: nat| f < n && #[trigger] needs_layout(run(start, inputs, f, t2))
        implies t2.contains_key(seed_of(run(start, inputs, f, t2))) by {
        assert(covered(start, inputs, f, t1));
        lemma_run_grow(start, inputs, f, t1, t2);
    }
}

/// Coverage of a longer run includes coverage of every shorter one.
pub proof fn lemma_covered_shorter(start: WorldModel, inputs: Seq<(u8, u8)>, m: nat, n: nat, table: Map<u64, LayoutModel>)
    requires
        m <= n,
        covered(start, inputs, n, table),
    ensures
        covered(start, inputs, m, table),
{
}

/// Rollback equivalence: restoring the world of frame `r` and replaying
/// frames `r..f` with the same inputs gives the world that simulating
/// `0..f` directly gives, and so the same checksum.
pub proof fn lemma_rollback_equivalence(start: WorldModel, inputs: Seq<(u8, u8)>, r: nat, f: nat, table: Map<u64, LayoutModel>)
    requires
        r <= f <= inputs.len(),
    ensures
        run(run(start, inputs, r, table), inputs.subrange(r as int, f as int), (f - r) as nat, table)
            == run(start, inputs, f, table),
        checksum_of(run(run(start, inputs, r, table), inputs.subrange(r as int, f as int), (f - r) as nat, table))
            == checksum_of(run(start, inputs, f, table)),
    decreases f,
{
    if f > r {
        lemma_rollback_equivalence(start, inputs, r, (f - 1) as nat, table);
        let mid = run(start, inputs, r, table);
        let tail = inputs.subrange(r as int, f as int);
        let shorter = inputs.subrange(r as int, f - 1);
        lemma_run_prefix(mid, tail, shorter, (f - 1 - r) as nat, table);
        assert(tail[f - 1 - r] == inputs[f - 1]);
    }
}

/// Determinism: two replays of the same inputs from the same world, each
/// with its own table of exact layouts, give the same checksum at every frame.
pub proof fn lemma_replay_deterministic(start: WorldModel, inputs: Seq<(u8, u8)>, n: nat, t1: Map<u64, LayoutModel>, t2: Map<u64, LayoutModel>)
    requires
        covered(start, inputs, n, t1),
        covered(start, inputs, n, t2),
        table_exact(t1),
        table_exact(t2),
    ensures
        forall|f: nat| f <= n ==> #[trigger] checksum_of(run(start, inputs, f, t1)) == checksum_of(run(start, inputs, f, t2)),
{
    assert forall|f: nat| f <= n implies #[trigger] checksum_of(run(start, inputs, f, t1)) == checksum_of(run(start, inputs, f, t2)) by {
        lemma_covered_shorter(start, inputs, f, n, t1);
        lemma_covered_shorter(start, inputs, f, n, t2);
        lemma_run_exact(start, inputs, f, t1);
        lemma_run_exact(start, inputs, f, t2);
    }
}

/// One more frame of a covered run, after the table grew to `t1`.
pub proof fn lemma_run_extend(start: WorldModel, inputs: Seq<(u8, u8)>, n: nat, t0: Map<u64, LayoutModel>, t1: Map<u64, LayoutModel>)
    requires
        n < inputs.len(),
        covered(start, inputs, n, t0),
        t0.submap_of(t1),
        needs_layout(run(start, inputs, n, t0)) ==> t1.contains_key(seed_of(run(start, inputs, n, t0))),
    ensures
        covered(start, inputs, n + 1, t1),
        run(start, inputs, n + 1, t1) == next_world(run(start, inputs, n, t0), inputs[n as int], t1),
        forall|f: nat| f <= n ==> #[trigger] run(start, inputs, f, t0) == run(start, inputs, f, t1),
{
    lemma_run_grow(start, inputs, n, t0, t1);
    assert forall|f: nat| f <= n implies #[trigger] run(start, inputs, f, t0) == run(start, inputs, f, t1) by {
        lemma_covered_shorter(start, inputs, f, n, t0);
        lemma_run_grow(start, inputs, f, t0, t1);
    }
    assert forall|f: nat| f < n + 1 && #[trigger] needs_layout(run(start, inputs, f, t1))
        implies t1.contains_key(seed_of(run(start, inputs, f, t1))) by {
        if f < n {
            assert(covered(start, inputs, n, t1));
        }
    }
}

/// Layouts already generated, one per round seed, so that replaying a frame
/// that starts a round reuses the layout the first pass used.
pub struct LayoutCache {
    entries: Vec<(u64, Layout)>,
    table: Ghost<Map<u64, LayoutModel>>,
}

impl LayoutCache {
    /// Layouts known so far, by seed.
    pub closed spec fn table(&self) -> Map<u64, LayoutModel> {
        self.table@
    }

    pub closed spec fn wf(&self) -> bool {
        &&& forall|i: int| 0 <= i < self.entries@.len() ==> {
            &&& #[trigger] self.table@.contains_key(self.entries@[i].0)
            &&& self.table@[self.entries@[i].0] == self.entries@[i].1@
        }
        &&& forall|s: u64| #[trigger] self.table@.contains_key(s) ==> exists|i: int| 0 <= i < self.entries@.len() && self.entries@[i].0 == s
        &&& table_ok(self.table@)
        &&& table_exact(self.table@)
    }

    pub fn new() -> (r: LayoutCache)
        ensures
            r.wf(),
            r.table() == Map::<u64, LayoutModel>::empty(),
            table_exact(r.table()),
    {
        LayoutCache { entries: Vec::new(), table: Ghost(Map::empty()) }
    }

    /// Index of the layout for the round that follows `w`'s scores,
    /// generating it if this seed is new.
    fn index_for(&mut self, w: &World) -> (r: usize)
        requires
            old(self).wf(),
        ensures
            final(self).wf(),
            old(self).table().submap_of(final(self).table()),
            final(self).table().contains_key(seed_of(w@)),
            r < final(self).entries@.len(),
            final(self).entries@[r as int].0 == seed_of(w@),
    {
        let seed = w.next_round_seed();
        let mut i: usize = 0;
        while i < self.entries.len()
            invariant
                i <= self.entries@.len(),
                self.wf(),
                seed == seed_of(w@),
                forall|j: int| 0 <= j < i ==> self.entries@[j].0 != seed,
            decreases self.entries@.len() - i,
        {
            if self.entries[i].0 == seed {
                return i;
            }
            i = i + 1;
        }
        let layout = round_layout(w.score0, w.score1, w.session_seed);
        let ghost old_table = self.table@;
        proof {
            assert(!old_table.contains_key(seed));
        }
        self.table = Ghost(self.table@.insert(seed, layout@));
        self.entries.push((seed, layout));
        let r = self.entries.len() - 1;
        assert forall|s: u64| #[trigger] self.table@.contains_key(s) implies exists|j: int| 0 <= j < self.entries@.len() && self.entries@[j].0 == s by {
            if s == seed {
                assert(self.entries@[r as int].0 == s);
            } else {
                assert(old_table.contains_key(s));
                let j = choose|j: int| 0 <= j < old(self).entries@.len() && old(self).entries@[j].0 == s;
                assert(self.entries@[j].0 == s);
            }
        }
        assert forall|j: int| 0 <= j < self.entries@.len() implies {
            &&& #[trigger] self.table@.contains_key(self.entries@[j].0)
            &&& self.table@[self.entries@[j].0] == self.entries@[j].1@
        } by {
            if j < old(self).entries@.len() {
                assert(self.entries@[j] == old(self).entries@[j]);
            }
        }
        r
    }

    /// One world step that reads the next round's layout from the cache.
    pub fn advance(&mut self, w: World, inputs: (u8, u8)) -> (r: World)
        requires
            old(self).wf(),
            world_ok(w@),
            w.frame_number < u64::MAX,
        ensures
            final(self).wf(),
            old(self).table().submap_of(final(self).table()),
            table_exact(final(self).table()),
            needs_layout(w@) ==> final(self).table().contains_key(seed_of(w@)),
            r@ == next_world(w@, inputs, final(self).table()),
            world_ok(r@),
            r.frame_number == w.frame_number + 1,
    {
        if needs_layout_exec(&w) {
            let i = self.index_for(&w);
            proof {
                assert(layout_ok(self.table@[seed_of(w@)]));
            }
            proof {
                reveal(next_world);
            }
            step(w, inputs, &self.entries[i].1)
        } else {
            let none = Layout { walls: Vec::new(), spawn0: (0, 0), spawn1: (0, 0) };
            let ghost wm = w@;
            let r = step(w, inputs, &none);
            proof {
                lemma_layout_unread(wm, inputs, none@, self.table@[seed_of(wm)]);
                reveal(next_world);
            }
            r
        }
    }
}

pub fn needs_layout_exec(w: &World) -> (r: bool)
    ensures
        r == needs_layout(w@),
{
    match w.phase {
        crate::world::RoundPhase::RoundEnd => w.round_end_elapsed >= crate::consts::ROUND_END_FRAMES - 1,
        crate::world::RoundPhase::InRound => false,
    }
}

/// Simulates the given inputs frame by frame from `start`, returning the
/// final world and the checksum of the world at every frame, the start
/// included.
pub fn simulate(start: World, inputs: &Vec<(u8, u8)>, cache: &mut LayoutCache) -> (r: (World, Vec<u64>))
    requires
        old(cache).wf(),
        world_ok(start@),
        start.frame_number as int + inputs@.len() < u64::MAX,
    ensures
        final(cache).wf(),
        old(cache).table().submap_of(final(cache).table()),
        covered(start@, inputs@, inputs@.len(), final(cache).table()),
        r.0@ == run(start@, inputs@, inputs@.len(), final(cache).table()),
        r.1@.len() == inputs@.len() + 1,
        forall|f: int| 0 <= f <= inputs@.len() ==> r.1@[f] == #[trigger] checksum_of(run(start@, inputs@, f as nat, final(cache).table())),
        table_exact(final(cache).table()),
        r.0@ == pure_run(start@, inputs@, inputs@.len()),
        forall|f: int| 0 <= f <= inputs@.len() ==> r.1@[f] == #[trigger] checksum_of(pure_run(start@, inputs@, f as nat)),
{
    let ghost s = start@;
    let mut w = start;
    let mut sums: Vec<u64> = Vec::new();
    sums.push(checksum(&w));
    let mut i: usize = 0;
    while i < inputs.len()
        invariant
            i <= inputs@.len(),
            cache.wf(),
            old(cache).table().submap_of(cache.table()),
            covered(s, inputs@, i as nat, cache.table()),
            w@ == run(s, inputs@, i as nat, cache.table()),
            world_ok(w@),
            w.frame_number == s.frame_number + i,
            s.frame_number as int + inputs@.len() < u64::MAX,
            sums@.len() == i + 1,
            forall|f: int| 0 <= f <= i ==> sums@[f] == #[trigger] checksum_of(run(s, inputs@, f as nat, cache.table())),
        decreases inputs@.len() - i,
    {
        let ghost t0 = cache.table();
        w = cache.advance(w, inputs[i]);
        proof {
            lemma_run_extend(s, inputs@, i as nat, t0, cache.table());
            vstd::map_lib::lemma_submap_of_trans(old(cache).table(), t0, cache.table());
        }
        sums.push(checksum(&w));
        i = i + 1;
        proof {
            assert forall|f: int| 0 <= f <= i implies sums@[f] == #[trigger] checksum_of(run(s, inputs@, f as nat, cache.table())) by {
                if f < i {
                    assert(run(s, inputs@, f as nat, t0) == run(s, inputs@, f as nat, cache.table()));
                }
            }
        }
    }
    proof {
        lemma_run_exact(s, inputs@, inputs@.len(), cache.table());
        assert forall|f: int| 0 <= f <= inputs@.len() implies sums@[f] == #[trigger] checksum_of(pure_run(s, inputs@, f as nat)) by {
            lemma_covered_shorter(s, inputs@, f as nat, inputs@.len(), cache.table());
            lemma_run_exact(s, inputs@, f as nat, cache.table());
        }
    }
    (w, sums)
}

} // verus!
