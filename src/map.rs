use vstd::prelude::*;
use crate::consts::{ARENA_LIMIT, MAP_HALF, MAP_SIZE, MAX_BOX_SIZE, WALL_COUNT};
use crate::rng::{seeded_draw, SeededRng};
use crate::world::{layout_ok, round_seed, round_seed_of, wall_ok, Layout, LayoutModel, Wall};

verus! {

/// A wall that covers whole grid cells inside the arena: its sides are
/// 1 to 9 cells long and its edges lie on cell boundaries.
pub open spec fn grid_wall(w: Wall) -> bool {
    &&& 500 <= w.half_w < 5000 && w.half_w % 500 == 0
    &&& 500 <= w.half_d < 5000 && w.half_d % 500 == 0
    &&& -MAP_HALF <= w.x - w.half_w && w.x + w.half_w <= MAP_HALF
    &&& -MAP_HALF <= w.z - w.half_d && w.z + w.half_d <= MAP_HALF
    &&& (w.x - w.half_w + MAP_HALF) % 1000 == 0
    &&& (w.z - w.half_d + MAP_HALF) % 1000 == 0
}

/// The wall whose corner is at grid cell (`cell_x`, `cell_z`) and which spans
/// `width` by `depth` cells.
pub open spec fn wall_at(width: i32, depth: i32, cell_x: i32, cell_z: i32) -> Wall {
    Wall {
        x: (cell_x * 1000 + width * 500 - MAP_HALF) as i64,
        z: (cell_z * 1000 + depth * 500 - MAP_HALF) as i64,
        half_w: (width * 500) as i64,
        half_d: (depth * 500) as i64,
    }
}

/// One more draw on `before`: the value drawn and the ranges drawn after it.
pub open spec fn draw_after(seed: u64, before: Seq<(i32, i32)>, lo: i32, hi: i32) -> (i32, Seq<(i32, i32)>) {
    (seeded_draw(seed, before.push((lo, hi))), before.push((lo, hi)))
}

/// The next wall drawn after `before`: its width, its depth, then the cell of
/// its corner on each axis, so that it fits in the arena.
pub open spec fn next_wall(seed: u64, before: Seq<(i32, i32)>) -> (Wall, Seq<(i32, i32)>) {
    let w = draw_after(seed, before, 1, MAX_BOX_SIZE);
    let d = draw_after(seed, w.1, 1, MAX_BOX_SIZE);
    let cx = draw_after(seed, d.1, 0, (MAP_SIZE - w.0 + 1) as i32);
    let cz = draw_after(seed, cx.1, 0, (MAP_SIZE - d.0 + 1) as i32);
    (wall_at(w.0, d.0, cx.0, cz.0), cz.1)
}

/// The first `k` walls of the generator seeded with `seed`, and the ranges
/// drawn for them.
pub open spec fn walls_drawn(seed: u64, k: nat) -> (Seq<Wall>, Seq<(i32, i32)>)
    decreases k,
{
    if k == 0 {
        (Seq::empty(), Seq::empty())
    } else {
        let prev = walls_drawn(seed, (k - 1) as nat);
        let next = next_wall(seed, prev.1);
        (prev.0.push(next.0), next.1)
    }
}

/// The walls of a round whose generator seed is `seed`.
pub open spec fn walls_of(seed: u64) -> Seq<Wall> {
    walls_drawn(seed, WALL_COUNT as nat).0
}

/// The range each spawn coordinate is drawn in: within the arena limit.
pub open spec fn spawn_range() -> (i32, i32) {
    (-20200i32, 20201i32)
}

/// Spawn points of a round whose generator seed is `seed`: player 0's x and
/// z, then player 1's, drawn in that order.
pub open spec fn spawns_of(seed: u64) -> ((i64, i64), (i64, i64)) {
    let r = spawn_range();
    (
        (seeded_draw(seed, seq![r]) as i64, seeded_draw(seed, seq![r, r]) as i64),
        (seeded_draw(seed, seq![r, r, r]) as i64, seeded_draw(seed, seq![r, r, r, r]) as i64),
    )
}

/// Walls and spawn points of a round whose generator seed is `seed`.
pub open spec fn layout_of(seed: u64) -> LayoutModel {
    LayoutModel { walls: walls_of(seed), spawn0: spawns_of(seed).0, spawn1: spawns_of(seed).1 }
}

/// The wall at grid cell (`cell_x`, `cell_z`) spanning `width` by `depth` cells.
pub fn wall_from_cells(width: i32, depth: i32, cell_x: i32, cell_z: i32) -> (r: Wall)
    requires
        1 <= width < MAX_BOX_SIZE,
        1 <= depth < MAX_BOX_SIZE,
        0 <= cell_x <= MAP_SIZE - width,
        0 <= cell_z <= MAP_SIZE - depth,
    ensures
        r == wall_at(width, depth, cell_x, cell_z),
        grid_wall(r),
        wall_ok(r),
{
    let half_w = width as i64 * 500;
    let half_d = depth as i64 * 500;
    Wall {
        x: cell_x as i64 * 1000 + half_w - MAP_HALF,
        z: cell_z as i64 * 1000 + half_d - MAP_HALF,
        half_w,
        half_d,
    }
}

/// The walls of the round that follows the given scores: `WALL_COUNT` walls
/// drawn from a generator seeded by the scores and the match seed.
pub fn generate_map(score0: u32, score1: u32, session_seed: u64) -> (r: Vec<Wall>)
    ensures
        r@ == walls_of(round_seed_of(score0, score1, session_seed)),
        r@.len() == WALL_COUNT,
        forall|i: int| 0 <= i < r@.len() ==> #[trigger] grid_wall(r@[i]) && wall_ok(r@[i]),
{
    let seed = round_seed(score0, score1, session_seed);
    let mut g = SeededRng::new(seed);
    let mut walls: Vec<Wall> = Vec::new();
    let mut i: usize = 0;
    while i < WALL_COUNT
        invariant
            i <= WALL_COUNT,
            g.seed() == seed,
            walls@ == walls_drawn(seed, i as nat).0,
            g.drawn() == walls_drawn(seed, i as nat).1,
            walls@.len() == i,
            forall|k: int| 0 <= k < walls@.len() ==> #[trigger] grid_wall(walls@[k]) && wall_ok(walls@[k]),
        decreases WALL_COUNT - i,
    {
        let width = g.draw(1, MAX_BOX_SIZE);
        let depth = g.draw(1, MAX_BOX_SIZE);
        let cell_x = g.draw(0, MAP_SIZE - width + 1);
        let cell_z = g.draw(0, MAP_SIZE - depth + 1);
        walls.push(wall_from_cells(width, depth, cell_x, cell_z));
        i = i + 1;
    }
    walls
}

/// Spawn points of both players for the round that follows the given
/// scores, each coordinate drawn within the arena limit.
pub fn spawn_positions(score0: u32, score1: u32, session_seed: u64) -> (r: ((i64, i64), (i64, i64)))
    ensures
        r == spawns_of(round_seed_of(score0, score1, session_seed)),
        -ARENA_LIMIT <= r.0.0 <= ARENA_LIMIT,
        -ARENA_LIMIT <= r.0.1 <= ARENA_LIMIT,
        -ARENA_LIMIT <= r.1.0 <= ARENA_LIMIT,
        -ARENA_LIMIT <= r.1.1 <= ARENA_LIMIT,
{
    let seed = round_seed(score0, score1, session_seed);
    let mut g = SeededRng::new(seed);
    let lo: i32 = -20200;
    let hi: i32 = 20201;
    let ghost r = spawn_range();
    let x0 = g.draw(lo, hi);
    assert(g.drawn() =~= seq![r]);
    let z0 = g.draw(lo, hi);
    assert(g.drawn() =~= seq![r, r]);
    let x1 = g.draw(lo, hi);
    assert(g.drawn() =~= seq![r, r, r]);
    let z1 = g.draw(lo, hi);
    assert(g.drawn() =~= seq![r, r, r, r]);
    ((x0 as i64, z0 as i64), (x1 as i64, z1 as i64))
}

/// Walls and spawn points of the round that follows the given scores.
pub fn round_layout(score0: u32, score1: u32, session_seed: u64) -> (r: Layout)
    ensures
        r@ == layout_of(round_seed_of(score0, score1, session_seed)),
        layout_ok(r@),
        r@.walls.len() == WALL_COUNT,
        forall|i: int| 0 <= i < r@.walls.len() ==> #[trigger] grid_wall(r@.walls[i]),
{
    let walls = generate_map(score0, score1, session_seed);
    let spawns = spawn_positions(score0, score1, session_seed);
    assert forall|i: int| 0 <= i < walls@.len() implies #[trigger] wall_ok(walls@[i]) by {
        assert(grid_wall(walls@[i]));
    }
    Layout { walls, spawn0: spawns.0, spawn1: spawns.1 }
}

} // verus!
