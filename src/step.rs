use vstd::prelude::*;
use crate::consts::{
    ARENA_LIMIT, BULLET_RADIUS, BULLET_STEP, MAP_HALF, MOVE_STEP, PLAYER_RADIUS, ROUND_END_FRAMES,
};
use crate::input::{direction, direction_of, has_flag, octant, octant_of, INPUT_FIRE};
use crate::world::{
    abs, bullet_ok, bullets_ok, player_ok, round_start, unit_component,
    wall_ok, walls_ok, world_ok, layout_ok, Bullet, Layout, LayoutModel, Player, RoundPhase, Wall,
    World, WorldModel, PLAYER_BOUND,
};

verus! {

// ---------------------------------------------------------------------------
// The step as mathematics.
// ---------------------------------------------------------------------------

/// `c * speed / UNIT`, rounded towards zero: the distance covered along one
/// axis in a frame by a unit direction component `c`.
pub open spec fn scaled(c: i64, speed: i64) -> int {
    if c >= 0 {
        (c as int * speed as int) / 1000
    } else {
        -(((-c) as int * speed as int) / 1000)
    }
}

pub open spec fn clamp(v: int, lim: int) -> int {
    if v < -lim { -lim } else if v > lim { lim } else { v }
}

/// Movement: a living player with a movement key held turns to face the
/// key's direction and advances one frame's distance; every living player
/// is then clamped to the arena limit.
pub open spec fn move_player(p: Player, input: u8) -> Player {
    let d = direction_of(input);
    if !p.alive {
        p
    } else if d.0 == 0 && d.1 == 0 {
        Player {
            x: clamp(p.x as int, ARENA_LIMIT as int) as i64,
            z: clamp(p.z as int, ARENA_LIMIT as int) as i64,
            ..p
        }
    } else {
        Player {
            x: clamp(p.x + scaled(d.0, MOVE_STEP), ARENA_LIMIT as int) as i64,
            z: clamp(p.z + scaled(d.1, MOVE_STEP), ARENA_LIMIT as int) as i64,
            dir_x: d.0,
            dir_z: d.1,
            facing: octant_of(d.0, d.1),
            distance_traveled: p.distance_traveled.saturating_add(MOVE_STEP as u64),
            ..p
        }
    }
}

/// Whether a player's bounding square (side twice the radius) and a wall's
/// box overlap with positive depth on both axes.
pub open spec fn overlaps(p: Player, w: Wall) -> bool {
    &&& abs(p.x - w.x) < w.half_w + PLAYER_RADIUS
    &&& abs(p.z - w.z) < w.half_d + PLAYER_RADIUS
}

/// Pushes a living player out of one wall along the axis of least
/// penetration; on a tie, along x.
pub open spec fn push_out(p: Player, w: Wall) -> Player {
    let dx = p.x - w.x;
    let dz = p.z - w.z;
    let cx = abs(dx) - w.half_w - PLAYER_RADIUS;
    let cz = abs(dz) - w.half_d - PLAYER_RADIUS;
    if !p.alive || cx >= 0 || cz >= 0 {
        p
    } else if cx >= cz {
        Player { x: (if dx >= 0 { p.x - cx } else { p.x + cx }) as i64, ..p }
    } else {
        Player { z: (if dz >= 0 { p.z - cz } else { p.z + cz }) as i64, ..p }
    }
}

/// Resolves a player against each wall in turn, in the walls' order.
pub open spec fn resolve_walls(p: Player, ws: Seq<Wall>) -> Player
    decreases ws.len(),
{
    if ws.len() == 0 {
        p
    } else {
        push_out(resolve_walls(p, ws.drop_last()), ws.last())
    }
}

/// Reload: releasing fire makes the next shot ready.
pub open spec fn reload(p: Player, input: u8) -> Player {
    if has_flag(input, INPUT_FIRE) { p } else { Player { bullet_ready: true, ..p } }
}

pub open spec fn fires(p: Player, input: u8) -> bool {
    p.alive && has_flag(input, INPUT_FIRE) && p.bullet_ready
}

pub open spec fn after_fire(p: Player, input: u8) -> Player {
    if fires(p, input) { Player { bullet_ready: false, ..p } } else { p }
}

/// Where a bullet leaves the gun, relative to the player, for each octant.
pub open spec fn muzzle_offset(o: u8) -> (int, int) {
    if o == 0 { (500, 0) }
    else if o == 1 { (500, 250) }
    else if o == 2 { (250, 500) }
    else if o == 3 { (-400, 300) }
    else if o == 4 { (-500, 0) }
    else if o == 5 { (-400, -250) }
    else if o == 6 { (-250, -500) }
    else { (250, -250) }
}

pub open spec fn new_bullet(p: Player, frame: u64) -> Bullet {
    let off = muzzle_offset(octant_of(p.dir_x, p.dir_z));
    Bullet {
        x: (p.x + off.0) as i64,
        z: (p.z + off.1) as i64,
        dir_x: p.dir_x,
        dir_z: p.dir_z,
        owner: p.handle,
        spawn_frame: frame,
    }
}

pub open spec fn shots(p: Player, input: u8, frame: u64) -> Seq<Bullet> {
    if fires(p, input) { seq![new_bullet(p, frame)] } else { Seq::empty() }
}

pub open spec fn advance_bullet(b: Bullet) -> Bullet {
    Bullet {
        x: (b.x + scaled(b.dir_x, BULLET_STEP)) as i64,
        z: (b.z + scaled(b.dir_z, BULLET_STEP)) as i64,
        ..b
    }
}

/// Whether a bullet's box (side twice its radius) overlaps a wall's box.
pub open spec fn inside_wall(b: Bullet, w: Wall) -> bool {
    abs(w.x - b.x) < w.half_w + BULLET_RADIUS && abs(w.z - b.z) < w.half_d + BULLET_RADIUS
}

pub open spec fn hits_wall(b: Bullet, ws: Seq<Wall>) -> bool {
    exists|i: int| 0 <= i < ws.len() && #[trigger] inside_wall(b, ws[i])
}

pub open spec fn bullet_survives(b: Bullet, ws: Seq<Wall>) -> bool {
    abs(b.x as int) <= MAP_HALF && abs(b.z as int) <= MAP_HALF && !hits_wall(b, ws)
}

/// Bullet movement followed by bullet-wall collision: every bullet advances,
/// and those that left the arena or entered a wall are removed; the others
/// keep their order.
pub open spec fn fly_bullets(bs: Seq<Bullet>, ws: Seq<Wall>) -> Seq<Bullet>
    decreases bs.len(),
{
    if bs.len() == 0 {
        Seq::empty()
    } else {
        let rest = fly_bullets(bs.drop_last(), ws);
        let b = advance_bullet(bs.last());
        if bullet_survives(b, ws) { rest.push(b) } else { rest }
    }
}

/// A bullet hits a player it does not belong to when their centres are
/// closer than the sum of their radii.
pub open spec fn hit_by(p: Player, b: Bullet) -> bool {
    &&& b.owner != p.handle
    &&& (p.x - b.x) * (p.x - b.x) + (p.z - b.z) * (p.z - b.z)
        < (PLAYER_RADIUS + BULLET_RADIUS) * (PLAYER_RADIUS + BULLET_RADIUS)
}

pub open spec fn struck(p: Player, bs: Seq<Bullet>) -> bool {
    p.alive && exists|i: int| 0 <= i < bs.len() && #[trigger] hit_by(p, bs[i])
}

pub open spec fn eliminate(p: Player, hit: bool) -> Player {
    if hit { Player { alive: false, ..p } } else { p }
}

/// Player state after movement, wall resolution, reload and firing.
pub open spec fn prepared(p: Player, input: u8, ws: Seq<Wall>) -> Player {
    reload(resolve_walls(move_player(p, input), ws), input)
}

/// The bullets in flight after this frame's shots, movement and wall hits.
pub open spec fn bullets_after(w: WorldModel, i0: u8, i1: u8) -> Seq<Bullet> {
    let r0 = prepared(w.p0, i0, w.walls);
    let r1 = prepared(w.p1, i1, w.walls);
    fly_bullets(w.bullets + shots(r0, i0, w.frame_number) + shots(r1, i1, w.frame_number), w.walls)
}

/// One frame of play, its sub-steps in the fixed order: movement, wall
/// resolution, reload, firing, bullet movement, bullet-wall collision and
/// elimination. An eliminated player's opponent scores and the round ends.
pub open spec fn in_round_frame(w: WorldModel, i0: u8, i1: u8) -> WorldModel {
    let a0 = after_fire(prepared(w.p0, i0, w.walls), i0);
    let a1 = after_fire(prepared(w.p1, i1, w.walls), i1);
    let bs = bullets_after(w, i0, i1);
    let k0 = struck(a0, bs);
    let k1 = struck(a1, bs);
    WorldModel {
        p0: eliminate(a0, k0),
        p1: eliminate(a1, k1),
        bullets: bs,
        score0: if k1 { w.score0.saturating_add(1) } else { w.score0 },
        score1: if k0 { w.score1.saturating_add(1) } else { w.score1 },
        phase: if k0 || k1 { RoundPhase::RoundEnd } else { RoundPhase::InRound },
        round_end_elapsed: 0,
        frame_number: (w.frame_number + 1) as u64,
        ..w
    }
}

/// Whether the next step starts a new round, and so reads a layout.
pub open spec fn needs_layout(w: WorldModel) -> bool {
    w.phase == RoundPhase::RoundEnd && w.round_end_elapsed + 1 >= ROUND_END_FRAMES
}

/// One frame after a round ended: the timer advances, and when it runs out
/// a new round starts on layout `l`, with the scores kept.
pub open spec fn round_end_frame(w: WorldModel, l: LayoutModel) -> WorldModel {
    if needs_layout(w) {
        round_start(w.score0, w.score1, w.session_seed, (w.frame_number + 1) as u64, l)
    } else {
        WorldModel {
            round_end_elapsed: (w.round_end_elapsed + 1) as u32,
            frame_number: (w.frame_number + 1) as u64,
            ..w
        }
    }
}

/// The deterministic world step; `l` is read only when a new round starts.
pub open spec fn step_model(w: WorldModel, inputs: (u8, u8), l: LayoutModel) -> WorldModel {
    match w.phase {
        RoundPhase::InRound => in_round_frame(w, inputs.0, inputs.1),
        RoundPhase::RoundEnd => round_end_frame(w, l),
    }
}

// ---------------------------------------------------------------------------
// The step as code.
// ---------------------------------------------------------------------------

proof fn lemma_scaled_bound(c: i64, speed: i64)
    requires
        unit_component(c),
        0 <= speed <= 1000,
    ensures
        -speed <= scaled(c, speed) <= speed,
{
    if c >= 0 {
        assert(0 <= c as int * speed as int <= 1000 * speed as int) by (nonlinear_arith)
            requires 0 <= c <= 1000, 0 <= speed;
    } else {
        assert(0 <= (-c) as int * speed as int <= 1000 * speed as int) by (nonlinear_arith)
            requires 0 < -c <= 1000, 0 <= speed;
    }
}

/// Distance covered along one axis in a frame.
pub fn scale(c: i64, speed: i64) -> (r: i64)
    requires
        unit_component(c),
        0 <= speed <= 1000,
    ensures
        r == scaled(c, speed),
        -speed <= r <= speed,
{
    proof { lemma_scaled_bound(c, speed); }
    if c >= 0 {
        assert(0 <= c as int * speed as int <= 1000000) by (nonlinear_arith)
            requires 0 <= c <= 1000, 0 <= speed <= 1000;
        c * speed / 1000
    } else {
        assert(0 <= (-c) as int * speed as int <= 1000000) by (nonlinear_arith)
            requires 0 < -c <= 1000, 0 <= speed <= 1000;
        -((-c) * speed / 1000)
    }
}

pub fn clamp_to(v: i64, lim: i64) -> (r: i64)
    requires
        lim >= 0,
    ensures
        r == clamp(v as int, lim as int),
{
    if v < -lim { -lim } else if v > lim { lim } else { v }
}

/// Movement sub-step for one player.
pub fn move_player_exec(p: Player, input: u8) -> (r: Player)
    requires
        abs(p.x as int) <= PLAYER_BOUND,
        abs(p.z as int) <= PLAYER_BOUND,
    ensures
        r == move_player(p, input),
{
    let d = direction(input);
    if !p.alive {
        p
    } else if d.0 == 0 && d.1 == 0 {
        Player { x: clamp_to(p.x, ARENA_LIMIT), z: clamp_to(p.z, ARENA_LIMIT), ..p }
    } else {
        let sx = scale(d.0, MOVE_STEP);
        let sz = scale(d.1, MOVE_STEP);
        Player {
            x: clamp_to(p.x + sx, ARENA_LIMIT),
            z: clamp_to(p.z + sz, ARENA_LIMIT),
            dir_x: d.0,
            dir_z: d.1,
            facing: octant(d.0, d.1),
            distance_traveled: p.distance_traveled.saturating_add(MOVE_STEP as u64),
            ..p
        }
    }
}

pub fn abs_exec(v: i64) -> (r: i64)
    requires
        v > i64::MIN,
    ensures
        r == abs(v as int),
{
    if v < 0 { -v } else { v }
}

/// Wall resolution of one player against one wall.
pub fn push_out_exec(p: Player, w: Wall) -> (r: Player)
    requires
        abs(p.x as int) <= PLAYER_BOUND,
        abs(p.z as int) <= PLAYER_BOUND,
        wall_ok(w),
    ensures
        r == push_out(p, w),
        abs(r.x as int) <= PLAYER_BOUND,
        abs(r.z as int) <= PLAYER_BOUND,
{
    let dx = p.x - w.x;
    let dz = p.z - w.z;
    let cx = abs_exec(dx) - w.half_w - PLAYER_RADIUS;
    let cz = abs_exec(dz) - w.half_d - PLAYER_RADIUS;
    if !p.alive || cx >= 0 || cz >= 0 {
        p
    } else if cx >= cz {
        Player { x: if dx >= 0 { p.x - cx } else { p.x + cx }, ..p }
    } else {
        Player { z: if dz >= 0 { p.z - cz } else { p.z + cz }, ..p }
    }
}

/// Resolves a player against every wall, in the walls' order.
pub fn resolve_walls_exec(p: Player, ws: &Vec<Wall>) -> (r: Player)
    requires
        abs(p.x as int) <= PLAYER_BOUND,
        abs(p.z as int) <= PLAYER_BOUND,
        walls_ok(ws@),
    ensures
        r == resolve_walls(p, ws@),
        abs(r.x as int) <= PLAYER_BOUND,
        abs(r.z as int) <= PLAYER_BOUND,
{
    let mut q = p;
    let mut i: usize = 0;
    while i < ws.len()
        invariant
            i <= ws@.len(),
            walls_ok(ws@),
            q == resolve_walls(p, ws@.subrange(0, i as int)),
            abs(q.x as int) <= PLAYER_BOUND,
            abs(q.z as int) <= PLAYER_BOUND,
        decreases ws@.len() - i,
    {
        assert(wall_ok(ws@[i as int]));
        q = push_out_exec(q, ws[i]);
        assert(ws@.subrange(0, i + 1).drop_last() =~= ws@.subrange(0, i as int));
        i = i + 1;
    }
    assert(ws@.subrange(0, ws@.len() as int) =~= ws@);
    q
}

pub fn muzzle_offset_exec(o: u8) -> (r: (i64, i64))
    ensures
        r.0 == muzzle_offset(o).0,
        r.1 == muzzle_offset(o).1,
{
    if o == 0 { (500, 0) }
    else if o == 1 { (500, 250) }
    else if o == 2 { (250, 500) }
    else if o == 3 { (-400, 300) }
    else if o == 4 { (-500, 0) }
    else if o == 5 { (-400, -250) }
    else if o == 6 { (-250, -500) }
    else { (250, -250) }
}

/// Bullet in flight before the wall check: near the arena, unit direction.
pub open spec fn bullet_loose_ok(b: Bullet) -> bool {
    &&& abs(b.x as int) <= PLAYER_BOUND + 1000
    &&& abs(b.z as int) <= PLAYER_BOUND + 1000
    &&& unit_component(b.dir_x)
    &&& unit_component(b.dir_z)
    &&& b.owner < 2
}

pub fn new_bullet_exec(p: Player, frame: u64) -> (r: Bullet)
    requires
        player_ok(p, p.handle),
        p.handle < 2,
    ensures
        r == new_bullet(p, frame),
        bullet_loose_ok(r),
{
    let off = muzzle_offset_exec(octant(p.dir_x, p.dir_z));
    Bullet {
        x: p.x + off.0,
        z: p.z + off.1,
        dir_x: p.dir_x,
        dir_z: p.dir_z,
        owner: p.handle,
        spawn_frame: frame,
    }
}

pub fn advance_bullet_exec(b: Bullet) -> (r: Bullet)
    requires
        bullet_loose_ok(b),
    ensures
        r == advance_bullet(b),
{
    Bullet { x: b.x + scale(b.dir_x, BULLET_STEP), z: b.z + scale(b.dir_z, BULLET_STEP), ..b }
}

/// Whether a bullet's centre is inside any of the walls.
pub fn hits_wall_exec(b: Bullet, ws: &Vec<Wall>) -> (r: bool)
    requires
        abs(b.x as int) <= MAP_HALF,
        abs(b.z as int) <= MAP_HALF,
        walls_ok(ws@),
    ensures
        r == hits_wall(b, ws@),
{
    let mut i: usize = 0;
    while i < ws.len()
        invariant
            i <= ws@.len(),
            walls_ok(ws@),
            abs(b.x as int) <= MAP_HALF,
            abs(b.z as int) <= MAP_HALF,
            forall|j: int| 0 <= j < i ==> !#[trigger] inside_wall(b, ws@[j]),
        decreases ws@.len() - i,
    {
        let w = ws[i];
        assert(wall_ok(ws@[i as int]));
        if abs_exec(w.x - b.x) < w.half_w + BULLET_RADIUS && abs_exec(w.z - b.z) < w.half_d + BULLET_RADIUS {
            assert(inside_wall(b, ws@[i as int]));
            return true;
        }
        i = i + 1;
    }
    false
}

/// Bullet movement and bullet-wall collision over the bullets in flight.
pub fn fly_bullets_exec(bs: &Vec<Bullet>, ws: &Vec<Wall>) -> (r: Vec<Bullet>)
    requires
        forall|i: int| 0 <= i < bs@.len() ==> #[trigger] bullet_loose_ok(bs@[i]),
        walls_ok(ws@),
    ensures
        r@ == fly_bullets(bs@, ws@),
        bullets_ok(r@),
{
    let mut out: Vec<Bullet> = Vec::new();
    let mut i: usize = 0;
    while i < bs.len()
        invariant
            i <= bs@.len(),
            forall|k: int| 0 <= k < bs@.len() ==> #[trigger] bullet_loose_ok(bs@[k]),
            walls_ok(ws@),
            out@ == fly_bullets(bs@.subrange(0, i as int), ws@),
            bullets_ok(out@),
        decreases bs@.len() - i,
    {
        assert(bullet_loose_ok(bs@[i as int]));
        let b = advance_bullet_exec(bs[i]);
        assert(bs@.subrange(0, i + 1).drop_last() =~= bs@.subrange(0, i as int));
        let inside = abs_exec(b.x) <= MAP_HALF && abs_exec(b.z) <= MAP_HALF;
        if inside && !hits_wall_exec(b, ws) {
            out.push(b);
            assert(bullets_ok(out@)) by {
                assert forall|k: int| 0 <= k < out@.len() implies #[trigger] bullet_ok(out@[k]) by {
                    if k < out@.len() - 1 {
                        assert(out@[k] == out@.drop_last()[k]);
                    }
                }
            }
        }
        i = i + 1;
    }
    assert(bs@.subrange(0, bs@.len() as int) =~= bs@);
    out
}

/// Whether any bullet of the opponent hits a living player.
pub fn struck_exec(p: Player, bs: &Vec<Bullet>) -> (r: bool)
    requires
        abs(p.x as int) <= PLAYER_BOUND,
        abs(p.z as int) <= PLAYER_BOUND,
        bullets_ok(bs@),
    ensures
        r == struck(p, bs@),
{
    if !p.alive {
        return false;
    }
    let reach_sq: i64 = (PLAYER_RADIUS + BULLET_RADIUS) * (PLAYER_RADIUS + BULLET_RADIUS);
    let mut i: usize = 0;
    while i < bs.len()
        invariant
            i <= bs@.len(),
            p.alive,
            reach_sq == (PLAYER_RADIUS + BULLET_RADIUS) * (PLAYER_RADIUS + BULLET_RADIUS),
            abs(p.x as int) <= PLAYER_BOUND,
            abs(p.z as int) <= PLAYER_BOUND,
            bullets_ok(bs@),
            forall|j: int| 0 <= j < i ==> !#[trigger] hit_by(p, bs@[j]),
        decreases bs@.len() - i,
    {
        let b = bs[i];
        assert(bullet_ok(bs@[i as int]));
        let dx = p.x - b.x;
        let dz = p.z - b.z;
        assert(0 <= dx * dx <= 10000000000) by (nonlinear_arith)
            requires -100000 <= dx <= 100000;
        assert(0 <= dz * dz <= 10000000000) by (nonlinear_arith)
            requires -100000 <= dz <= 100000;
        if b.owner != p.handle && dx * dx + dz * dz < reach_sq {
            assert(hit_by(p, bs@[i as int]));
            return true;
        }
        i = i + 1;
    }
    false
}

pub fn reload_exec(p: Player, input: u8) -> (r: Player)
    ensures
        r == reload(p, input),
{
    if input & INPUT_FIRE != 0 { p } else { Player { bullet_ready: true, ..p } }
}

pub fn fires_exec(p: Player, input: u8) -> (r: bool)
    ensures
        r == fires(p, input),
{
    p.alive && input & INPUT_FIRE != 0 && p.bullet_ready
}

pub proof fn lemma_move_ok(p: Player, h: usize, input: u8)
    requires
        player_ok(p, h),
    ensures
        player_ok(move_player(p, input), h),
{
}

pub proof fn lemma_resolve_ok(p: Player, h: usize, ws: Seq<Wall>)
    requires
        player_ok(p, h),
        walls_ok(ws),
    ensures
        player_ok(resolve_walls(p, ws), h),
    decreases ws.len(),
{
    if ws.len() > 0 {
        assert(walls_ok(ws.drop_last()));
        lemma_resolve_ok(p, h, ws.drop_last());
        assert(wall_ok(ws[ws.len() - 1]));
    }
}

/// Movement, wall resolution and reload of one player.
pub fn prepare_player(p: Player, input: u8, ws: &Vec<Wall>) -> (r: Player)
    requires
        player_ok(p, p.handle),
        walls_ok(ws@),
    ensures
        r == prepared(p, input, ws@),
        player_ok(r, p.handle),
{
    proof {
        lemma_move_ok(p, p.handle, input);
        lemma_resolve_ok(move_player(p, input), p.handle, ws@);
    }
    let m = move_player_exec(p, input);
    let c = resolve_walls_exec(m, ws);
    reload_exec(c, input)
}

/// One frame of play on a world in `InRound`.
fn in_round_exec(w: World, i0: u8, i1: u8) -> (r: World)
    requires
        world_ok(w@),
        w.phase == RoundPhase::InRound,
        w.frame_number < u64::MAX,
    ensures
        r@ == in_round_frame(w@, i0, i1),
        world_ok(r@),
{
    let ghost wm = w@;
    let r0 = prepare_player(w.p0, i0, &w.walls);
    let r1 = prepare_player(w.p1, i1, &w.walls);
    let mut fired = w.bullets;
    assert forall|k: int| 0 <= k < fired@.len() implies #[trigger] bullet_loose_ok(fired@[k]) by {
        assert(bullet_ok(wm.bullets[k]));
    }
    let f0 = fires_exec(r0, i0);
    if f0 {
        fired.push(new_bullet_exec(r0, w.frame_number));
    }
    let f1 = fires_exec(r1, i1);
    if f1 {
        fired.push(new_bullet_exec(r1, w.frame_number));
    }
    assert(fired@ =~= wm.bullets + shots(r0, i0, wm.frame_number) + shots(r1, i1, wm.frame_number));
    assert forall|k: int| 0 <= k < fired@.len() implies #[trigger] bullet_loose_ok(fired@[k]) by {
        if k < wm.bullets.len() {
            assert(bullet_ok(wm.bullets[k]));
        }
    }
    let a0 = if f0 { Player { bullet_ready: false, ..r0 } } else { r0 };
    let a1 = if f1 { Player { bullet_ready: false, ..r1 } } else { r1 };
    let bs = fly_bullets_exec(&fired, &w.walls);
    let k0 = struck_exec(a0, &bs);
    let k1 = struck_exec(a1, &bs);
    World {
        p0: if k0 { Player { alive: false, ..a0 } } else { a0 },
        p1: if k1 { Player { alive: false, ..a1 } } else { a1 },
        bullets: bs,
        walls: w.walls,
        score0: if k1 { w.score0.saturating_add(1) } else { w.score0 },
        score1: if k0 { w.score1.saturating_add(1) } else { w.score1 },
        session_seed: w.session_seed,
        frame_number: w.frame_number + 1,
        phase: if k0 || k1 { RoundPhase::RoundEnd } else { RoundPhase::InRound },
        round_end_elapsed: 0,
    }
}

/// One frame on a world in `RoundEnd`.
fn round_end_exec(w: World, layout: &Layout) -> (r: World)
    requires
        world_ok(w@),
        layout_ok(layout@),
        w.phase == RoundPhase::RoundEnd,
        w.frame_number < u64::MAX,
    ensures
        r@ == round_end_frame(w@, layout@),
        world_ok(r@),
{
    if w.round_end_elapsed >= ROUND_END_FRAMES - 1 {
        World::start_round(w.score0, w.score1, w.session_seed, w.frame_number + 1, layout)
    } else {
        World { round_end_elapsed: w.round_end_elapsed + 1, frame_number: w.frame_number + 1, ..w }
    }
}

/// The deterministic world step: the next frame's world from this frame's
/// world and both players' inputs. `layout` is read only when the round-end
/// timer runs out and a new round starts.
pub fn step(w: World, inputs: (u8, u8), layout: &Layout) -> (r: World)
    requires
        world_ok(w@),
        layout_ok(layout@),
        w.frame_number < u64::MAX,
    ensures
        r@ == step_model(w@, inputs, layout@),
        world_ok(r@),
        r.frame_number == w.frame_number + 1,
{
    match w.phase {
        RoundPhase::InRound => in_round_exec(w, inputs.0, inputs.1),
        RoundPhase::RoundEnd => round_end_exec(w, layout),
    }
}

} // verus!
