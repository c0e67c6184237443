use vstd::prelude::*;
use crate::consts::{MAP_HALF, UNIT};

verus! {

/// One player of a match; its handle is its index in the world, 0 or 1.
#[derive(Clone, Copy, Debug, PartialEq, Eq, Structural)]
pub struct Player {
    pub handle: usize,
    /// Position on the ground plane, in position units.
    pub x: i64,
    pub z: i64,
    /// Last non-zero movement direction, a unit vector in position units.
    pub dir_x: i64,
    pub dir_z: i64,
    /// Octant the player faces, derived from the movement direction.
    pub facing: u8,
    pub bullet_ready: bool,
    pub distance_traveled: u64,
    pub alive: bool,
}

/// A projectile in flight.
#[derive(Clone, Copy, Debug, PartialEq, Eq, Structural)]
pub struct Bullet {
    pub x: i64,
    pub z: i64,
    /// Unit direction of flight, in position units.
    pub dir_x: i64,
    pub dir_z: i64,
    /// Handle of the player who fired it.
    pub owner: usize,
    pub spawn_frame: u64,
}

/// A static axis-aligned obstacle: centre and half extents.
#[derive(Clone, Copy, Debug, PartialEq, Eq, Structural)]
pub struct Wall {
    pub x: i64,
    pub z: i64,
    pub half_w: i64,
    pub half_d: i64,
}

/// Coarse round state: playing, or waiting for the next round after an elimination.
#[derive(Clone, Copy, Debug, PartialEq, Eq, Structural)]
pub enum RoundPhase {
    InRound,
    RoundEnd,
}

/// Everything the deterministic step reads and writes.
#[derive(Debug)]
pub struct World {
    pub p0: Player,
    pub p1: Player,
    pub bullets: Vec<Bullet>,
    pub walls: Vec<Wall>,
    pub score0: u32,
    pub score1: u32,
    pub session_seed: u64,
    pub frame_number: u64,
    pub phase: RoundPhase,
    /// Frames spent in `RoundEnd` so far.
    pub round_end_elapsed: u32,
}

/// Mathematical value of a `World`.
pub ghost struct WorldModel {
    pub p0: Player,
    pub p1: Player,
    pub bullets: Seq<Bullet>,
    pub walls: Seq<Wall>,
    pub score0: u32,
    pub score1: u32,
    pub session_seed: u64,
    pub frame_number: u64,
    pub phase: RoundPhase,
    pub round_end_elapsed: u32,
}

impl View for World {
    type V = WorldModel;

    open spec fn view(&self) -> WorldModel {
        WorldModel {
            p0: self.p0,
            p1: self.p1,
            bullets: self.bullets@,
            walls: self.walls@,
            score0: self.score0,
            score1: self.score1,
            session_seed: self.session_seed,
            frame_number: self.frame_number,
            phase: self.phase,
            round_end_elapsed: self.round_end_elapsed,
        }
    }
}

/// The walls and spawn points of one round.
#[derive(Debug)]
pub struct Layout {
    pub walls: Vec<Wall>,
    pub spawn0: (i64, i64),
    pub spawn1: (i64, i64),
}

pub ghost struct LayoutModel {
    pub walls: Seq<Wall>,
    pub spawn0: (i64, i64),
    pub spawn1: (i64, i64),
}

impl View for Layout {
    type V = LayoutModel;

    open spec fn view(&self) -> LayoutModel {
        LayoutModel { walls: self.walls@, spawn0: self.spawn0, spawn1: self.spawn1 }
    }
}

/// Largest absolute player coordinate any step can produce: a push out of a
/// wall at the arena's edge ends at most a wall's size and a radius further.
pub const PLAYER_BOUND: i64 = 50000;

pub open spec fn abs(v: int) -> int {
    if v < 0 { -v } else { v }
}

pub open spec fn unit_component(c: i64) -> bool {
    -UNIT <= c <= UNIT
}

pub open spec fn wall_ok(w: Wall) -> bool {
    &&& abs(w.x as int) <= MAP_HALF
    &&& abs(w.z as int) <= MAP_HALF
    &&& 0 < w.half_w <= MAP_HALF
    &&& 0 < w.half_d <= MAP_HALF
}

pub open spec fn walls_ok(ws: Seq<Wall>) -> bool {
    forall|i: int| 0 <= i < ws.len() ==> #[trigger] wall_ok(ws[i])
}

pub open spec fn player_ok(p: Player, h: usize) -> bool {
    &&& p.handle == h
    &&& abs(p.x as int) <= PLAYER_BOUND
    &&& abs(p.z as int) <= PLAYER_BOUND
    &&& unit_component(p.dir_x)
    &&& unit_component(p.dir_z)
    &&& p.facing < 8
}

pub open spec fn bullet_ok(b: Bullet) -> bool {
    &&& abs(b.x as int) <= MAP_HALF
    &&& abs(b.z as int) <= MAP_HALF
    &&& unit_component(b.dir_x)
    &&& unit_component(b.dir_z)
    &&& b.owner < 2
}

pub open spec fn bullets_ok(bs: Seq<Bullet>) -> bool {
    forall|i: int| 0 <= i < bs.len() ==> #[trigger] bullet_ok(bs[i])
}

/// Well-formedness of a world: handles match indices and every entity lies
/// within the bounds that keep the arithmetic of a step exact.
pub open spec fn world_ok(w: WorldModel) -> bool {
    &&& player_ok(w.p0, 0)
    &&& player_ok(w.p1, 1)
    &&& bullets_ok(w.bullets)
    &&& walls_ok(w.walls)
}

pub open spec fn layout_ok(l: LayoutModel) -> bool {
    &&& walls_ok(l.walls)
    &&& abs(l.spawn0.0 as int) <= MAP_HALF
    &&& abs(l.spawn0.1 as int) <= MAP_HALF
    &&& abs(l.spawn1.0 as int) <= MAP_HALF
    &&& abs(l.spawn1.1 as int) <= MAP_HALF
}

/// A freshly spawned player: facing left, ready to fire.
pub open spec fn fresh_player(h: usize, pos: (i64, i64)) -> Player {
    Player {
        handle: h,
        x: pos.0,
        z: pos.1,
        dir_x: -1000i64,
        dir_z: 0,
        facing: 4,
        bullet_ready: true,
        distance_traveled: 0,
        alive: true,
    }
}

/// The world at the start of a round laid out by `l`.
pub open spec fn round_start(score0: u32, score1: u32, session_seed: u64, frame: u64, l: LayoutModel) -> WorldModel {
    WorldModel {
        p0: fresh_player(0, l.spawn0),
        p1: fresh_player(1, l.spawn1),
        bullets: Seq::empty(),
        walls: l.walls,
        score0,
        score1,
        session_seed,
        frame_number: frame,
        phase: RoundPhase::InRound,
        round_end_elapsed: 0,
    }
}

/// Seed of the generator for a round: the total score mixed with the match seed.
pub open spec fn round_seed_of(score0: u32, score1: u32, session_seed: u64) -> u64 {
    ((score0 as u64 + score1 as u64) as u64) ^ session_seed
}

pub fn fresh_player_at(h: usize, pos: (i64, i64)) -> (r: Player)
    ensures
        r == fresh_player(h, pos),
{
    Player {
        handle: h,
        x: pos.0,
        z: pos.1,
        dir_x: -UNIT,
        dir_z: 0,
        facing: 4,
        bullet_ready: true,
        distance_traveled: 0,
        alive: true,
    }
}

pub fn round_seed(score0: u32, score1: u32, session_seed: u64) -> (r: u64)
    ensures
        r == round_seed_of(score0, score1, session_seed),
{
    (score0 as u64 + score1 as u64) ^ session_seed
}

/// Copies a list of walls element by element.
pub fn copy_walls(ws: &Vec<Wall>) -> (r: Vec<Wall>)
    ensures
        r@ == ws@,
{
    let mut r: Vec<Wall> = Vec::with_capacity(ws.len());
    let mut i: usize = 0;
    while i < ws.len()
        invariant
            i <= ws@.len(),
            r@ == ws@.subrange(0, i as int),
        decreases ws@.len() - i,
    {
        r.push(ws[i]);
        i = i + 1;
        assert(r@ =~= ws@.subrange(0, i as int));
    }
    assert(r@ =~= ws@);
    r
}

/// Copies a list of bullets element by element.
pub fn copy_bullets(bs: &Vec<Bullet>) -> (r: Vec<Bullet>)
    ensures
        r@ == bs@,
{
    let mut r: Vec<Bullet> = Vec::with_capacity(bs.len());
    let mut i: usize = 0;
    while i < bs.len()
        invariant
            i <= bs@.len(),
            r@ == bs@.subrange(0, i as int),
        decreases bs@.len() - i,
    {
        r.push(bs[i]);
        i = i + 1;
        assert(r@ =~= bs@.subrange(0, i as int));
    }
    assert(r@ =~= bs@);
    r
}

impl World {
    /// The world at the start of a round, with the given scores and layout.
    pub fn start_round(score0: u32, score1: u32, session_seed: u64, frame_number: u64, layout: &Layout) -> (r: World)
        ensures
            r@ == round_start(score0, score1, session_seed, frame_number, layout@),
    {
        World {
            p0: fresh_player_at(0, layout.spawn0),
            p1: fresh_player_at(1, layout.spawn1),
            bullets: Vec::new(),
            walls: copy_walls(&layout.walls),
            score0,
            score1,
            session_seed,
            frame_number,
            phase: RoundPhase::InRound,
            round_end_elapsed: 0,
        }
    }

    /// An exact copy, as kept in a snapshot.
    pub fn snapshot(&self) -> (r: World)
        ensures
            r@ == self@,
    {
        World {
            p0: self.p0,
            p1: self.p1,
            bullets: copy_bullets(&self.bullets),
            walls: copy_walls(&self.walls),
            score0: self.score0,
            score1: self.score1,
            session_seed: self.session_seed,
            frame_number: self.frame_number,
            phase: self.phase,
            round_end_elapsed: self.round_end_elapsed,
        }
    }

    /// Seed of the generator for the round that follows the current scores.
    pub fn next_round_seed(&self) -> (r: u64)
        ensures
            r == round_seed_of(self.score0, self.score1, self.session_seed),
    {
        round_seed(self.score0, self.score1, self.session_seed)
    }

    /// The player with the given handle.
    pub fn player(&self, handle: usize) -> (r: Player)
        requires
            handle < 2,
        ensures
            r == (if handle == 0 { self.p0 } else { self.p1 }),
    {
        if handle == 0 { self.p0 } else { self.p1 }
    }
}

} // verus!
