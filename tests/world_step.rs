use rollback_arena::checksum::checksum;
use rollback_arena::consts::{ARENA_LIMIT, PLAYER_RADIUS};
use rollback_arena::input::{INPUT_DOWN, INPUT_FIRE, INPUT_LEFT, INPUT_RIGHT, INPUT_UP};
use rollback_arena::step::{push_out_exec, step};
use rollback_arena::world::{fresh_player_at, Bullet, Layout, Player, RoundPhase, Wall, World};

fn arena(p0: Player, p1: Player, walls: Vec<Wall>) -> World {
    World {
        p0,
        p1,
        bullets: Vec::new(),
        walls,
        score0: 0,
        score1: 0,
        session_seed: 7,
        frame_number: 0,
        phase: RoundPhase::InRound,
        round_end_elapsed: 0,
    }
}

fn empty_layout() -> Layout {
    Layout { walls: Vec::new(), spawn0: (0, 0), spawn1: (0, 0) }
}

fn facing_right(h: usize, x: i64, z: i64) -> Player {
    Player { dir_x: 1000, dir_z: 0, facing: 0, ..fresh_player_at(h, (x, z)) }
}

#[test]
fn movement_advances_one_frame_distance() {
    let w = arena(fresh_player_at(0, (0, 0)), fresh_player_at(1, (5000, 5000)), Vec::new());
    let w = step(w, (INPUT_RIGHT, INPUT_UP | INPUT_LEFT), &empty_layout());
    assert_eq!((w.p0.x, w.p0.z), (100, 0));
    assert_eq!((w.p0.dir_x, w.p0.dir_z, w.p0.facing), (1000, 0, 0));
    assert_eq!(w.p0.distance_traveled, 100);
    assert_eq!((w.p1.x, w.p1.z), (4930, 4930));
    assert_eq!(w.p1.facing, 5);
    assert_eq!(w.frame_number, 1);
}

#[test]
fn movement_clamps_to_arena_limit() {
    let w = arena(fresh_player_at(0, (ARENA_LIMIT - 10, -ARENA_LIMIT + 5)), fresh_player_at(1, (0, 0)), Vec::new());
    let w = step(w, (INPUT_RIGHT | INPUT_UP, 0), &empty_layout());
    assert_eq!(w.p0.x, ARENA_LIMIT);
    assert_eq!(w.p0.z, -ARENA_LIMIT);
    let w = step(w, (INPUT_RIGHT | INPUT_UP, 0), &empty_layout());
    assert_eq!((w.p0.x, w.p0.z), (ARENA_LIMIT, -ARENA_LIMIT));
}

#[test]
fn idle_player_keeps_direction() {
    let w = arena(fresh_player_at(0, (0, 0)), fresh_player_at(1, (9000, 0)), Vec::new());
    let w = step(w, (0, 0), &empty_layout());
    assert_eq!((w.p0.x, w.p0.z, w.p0.dir_x, w.p0.facing), (0, 0, -1000, 4));
    assert_eq!(w.p0.distance_traveled, 0);
}

#[test]
fn wall_pushes_player_out_along_least_penetration() {
    let wall = Wall { x: 0, z: 0, half_w: 1000, half_d: 1000 };
    let p = fresh_player_at(0, (1200, 200));
    let q = push_out_exec(p, wall);
    assert_eq!((q.x, q.z), (1300, 200));
    let p = fresh_player_at(0, (-100, -1250));
    let q = push_out_exec(p, wall);
    assert_eq!((q.x, q.z), (-100, -1300));
}

#[test]
fn wall_tie_pushes_along_x() {
    let wall = Wall { x: 0, z: 0, half_w: 1000, half_d: 1000 };
    let q = push_out_exec(fresh_player_at(0, (-1100, 1100)), wall);
    assert_eq!((q.x, q.z), (-1300, 1100));
}

#[test]
fn resolved_player_no_longer_overlaps_wall() {
    let wall = Wall { x: 3000, z: 0, half_w: 500, half_d: 2000 };
    let w = arena(fresh_player_at(0, (2300, 0)), fresh_player_at(1, (-9000, 0)), vec![wall]);
    let w = step(w, (INPUT_RIGHT, 0), &empty_layout());
    let dx = (w.p0.x - wall.x).abs();
    let dz = (w.p0.z - wall.z).abs();
    assert!(!(dx < wall.half_w + PLAYER_RADIUS && dz < wall.half_d + PLAYER_RADIUS));
    assert_eq!(w.p0.x, 2200);
}

#[test]
fn firing_spawns_one_bullet_until_released() {
    let w = arena(facing_right(0, 0, 0), fresh_player_at(1, (0, 9000)), Vec::new());
    let w = step(w, (INPUT_FIRE, 0), &empty_layout());
    assert_eq!(w.bullets.len(), 1);
    assert_eq!((w.bullets[0].x, w.bullets[0].z), (500 + 333, 0));
    assert_eq!(w.bullets[0].owner, 0);
    assert_eq!(w.bullets[0].spawn_frame, 0);
    assert!(!w.p0.bullet_ready);
    let w = step(w, (INPUT_FIRE, 0), &empty_layout());
    assert_eq!(w.bullets.len(), 1);
    let w = step(w, (0, 0), &empty_layout());
    assert!(w.p0.bullet_ready);
    let w = step(w, (INPUT_FIRE, 0), &empty_layout());
    assert_eq!(w.bullets.len(), 2);
}

#[test]
fn muzzle_offset_follows_octant() {
    let w = arena(fresh_player_at(0, (0, 0)), fresh_player_at(1, (9000, 9000)), Vec::new());
    let w = step(w, (INPUT_FIRE | INPUT_DOWN, 0), &empty_layout());
    assert_eq!(w.bullets.len(), 1);
    assert_eq!((w.bullets[0].x, w.bullets[0].z), (250, 100 + 500 + 333));
}

#[test]
fn bullet_leaving_arena_is_removed() {
    let mut w = arena(fresh_player_at(0, (0, 0)), fresh_player_at(1, (0, 9000)), Vec::new());
    w.bullets.push(Bullet { x: 20400, z: 0, dir_x: 1000, dir_z: 0, owner: 0, spawn_frame: 0 });
    let w = step(w, (0, 0), &empty_layout());
    assert_eq!(w.bullets.len(), 0);
}

#[test]
fn bullet_entering_wall_is_removed() {
    let wall = Wall { x: 2000, z: 0, half_w: 500, half_d: 500 };
    let mut w = arena(fresh_player_at(0, (-9000, 0)), fresh_player_at(1, (0, 9000)), vec![wall]);
    w.bullets.push(Bullet { x: 1300, z: 0, dir_x: 1000, dir_z: 0, owner: 0, spawn_frame: 0 });
    w.bullets.push(Bullet { x: 0, z: 3000, dir_x: 1000, dir_z: 0, owner: 1, spawn_frame: 0 });
    let w = step(w, (0, 0), &empty_layout());
    assert_eq!(w.bullets.len(), 1);
    assert_eq!((w.bullets[0].x, w.bullets[0].owner), (333, 1));
}

#[test]
fn own_bullet_does_not_eliminate() {
    let mut w = arena(fresh_player_at(0, (0, 0)), fresh_player_at(1, (9000, 0)), Vec::new());
    w.bullets.push(Bullet { x: -333, z: 0, dir_x: 1000, dir_z: 0, owner: 0, spawn_frame: 0 });
    let w = step(w, (0, 0), &empty_layout());
    assert!(w.p0.alive);
    assert_eq!(w.phase, RoundPhase::InRound);
    assert_eq!((w.score0, w.score1), (0, 0));
}

#[test]
fn opponent_bullet_eliminates_and_scores() {
    let mut w = arena(fresh_player_at(0, (0, 0)), fresh_player_at(1, (9000, 0)), Vec::new());
    w.bullets.push(Bullet { x: -333, z: 0, dir_x: 1000, dir_z: 0, owner: 1, spawn_frame: 0 });
    let w = step(w, (0, 0), &empty_layout());
    assert!(!w.p0.alive);
    assert_eq!(w.phase, RoundPhase::RoundEnd);
    assert_eq!((w.score0, w.score1), (0, 1));
}

#[test]
fn target_eliminated_within_travel_time() {
    let distance: i64 = 5000;
    let w = arena(facing_right(0, 0, 0), fresh_player_at(1, (distance, 0)), Vec::new());
    let steps = (distance + 332) / 333;
    let mut w = step(w, (INPUT_FIRE, 0), &empty_layout());
    let mut taken = 1;
    while taken < steps && w.phase == RoundPhase::InRound {
        w = step(w, (0, 0), &empty_layout());
        taken += 1;
    }
    assert!(!w.p1.alive);
    assert!(w.p0.alive);
    assert_eq!(w.phase, RoundPhase::RoundEnd);
    assert_eq!((w.score0, w.score1), (1, 0));
    assert!(taken <= steps);
}

#[test]
fn round_restarts_after_timeout() {
    let mut w = arena(fresh_player_at(0, (0, 0)), fresh_player_at(1, (9000, 0)), Vec::new());
    w.bullets.push(Bullet { x: -333, z: 0, dir_x: 1000, dir_z: 0, owner: 1, spawn_frame: 0 });
    let layout = Layout {
        walls: vec![Wall { x: 100, z: 100, half_w: 500, half_d: 500 }],
        spawn0: (-3000, 4000),
        spawn1: (3000, -4000),
    };
    let mut w = step(w, (0, 0), &layout);
    for _ in 0..59 {
        w = step(w, (INPUT_RIGHT, INPUT_FIRE), &layout);
        assert_eq!(w.phase, RoundPhase::RoundEnd);
    }
    w = step(w, (0, 0), &layout);
    assert_eq!(w.phase, RoundPhase::InRound);
    assert_eq!(w.frame_number, 61);
    assert_eq!((w.score0, w.score1), (0, 1));
    assert_eq!((w.p0.x, w.p0.z, w.p1.x, w.p1.z), (-3000, 4000, 3000, -4000));
    assert!(w.p0.alive && w.p1.alive && w.p0.bullet_ready);
    assert_eq!(w.walls.len(), 1);
    assert_eq!(w.bullets.len(), 0);
}

#[test]
fn checksum_exact_value() {
    let mut w = arena(fresh_player_at(0, (1000, -2000)), fresh_player_at(1, (0, 0)), Vec::new());
    w.p1.alive = false;
    w.bullets.push(Bullet { x: 10, z: 20, dir_x: 1000, dir_z: 0, owner: 1, spawn_frame: 3 });
    assert_eq!(checksum(&w), 0xdd36176f7f586e1d);
    w.p0.alive = false;
    w.bullets.clear();
    assert_eq!(checksum(&w), 0xcbf29ce484222325);
}

#[test]
fn checksum_ignores_walls_and_scores() {
    let a = arena(fresh_player_at(0, (1, 2)), fresh_player_at(1, (3, 4)), Vec::new());
    let mut b = arena(fresh_player_at(0, (1, 2)), fresh_player_at(1, (3, 4)), vec![Wall { x: 0, z: 0, half_w: 500, half_d: 500 }]);
    b.score0 = 3;
    assert_eq!(checksum(&a), checksum(&b));
    b.p1.x = 5;
    assert_ne!(checksum(&a), checksum(&b));
}

#[test]
fn idle_player_outside_limit_is_clamped() {
    let w = arena(fresh_player_at(0, (20400, -20450)), fresh_player_at(1, (0, 0)), Vec::new());
    let w = step(w, (0, 0), &empty_layout());
    assert_eq!((w.p0.x, w.p0.z), (ARENA_LIMIT, -ARENA_LIMIT));
    assert_eq!(w.p0.distance_traveled, 0);
}

#[test]
fn bullet_box_touching_wall_is_removed() {
    let wall = Wall { x: 2000, z: 0, half_w: 500, half_d: 500 };
    let mut w = arena(fresh_player_at(0, (-9000, 0)), fresh_player_at(1, (0, 9000)), vec![wall]);
    w.bullets.push(Bullet { x: 1134, z: 520, dir_x: 1000, dir_z: 0, owner: 0, spawn_frame: 0 });
    w.bullets.push(Bullet { x: 1134, z: 560, dir_x: 1000, dir_z: 0, owner: 0, spawn_frame: 0 });
    w.bullets.push(Bullet { x: 1200, z: 0, dir_x: 1000, dir_z: 0, owner: 0, spawn_frame: 0 });
    let w = step(w, (0, 0), &empty_layout());
    assert_eq!(w.bullets.len(), 1);
    assert_eq!((w.bullets[0].x, w.bullets[0].z), (1467, 560));
}
