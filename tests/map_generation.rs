use rollback_arena::map::{generate_map, round_layout, spawn_positions, wall_from_cells};
use rollback_arena::world::{round_seed, Wall};

#[test]
fn seeded_map_is_reproducible() {
    let a = generate_map(0, 0, 42);
    let b = generate_map(0, 0, 42);
    assert_eq!(a, b);
    assert_eq!(a.len(), 20);
}

#[test]
fn walls_cover_whole_cells_inside_arena() {
    for seed in 0..20u64 {
        for w in generate_map(1, 2, seed) {
            assert!(w.half_w >= 500 && w.half_w < 5000 && w.half_w % 500 == 0);
            assert!(w.half_d >= 500 && w.half_d < 5000 && w.half_d % 500 == 0);
            assert!(w.x - w.half_w >= -20500 && w.x + w.half_w <= 20500);
            assert!(w.z - w.half_d >= -20500 && w.z + w.half_d <= 20500);
            assert_eq!((w.x - w.half_w + 20500) % 1000, 0);
            assert_eq!((w.z - w.half_d + 20500) % 1000, 0);
        }
    }
}

#[test]
fn walls_vary_within_a_map() {
    let walls = generate_map(0, 0, 42);
    let first = walls[0];
    assert!(walls.iter().any(|w| *w != first));
    assert!(walls.iter().any(|w| w.half_w != 500 || w.half_d != 500));
}

#[test]
fn round_seed_mixes_total_score() {
    assert_eq!(round_seed(0, 0, 42), 42);
    assert_eq!(round_seed(2, 1, 42), 3 ^ 42);
    assert_eq!(generate_map(2, 1, 42), generate_map(1, 2, 42));
}

#[test]
fn spawn_points_inside_arena_and_reproducible() {
    for seed in 0..50u64 {
        let (a, b) = spawn_positions(0, seed as u32, seed);
        for c in [a.0, a.1, b.0, b.1] {
            assert!(c >= -20200 && c <= 20200);
        }
        assert_eq!(spawn_positions(0, seed as u32, seed), (a, b));
    }
    let (a, b) = spawn_positions(0, 0, 42);
    assert!(a != b);
}

#[test]
fn layout_combines_map_and_spawns() {
    let l = round_layout(0, 0, 42);
    assert_eq!(l.walls, generate_map(0, 0, 42));
    let (a, b) = spawn_positions(0, 0, 42);
    assert_eq!((l.spawn0, l.spawn1), (a, b));
}

#[test]
fn wall_from_cells_exact() {
    assert_eq!(wall_from_cells(1, 1, 0, 0), Wall { x: -20000, z: -20000, half_w: 500, half_d: 500 });
    assert_eq!(wall_from_cells(9, 2, 32, 39), Wall { x: 16000, z: 19500, half_w: 4500, half_d: 1000 });
}
