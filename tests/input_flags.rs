use rollback_arena::input::{
    attack, block, direction, dodge, fire, octant, sprint, INPUT_BLOCK, INPUT_DODGE, INPUT_DOWN,
    INPUT_FIRE, INPUT_LEFT, INPUT_RIGHT, INPUT_SPRINT, INPUT_UP,
};

#[test]
fn direction_axis_aligned() {
    assert_eq!(direction(INPUT_RIGHT), (1000, 0));
    assert_eq!(direction(INPUT_LEFT), (-1000, 0));
    assert_eq!(direction(INPUT_UP), (0, -1000));
    assert_eq!(direction(INPUT_DOWN), (0, 1000));
}

#[test]
fn direction_diagonals_are_normalized() {
    assert_eq!(direction(INPUT_RIGHT | INPUT_DOWN), (707, 707));
    assert_eq!(direction(INPUT_LEFT | INPUT_UP), (-707, -707));
}

#[test]
fn direction_zero_when_idle_or_cancelled() {
    assert_eq!(direction(0), (0, 0));
    assert_eq!(direction(INPUT_LEFT | INPUT_RIGHT), (0, 0));
    assert_eq!(direction(INPUT_UP | INPUT_DOWN | INPUT_FIRE), (0, 0));
}

#[test]
fn action_flags() {
    let all = INPUT_FIRE | INPUT_DODGE | INPUT_BLOCK | INPUT_SPRINT;
    assert!(fire(all) && attack(all) && dodge(all) && block(all) && sprint(all));
    assert!(!fire(INPUT_DODGE));
    assert!(!dodge(INPUT_FIRE));
    assert!(!block(INPUT_SPRINT));
    assert!(!sprint(INPUT_BLOCK));
}

#[test]
fn octants_counter_clockwise_from_right() {
    assert_eq!(octant(1000, 0), 0);
    assert_eq!(octant(707, 707), 1);
    assert_eq!(octant(0, 1000), 2);
    assert_eq!(octant(-707, 707), 3);
    assert_eq!(octant(-1000, 0), 4);
    assert_eq!(octant(-707, -707), 5);
    assert_eq!(octant(0, -1000), 6);
    assert_eq!(octant(707, -707), 7);
    assert_eq!(octant(0, 0), 0);
}

#[test]
fn octant_rounds_angle_to_nearest_sector() {
    assert_eq!(octant(1000, 1), 0);
    assert_eq!(octant(1000, 400), 0);
    assert_eq!(octant(1000, 420), 1);
    assert_eq!(octant(-1, -1000), 6);
    assert_eq!(octant(-1000, -1), 4);
    assert_eq!(octant(420, -1000), 7);
    assert_eq!(octant(400, -1000), 6);
}
