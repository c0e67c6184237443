use rollback_arena::checksum::checksum;
use rollback_arena::input::{INPUT_DOWN, INPUT_FIRE, INPUT_LEFT, INPUT_RIGHT, INPUT_UP};
use rollback_arena::session::{AdvanceReport, DesyncEvent, Session, SessionError, SessionState};
use rollback_arena::timeline::{simulate, LayoutCache};
use rollback_arena::world::{fresh_player_at, RoundPhase, World};

fn start_world() -> World {
    World {
        p0: fresh_player_at(0, (-4000, 0)),
        p1: fresh_player_at(1, (4000, 1000)),
        bullets: Vec::new(),
        walls: Vec::new(),
        score0: 0,
        score1: 0,
        session_seed: 99,
        frame_number: 0,
        phase: RoundPhase::InRound,
        round_end_elapsed: 0,
    }
}

fn same_world(a: &World, b: &World) {
    assert_eq!(a.p0, b.p0);
    assert_eq!(a.p1, b.p1);
    assert_eq!(a.bullets, b.bullets);
    assert_eq!(a.walls, b.walls);
    assert_eq!((a.score0, a.score1, a.frame_number), (b.score0, b.score1, b.frame_number));
    assert_eq!((a.phase, a.round_end_elapsed), (b.phase, b.round_end_elapsed));
}

const LOCAL: [u8; 8] = [INPUT_RIGHT, INPUT_RIGHT | INPUT_FIRE, INPUT_DOWN, 0, INPUT_FIRE, INPUT_UP, INPUT_LEFT, 0];

#[test]
fn confirmed_prediction_needs_no_rollback() {
    let mut s = Session::from_world(0, start_world(), 8);
    s.advance_frame(INPUT_RIGHT).unwrap();
    s.advance_frame(INPUT_RIGHT).unwrap();
    s.add_remote_input(0, 0).unwrap();
    s.add_remote_input(1, 0).unwrap();
    let rep = s.advance_frame(INPUT_RIGHT).unwrap();
    assert!(!rep.rolled_back);
    assert_eq!(rep.resimulated, 0);
    assert_eq!(s.rollbacks(), 0);
    assert_eq!(s.current_frame(), 3);
    assert_eq!(s.state(), SessionState::Running);
}

#[test]
fn corrected_prediction_rolls_back_once() {
    let mut s = Session::from_world(0, start_world(), 8);
    s.add_remote_input(0, 0).unwrap();
    s.add_remote_input(1, 0).unwrap();
    for f in 0..7 {
        let rep = s.advance_frame(LOCAL[f]).unwrap();
        assert!(!rep.rolled_back);
    }
    assert_eq!(s.input_at(4), Some((INPUT_FIRE, 0)));
    s.add_remote_input(2, INPUT_DOWN).unwrap();
    let rep = s.advance_frame(LOCAL[7]).unwrap();
    assert_eq!(rep, AdvanceReport { frame: 7, rolled_back: true, rollback_frame: 2, resimulated: 5 });
    assert_eq!(s.rollbacks(), 1);
    assert_eq!(s.state(), SessionState::Running);

    let inputs: Vec<(u8, u8)> = (0..8).map(|f| (LOCAL[f], if f >= 2 { INPUT_DOWN } else { 0 })).collect();
    let mut cache = LayoutCache::new();
    let (direct, sums) = simulate(start_world(), &inputs, &mut cache);
    same_world(s.world(), &direct);
    for f in 0..=8u64 {
        assert_eq!(s.checksum_at(f), Some(sums[f as usize]));
    }
    assert_eq!(s.input_at(4), Some((INPUT_FIRE, INPUT_DOWN)));
    let rep = s.advance_frame(0).unwrap();
    assert!(!rep.rolled_back);
}

#[test]
fn prediction_window_stalls_simulation() {
    let mut s = Session::from_world(1, start_world(), 3);
    for _ in 0..3 {
        s.advance_frame(INPUT_LEFT).unwrap();
    }
    assert_eq!(s.advance_frame(INPUT_LEFT), Err(SessionError::PredictionLimit));
    assert_eq!(s.current_frame(), 3);
    s.add_remote_input(0, INPUT_UP).unwrap();
    let rep = s.advance_frame(INPUT_LEFT).unwrap();
    assert!(rep.rolled_back);
    assert_eq!((rep.rollback_frame, rep.resimulated), (0, 3));
    assert_eq!(s.input_at(0), Some((INPUT_UP, INPUT_LEFT)));
    assert_eq!(s.input_at(3), Some((INPUT_UP, INPUT_LEFT)));
}

#[test]
fn future_inputs_are_used_when_reached() {
    let mut s = Session::from_world(0, start_world(), 4);
    s.add_remote_input(1, INPUT_DOWN).unwrap();
    s.add_remote_input(0, INPUT_UP).unwrap();
    s.advance_frame(0).unwrap();
    s.advance_frame(0).unwrap();
    s.advance_frame(0).unwrap();
    assert_eq!(s.input_at(0), Some((0, INPUT_UP)));
    assert_eq!(s.input_at(1), Some((0, INPUT_DOWN)));
    assert_eq!(s.input_at(2), Some((0, INPUT_DOWN)));
    assert_eq!(s.rollbacks(), 0);
}

#[test]
fn remote_input_errors() {
    let mut s = Session::from_world(0, start_world(), 8);
    assert_eq!(s.add_remote_input(17, 0), Err(SessionError::InputTooFarAhead));
    s.add_remote_input(0, INPUT_FIRE).unwrap();
    assert_eq!(s.add_remote_input(0, INPUT_UP), Err(SessionError::InputConflict));
    assert_eq!(s.add_remote_input(0, INPUT_FIRE), Ok(()));
    for f in 1..=16u64 {
        s.add_remote_input(f, 0).unwrap();
        s.advance_frame(0).unwrap();
    }
    assert_eq!(s.current_frame(), 16);
    assert_eq!(s.add_remote_input(0, INPUT_FIRE), Err(SessionError::InputTooOld));
    assert_eq!(s.add_remote_input(1, 0), Ok(()));
}

#[test]
fn checksum_mismatch_reports_desync() {
    let mut s = Session::from_world(0, start_world(), 8);
    s.add_remote_input(0, 0).unwrap();
    s.advance_frame(INPUT_RIGHT).unwrap();
    s.advance_frame(INPUT_RIGHT).unwrap();
    let local = s.checksum_at(1).unwrap();
    assert_eq!(s.report_remote_checksum(1, local), Ok(false));
    assert_eq!(s.state(), SessionState::Running);
    assert_eq!(s.report_remote_checksum(2, local), Err(SessionError::FrameNotConfirmed));
    assert_eq!(s.report_remote_checksum(1, local ^ 1), Ok(true));
    assert_eq!(s.state(), SessionState::Desynced);
    assert_eq!(s.last_desync(), Some(DesyncEvent { frame: 1, local_checksum: local, remote_checksum: local ^ 1 }));
    s.advance_frame(0).unwrap();
    assert_eq!(s.state(), SessionState::Desynced);
}

#[test]
fn replay_gives_identical_checksums() {
    let inputs: Vec<(u8, u8)> = (0..40).map(|f| (LOCAL[f % 8], LOCAL[(f * 3) % 8])).collect();
    let mut cache = LayoutCache::new();
    let (a, sums_a) = simulate(start_world(), &inputs, &mut cache);
    let (b, sums_b) = simulate(start_world(), &inputs, &mut cache);
    assert_eq!(sums_a, sums_b);
    same_world(&a, &b);
    assert_eq!(checksum(&a), sums_a[40]);
}

#[test]
fn resimulating_from_a_snapshot_matches_direct_run() {
    let inputs: Vec<(u8, u8)> = (0..30).map(|f| (LOCAL[(f * 5) % 8], LOCAL[(f + 1) % 8])).collect();
    let mut cache = LayoutCache::new();
    let (direct, _) = simulate(start_world(), &inputs, &mut cache);
    let (mid, _) = simulate(start_world(), &inputs[..12].to_vec(), &mut cache);
    let (replayed, _) = simulate(mid, &inputs[12..].to_vec(), &mut cache);
    same_world(&direct, &replayed);
}

#[test]
fn new_match_lays_out_first_round() {
    let s = Session::new(1, 42, 8);
    let w = s.world();
    assert_eq!(w.walls.len(), 20);
    assert_eq!((w.score0, w.score1, w.frame_number), (0, 0, 0));
    assert!(w.p0.alive && w.p1.alive);
    assert_eq!(w.session_seed, 42);
    let t = Session::new(0, 42, 8);
    same_world(w, t.world());
}
