use vstd::prelude::*;
use crate::consts::ARENA_LIMIT;
use crate::step::{
    after_fire, bullets_after, in_round_frame, hit_by, lemma_move_ok, lemma_resolve_ok, move_player, overlaps, prepared,
    push_out, resolve_walls, step_model, struck,
};
use crate::world::{
    abs, player_ok, wall_ok, walls_ok, world_ok, Bullet, LayoutModel, Player, RoundPhase, Wall, WorldModel,
};

verus! {

/// Every living player ends the movement sub-step inside the arena limit on
/// both axes, whatever its input and wherever it started.
pub proof fn lemma_movement_stays_in_arena(p: Player, input: u8)
    requires
        p.alive,
    ensures
        abs(move_player(p, input).x as int) <= ARENA_LIMIT,
        abs(move_player(p, input).z as int) <= ARENA_LIMIT,
{
}

/// A bullet never hits the player who fired it.
pub proof fn lemma_own_bullet_harmless(p: Player, b: Bullet)
    requires
        b.owner == p.handle,
    ensures
        !hit_by(p, b),
{
}

/// A player eliminated in a step was hit by a bullet that someone else fired.
pub proof fn lemma_elimination_by_opponent(w: WorldModel, inputs: (u8, u8), l: LayoutModel)
    requires
        world_ok(w),
        w.phase == RoundPhase::InRound,
    ensures
        w.p0.alive && !step_model(w, inputs, l).p0.alive ==> exists|i: int|
            0 <= i < bullets_after(w, inputs.0, inputs.1).len()
            && #[trigger] bullets_after(w, inputs.0, inputs.1)[i].owner != 0
            && hit_by(step_model(w, inputs, l).p0, bullets_after(w, inputs.0, inputs.1)[i]),
        w.p1.alive && !step_model(w, inputs, l).p1.alive ==> exists|i: int|
            0 <= i < bullets_after(w, inputs.0, inputs.1).len()
            && #[trigger] bullets_after(w, inputs.0, inputs.1)[i].owner != 1
            && hit_by(step_model(w, inputs, l).p1, bullets_after(w, inputs.0, inputs.1)[i]),
{
    let bs = bullets_after(w, inputs.0, inputs.1);
    let a0 = after_fire(prepared(w.p0, inputs.0, w.walls), inputs.0);
    let a1 = after_fire(prepared(w.p1, inputs.1, w.walls), inputs.1);
    lemma_move_ok(w.p0, 0, inputs.0);
    lemma_resolve_ok(move_player(w.p0, inputs.0), 0, w.walls);
    lemma_move_ok(w.p1, 1, inputs.1);
    lemma_resolve_ok(move_player(w.p1, inputs.1), 1, w.walls);
    assert(step_model(w, inputs, l) == in_round_frame(w, inputs.0, inputs.1));
    if w.p0.alive && !step_model(w, inputs, l).p0.alive {
        lemma_resolve_keeps_alive(move_player(w.p0, inputs.0), w.walls);
        assert(struck(a0, bs));
        let i = choose|i: int| 0 <= i < bs.len() && #[trigger] hit_by(a0, bs[i]);
        assert(hit_by(step_model(w, inputs, l).p0, bs[i]));
    }
    if w.p1.alive && !step_model(w, inputs, l).p1.alive {
        lemma_resolve_keeps_alive(move_player(w.p1, inputs.1), w.walls);
        assert(struck(a1, bs));
        let i = choose|i: int| 0 <= i < bs.len() && #[trigger] hit_by(a1, bs[i]);
        assert(hit_by(step_model(w, inputs, l).p1, bs[i]));
    }
}

/// After being pushed out of a wall, a living player no longer overlaps it.
pub proof fn lemma_push_out_clears_wall(p: Player, w: Wall)
    requires
        p.alive,
        player_ok(p, p.handle),
        wall_ok(w),
    ensures
        !overlaps(push_out(p, w), w),
{
}

/// After wall resolution a living player overlaps none of the walls, provided
/// that no push out of one wall lands it inside a wall resolved before.
pub proof fn lemma_resolution_clears_walls(p: Player, ws: Seq<Wall>)
    requires
        p.alive,
        player_ok(p, p.handle),
        walls_ok(ws),
        forall|k: int, j: int| 0 <= j < k < ws.len() ==>
            !overlaps(push_out(#[trigger] resolve_walls(p, ws.subrange(0, k)), ws[k]), #[trigger] ws[j]),
    ensures
        forall|j: int| 0 <= j < ws.len() ==> !overlaps(resolve_walls(p, ws), #[trigger] ws[j]),
    decreases ws.len(),
{
    if ws.len() > 0 {
        let k = ws.len() - 1;
        let front = ws.drop_last();
        assert(ws.subrange(0, k) =~= front);
        assert forall|kk: int, j: int| 0 <= j < kk < front.len() implies
            !overlaps(push_out(#[trigger] resolve_walls(p, front.subrange(0, kk)), front[kk]), #[trigger] front[j]) by {
            assert(front.subrange(0, kk) =~= ws.subrange(0, kk));
            assert(front[kk] == ws[kk]);
            assert(front[j] == ws[j]);
        }
        assert(walls_ok(front));
        lemma_resolution_clears_walls(p, front);
        lemma_resolve_keeps_alive(p, front);
        lemma_resolve_ok(p, p.handle, front);
        assert(wall_ok(ws[k]));
        lemma_push_out_clears_wall(resolve_walls(p, front), ws[k]);
        assert forall|j: int| 0 <= j < ws.len() implies !overlaps(resolve_walls(p, ws), #[trigger] ws[j]) by {
            if j < k {
                assert(resolve_walls(p, ws.subrange(0, k)) == resolve_walls(p, front));
            }
        }
    }
}

pub proof fn lemma_resolve_keeps_alive(p: Player, ws: Seq<Wall>)
    requires
        p.alive,
    ensures
        resolve_walls(p, ws).alive,
    decreases ws.len(),
{
    if ws.len() > 0 {
        lemma_resolve_keeps_alive(p, ws.drop_last());
    }
}

/// A living player 1 that an opponent's bullet reaches in a step, while
/// player 0 is not hit, is eliminated: player 0's score rises by exactly one,
/// player 1's is unchanged, and the round ends.
pub proof fn lemma_hit_ends_round(w: WorldModel, inputs: (u8, u8), l: LayoutModel)
    requires
        world_ok(w),
        w.phase == RoundPhase::InRound,
        w.p1.alive,
        w.score0 < u32::MAX,
        struck(after_fire(prepared(w.p1, inputs.1, w.walls), inputs.1), bullets_after(w, inputs.0, inputs.1)),
        !struck(after_fire(prepared(w.p0, inputs.0, w.walls), inputs.0), bullets_after(w, inputs.0, inputs.1)),
    ensures
        !step_model(w, inputs, l).p1.alive,
        step_model(w, inputs, l).score0 == w.score0 + 1,
        step_model(w, inputs, l).score1 == w.score1,
        step_model(w, inputs, l).phase == RoundPhase::RoundEnd,
{
    assert(step_model(w, inputs, l) == in_round_frame(w, inputs.0, inputs.1));
}

} // verus!
