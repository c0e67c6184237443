use vstd::prelude::*;
use crate::world::{Bullet, Player, World, WorldModel};

verus! {

/// Starting value of the hash (the 64-bit FNV offset basis).
pub const HASH_OFFSET: u64 = 0xcbf29ce484222325;

/// Multiplier of the hash (the 64-bit FNV prime).
pub const HASH_PRIME: u64 = 0x100000001b3;

/// Folds one 64-bit word into the hash.
pub open spec fn mix(h: u64, word: u64) -> u64 {
    (h ^ word).wrapping_mul(HASH_PRIME)
}

/// FNV-1a over a sequence of 64-bit words, first to last.
pub open spec fn hash_words(ws: Seq<u64>) -> u64
    decreases ws.len(),
{
    if ws.len() == 0 {
        HASH_OFFSET
    } else {
        mix(hash_words(ws.drop_last()), ws.last())
    }
}

/// What a player contributes: position and facing, only while alive (an
/// eliminated player is gone from the arena).
pub open spec fn player_words(p: Player) -> Seq<u64> {
    if p.alive { seq![p.x as u64, p.z as u64, p.facing as u64] } else { Seq::empty() }
}

/// What a bullet contributes: position and direction of flight.
pub open spec fn bullet_words(b: Bullet) -> Seq<u64> {
    seq![b.x as u64, b.z as u64, b.dir_x as u64, b.dir_z as u64]
}

pub open spec fn bullets_words(bs: Seq<Bullet>) -> Seq<u64>
    decreases bs.len(),
{
    if bs.len() == 0 {
        Seq::empty()
    } else {
        bullets_words(bs.drop_last()) + bullet_words(bs.last())
    }
}

/// The state that peers compare, as words in a fixed order: player 0,
/// player 1, then the bullets in order. Walls are fixed for a round and
/// carry no transform that can drift, so they are left out.
pub open spec fn world_words(w: WorldModel) -> Seq<u64> {
    player_words(w.p0) + player_words(w.p1) + bullets_words(w.bullets)
}

pub open spec fn checksum_of(w: WorldModel) -> u64 {
    hash_words(world_words(w))
}

fn push_player_words(out: &mut Vec<u64>, p: Player)
    ensures
        final(out)@ == old(out)@ + player_words(p),
{
    if p.alive {
        out.push(p.x as u64);
        out.push(p.z as u64);
        out.push(p.facing as u64);
    }
    assert(final(out)@ =~= old(out)@ + player_words(p));
}

/// The words of a world that the checksum covers, in order.
pub fn checksum_words(w: &World) -> (r: Vec<u64>)
    ensures
        r@ == world_words(w@),
{
    let mut out: Vec<u64> = Vec::new();
    push_player_words(&mut out, w.p0);
    push_player_words(&mut out, w.p1);
    let ghost players = out@;
    let mut i: usize = 0;
    while i < w.bullets.len()
        invariant
            i <= w.bullets@.len(),
            out@ == players + bullets_words(w.bullets@.subrange(0, i as int)),
        decreases w.bullets@.len() - i,
    {
        let b = w.bullets[i];
        out.push(b.x as u64);
        out.push(b.z as u64);
        out.push(b.dir_x as u64);
        out.push(b.dir_z as u64);
        assert(w.bullets@.subrange(0, i + 1).drop_last() =~= w.bullets@.subrange(0, i as int));
        i = i + 1;
        assert(out@ =~= players + bullets_words(w.bullets@.subrange(0, i as int)));
    }
    assert(w.bullets@.subrange(0, w.bullets@.len() as int) =~= w.bullets@);
    assert(out@ =~= world_words(w@));
    out
}

/// FNV-1a over words.
pub fn hash_words_exec(ws: &Vec<u64>) -> (r: u64)
    ensures
        r == hash_words(ws@),
{
    let mut h = HASH_OFFSET;
    let mut i: usize = 0;
    while i < ws.len()
        invariant
            i <= ws@.len(),
            h == hash_words(ws@.subrange(0, i as int)),
        decreases ws@.len() - i,
    {
        h = (h ^ ws[i]).wrapping_mul(HASH_PRIME);
        assert(ws@.subrange(0, i + 1).drop_last() =~= ws@.subrange(0, i as int));
        i = i + 1;
    }
    assert(ws@.subrange(0, ws@.len() as int) =~= ws@);
    h
}

/// Checksum of the state that must agree across peers: the bit patterns of
/// every living player's position and facing and every bullet's position and
/// direction, hashed in a fixed order.
pub fn checksum(w: &World) -> (r: u64)
    ensures
        r == checksum_of(w@),
{
    let words = checksum_words(w);
    hash_words_exec(&words)
}

} // verus!
