use vstd::prelude::*;

verus! {

/// A seat of the match as the transport lists it: this peer, or a remote
/// peer known by the two halves of its connection id.
#[derive(Clone, Copy, Debug, PartialEq, Eq, Structural)]
pub enum Seat {
    Local,
    Remote(u64, u64),
}

/// The ids folded in order into `init` by exclusive or, both halves of each.
pub open spec fn xor_ids(init: u64, ids: Seq<(u64, u64)>) -> u64
    decreases ids.len(),
{
    if ids.len() == 0 {
        init
    } else {
        xor_ids(init, ids.drop_last()) ^ ids.last().0 ^ ids.last().1
    }
}

/// The match seed that every peer derives alike: the exclusive or of the
/// halves of this peer's id and of every connected peer's id.
pub fn derive_session_seed(own: (u64, u64), peers: &Vec<(u64, u64)>) -> (r: u64)
    ensures
        r == xor_ids(own.0 ^ own.1, peers@),
{
    let mut seed = own.0 ^ own.1;
    let mut i: usize = 0;
    while i < peers.len()
        invariant
            i <= peers@.len(),
            seed == xor_ids(own.0 ^ own.1, peers@.subrange(0, i as int)),
        decreases peers@.len() - i,
    {
        let p = peers[i];
        seed = seed ^ p.0 ^ p.1;
        assert(peers@.subrange(0, i + 1).drop_last() =~= peers@.subrange(0, i as int));
        i = i + 1;
    }
    assert(peers@.subrange(0, peers@.len() as int) =~= peers@);
    seed
}

/// Whether a seat is this peer's: listed as local, or under this peer's id.
pub open spec fn is_own(s: Seat, own: (u64, u64)) -> bool {
    match s {
        Seat::Local => true,
        Seat::Remote(a, b) => a == own.0 && b == own.1,
    }
}

/// This peer's player handle: the index of the first seat that is its own.
pub fn local_handle(seats: &Vec<Seat>, own: (u64, u64)) -> (r: Option<usize>)
    ensures
        r is Some ==> r->0 < seats@.len() && is_own(seats@[r->0 as int], own),
        r is Some ==> forall|j: int| 0 <= j < r->0 ==> !is_own(#[trigger] seats@[j], own),
        r is None ==> forall|j: int| 0 <= j < seats@.len() ==> !is_own(#[trigger] seats@[j], own),
{
    let mut i: usize = 0;
    while i < seats.len()
        invariant
            i <= seats@.len(),
            forall|j: int| 0 <= j < i ==> !is_own(#[trigger] seats@[j], own),
        decreases seats@.len() - i,
    {
        let mine = match seats[i] {
            Seat::Local => true,
            Seat::Remote(a, b) => a == own.0 && b == own.1,
        };
        if mine {
            return Some(i);
        }
        i = i + 1;
    }
    None
}

/// Wallet addresses and display names of both players of a match.
#[derive(Debug)]
pub struct PlayerAddressMapping {
    pub local_player_handle: Option<usize>,
    pub player0_address: Option<String>,
    pub player1_address: Option<String>,
    pub player0_display_name: Option<String>,
    pub player1_display_name: Option<String>,
}

/// The entry for a handle, 0 or 1; any other handle has none.
pub open spec fn by_handle(handle: usize, first: Option<String>, second: Option<String>) -> Option<String> {
    if handle == 0 { first } else if handle == 1 { second } else { None }
}

pub open spec fn opponent_of(handle: usize) -> usize {
    if handle == 0 { 1 } else { 0 }
}

/// `r` refers to the value that `o` holds, if any.
pub open spec fn refers_to(r: Option<&String>, o: Option<String>) -> bool {
    &&& (r is Some <==> o is Some)
    &&& (r is Some ==> *r->0 == o->0)
}

fn pick<'a>(handle: usize, first: &'a Option<String>, second: &'a Option<String>) -> (r: Option<&'a String>)
    ensures
        refers_to(r, by_handle(handle, *first, *second)),
{
    let chosen = if handle == 0 {
        first
    } else if handle == 1 {
        second
    } else {
        return None;
    };
    match chosen {
        Some(s) => Some(s),
        None => None,
    }
}

impl PlayerAddressMapping {
    /// A mapping that knows nothing yet.
    pub fn new() -> (r: PlayerAddressMapping)
        ensures
            r.local_player_handle is None,
            r.player0_address is None,
            r.player1_address is None,
            r.player0_display_name is None,
            r.player1_display_name is None,
    {
        PlayerAddressMapping {
            local_player_handle: None,
            player0_address: None,
            player1_address: None,
            player0_display_name: None,
            player1_display_name: None,
        }
    }

    pub fn get_address_by_handle(&self, handle: usize) -> (r: Option<&String>)
        ensures
            refers_to(r, by_handle(handle, self.player0_address, self.player1_address)),
    {
        pick(handle, &self.player0_address, &self.player1_address)
    }

    pub fn get_display_name_by_handle(&self, handle: usize) -> (r: Option<&String>)
        ensures
            refers_to(r, by_handle(handle, self.player0_display_name, self.player1_display_name)),
    {
        pick(handle, &self.player0_display_name, &self.player1_display_name)
    }

    pub fn get_local_address(&self) -> (r: Option<&String>)
        ensures
            refers_to(r, match self.local_player_handle {
                Some(h) => by_handle(h, self.player0_address, self.player1_address),
                None => None,
            }),
    {
        match self.local_player_handle {
            Some(h) => self.get_address_by_handle(h),
            None => None,
        }
    }

    pub fn get_local_display_name(&self) -> (r: Option<&String>)
        ensures
            refers_to(r, match self.local_player_handle {
                Some(h) => by_handle(h, self.player0_display_name, self.player1_display_name),
                None => None,
            }),
    {
        match self.local_player_handle {
            Some(h) => self.get_display_name_by_handle(h),
            None => None,
        }
    }

    pub fn get_opponent_address(&self) -> (r: Option<&String>)
        ensures
            refers_to(r, match self.local_player_handle {
                Some(h) => by_handle(opponent_of(h), self.player0_address, self.player1_address),
                None => None,
            }),
    {
        match self.local_player_handle {
            Some(h) => self.get_address_by_handle(if h == 0 { 1 } else { 0 }),
            None => None,
        }
    }

    pub fn get_opponent_display_name(&self) -> (r: Option<&String>)
        ensures
            refers_to(r, match self.local_player_handle {
                Some(h) => by_handle(opponent_of(h), self.player0_display_name, self.player1_display_name),
                None => None,
            }),
    {
        match self.local_player_handle {
            Some(h) => self.get_display_name_by_handle(if h == 0 { 1 } else { 0 }),
            None => None,
        }
    }
}

} // verus!
