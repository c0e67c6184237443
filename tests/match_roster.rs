use rollback_arena::input::{encode_keys, KeyState, INPUT_DOWN, INPUT_FIRE, INPUT_LEFT, INPUT_SPRINT, INPUT_UP};
use rollback_arena::roster::{derive_session_seed, local_handle, PlayerAddressMapping, Seat};

fn no_keys() -> KeyState {
    KeyState { up: false, down: false, left: false, right: false, fire: false, dodge: false, block: false, sprint: false }
}

#[test]
fn keys_encode_to_flags() {
    let k = KeyState { up: true, left: true, fire: true, sprint: true, ..no_keys() };
    assert_eq!(encode_keys(k, false), INPUT_UP | INPUT_LEFT | INPUT_FIRE | INPUT_SPRINT);
    assert_eq!(encode_keys(KeyState { down: true, ..no_keys() }, false), INPUT_DOWN);
    assert_eq!(encode_keys(no_keys(), false), 0);
    let all = KeyState { up: true, down: true, left: true, right: true, fire: true, dodge: true, block: true, sprint: true };
    assert_eq!(encode_keys(all, false), 0xff);
}

#[test]
fn focused_chat_swallows_keys() {
    let k = KeyState { up: true, fire: true, ..no_keys() };
    assert_eq!(encode_keys(k, true), 0);
}

#[test]
fn session_seed_xors_all_ids() {
    let seed = derive_session_seed((0xf0, 0x0f), &vec![(1, 2), (4, 8)]);
    assert_eq!(seed, 0xff ^ 1 ^ 2 ^ 4 ^ 8);
    assert_eq!(derive_session_seed((5, 5), &Vec::new()), 0);
    let a = derive_session_seed((10, 20), &vec![(30, 40)]);
    let b = derive_session_seed((30, 40), &vec![(10, 20)]);
    assert_eq!(a, b);
}

#[test]
fn local_handle_finds_own_seat() {
    let own = (7, 9);
    assert_eq!(local_handle(&vec![Seat::Remote(1, 2), Seat::Local], own), Some(1));
    assert_eq!(local_handle(&vec![Seat::Remote(7, 9), Seat::Remote(1, 2)], own), Some(0));
    assert_eq!(local_handle(&vec![Seat::Remote(1, 2), Seat::Remote(7, 8)], own), None);
}

#[test]
fn address_mapping_lookups() {
    let mut m = PlayerAddressMapping::new();
    assert_eq!(m.get_local_address(), None);
    m.local_player_handle = Some(1);
    m.player0_address = Some("kaspa:abc".to_string());
    m.player1_address = Some("guest_12".to_string());
    m.player0_display_name = Some("Ann".to_string());
    assert_eq!(m.get_address_by_handle(0).map(|s| s.as_str()), Some("kaspa:abc"));
    assert_eq!(m.get_address_by_handle(2), None);
    assert_eq!(m.get_local_address().map(|s| s.as_str()), Some("guest_12"));
    assert_eq!(m.get_opponent_address().map(|s| s.as_str()), Some("kaspa:abc"));
    assert_eq!(m.get_opponent_display_name().map(|s| s.as_str()), Some("Ann"));
    assert_eq!(m.get_local_display_name(), None);
    assert_eq!(m.get_display_name_by_handle(0).map(|s| s.as_str()), Some("Ann"));
}
