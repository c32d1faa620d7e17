use opendut_cluster::controls::{delete_peer_button_state, save_peer_button_state, ButtonState};

#[test]
fn save_button_is_loading_while_saving() {
    assert_eq!(save_peer_button_state(true, true), ButtonState::Loading);
    assert_eq!(save_peer_button_state(true, false), ButtonState::Loading);
}

#[test]
fn save_button_follows_validity_when_idle() {
    assert_eq!(save_peer_button_state(false, true), ButtonState::Enabled);
    assert_eq!(save_peer_button_state(false, false), ButtonState::Disabled);
}

#[test]
fn delete_button_is_loading_while_deleting() {
    assert_eq!(delete_peer_button_state(true), ButtonState::Loading);
    assert_eq!(delete_peer_button_state(false), ButtonState::Enabled);
}
