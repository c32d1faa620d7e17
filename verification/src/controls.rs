use vstd::prelude::*;

verus! {

/// How a button is shown.
#[derive(Clone, Copy, Debug, PartialEq, Eq, Structural)]
pub enum ButtonState {
    Enabled,
    Disabled,
    Loading,
}

/// The state of the button that saves a peer: loading while saving is under
/// way, otherwise enabled exactly when the peer's configuration is valid.
pub fn save_peer_button_state(pending: bool, is_valid_peer_configuration: bool) -> (state: ButtonState)
    ensures
        state == if pending {
            ButtonState::Loading
        } else if is_valid_peer_configuration {
            ButtonState::Enabled
        } else {
            ButtonState::Disabled
        },
{
    if pending {
        ButtonState::Loading
    } else {
        if is_valid_peer_configuration {
            ButtonState::Enabled
        } else {
            ButtonState::Disabled
        }
    }
}

/// The state of the button that deletes a peer: loading while deleting is under
/// way, otherwise enabled.
pub fn delete_peer_button_state(pending: bool) -> (state: ButtonState)
    ensures
        state == if pending {
            ButtonState::Loading
        } else {
            ButtonState::Enabled
        },
{
    if pending {
        ButtonState::Loading
    } else {
        ButtonState::Enabled
    }
}

} // verus!
