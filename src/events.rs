//! The messages that travel between the hook path and the decision path.
use vstd::prelude::*;
use crate::state::KeyboardState;

verus! {

/// What the decision loop receives: a key event, or the signal to stop.
#[derive(Debug, Clone, PartialEq, Eq)]
pub enum EventLoopEvent {
    Stop,
    Keyboard(KeyboardInputEvent),
}

/// A key event together with the keyboard state that it produced.
#[derive(Debug, Clone, PartialEq, Eq)]
pub enum KeyboardInputEvent {
    KeyDown {
        /// The virtual-key code of the key.
        vk_code: u16,
        /// The keyboard state after the event.
        state: KeyboardState,
    },
    KeyUp {
        /// The virtual-key code of the key.
        vk_code: u16,
        /// The keyboard state after the event.
        state: KeyboardState,
    },
}

/// What the hook does with the key event.
#[derive(Debug, Clone, Copy, PartialEq, Eq, Structural)]
pub enum KeyAction {
    /// The event continues to the rest of the system.
    Allow,
    /// The event is swallowed.
    Block,
    /// The event is swallowed and a silent key is sent in its place.
    Replace,
}

} // verus!
