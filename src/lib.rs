//! Global keyboard shortcuts: keyboard-state tracking, hotkey matching, a
//! registry of hotkeys, and the decision taken for each key event.
//!
//! The library decides; the caller owns the threads, the channels and the
//! platform hook, and hands each key event to `HotkeyManager`.
pub mod error;
pub mod events;
pub mod hook;
pub mod hotkey;
pub mod keyboard;
pub mod manager;
pub mod modkey;
pub mod state;
pub mod vkey;

pub use hotkey::{Hotkey, TriggerBehavior};
pub use manager::{HotkeyManager, HotkeysPauseHandler};
pub use modkey::ModKey;
pub use vkey::VKey;
