//! The errors of the library.
use vstd::prelude::*;
use crate::vkey::VKey;

verus! {

#[derive(Debug, Clone, PartialEq, Eq)]
pub enum WHKError {
    /// The hook is already running.
    AlreadyStarted,
    /// Installing the hook failed.
    StartupFailed,
    /// A hotkey with the same keys is registered.
    HotKeyAlreadyRegistered,
    /// The trigger key is the "no mapping" code.
    HotkeyInvalidTriggerKey(VKey),
    /// A key name that names no key.
    InvalidKey(String),
    /// A name that names no modifier key.
    InvalidModKey(String),
    /// A key code that is not a modifier key.
    VKNotAModKey(u16),
    /// A channel could not send.
    SendFailed,
    /// A channel could not receive.
    RecvFailed,
    /// A lock was poisoned.
    LockError,
}

} // verus!
