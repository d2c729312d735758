//! The decisions of the hook path: the lifecycle of the hook bridge and
//! what the hook does with a key-down once the decision path has answered,
//! or failed to answer in time.
use vstd::prelude::*;
use crate::events::KeyAction;
use crate::error::WHKError;

verus! {

/// The unassigned virtual-key code sent in place of a swallowed key; the
/// hook lets it through untouched.
pub const SILENT_KEY: u16 = 0xE8;

/// Where the hook bridge is in its lifecycle.
#[derive(Debug, Clone, Copy, PartialEq, Eq, Structural)]
pub enum HookPhase {
    Stopped,
    Starting,
    Running,
    Stopping,
}

/// What the hook callback returns to the OS for a key-down.
#[derive(Debug, Clone, Copy, PartialEq, Eq, Structural)]
pub enum HookVerdict {
    /// Hand the event to the next hook.
    PassOn,
    /// Swallow the event.
    Swallow,
    /// Swallow the event and send the silent key.
    SwallowWithSilentKey,
}

/// The action that applies when the answer is `response`.
pub open spec fn effective_action_spec(response: Option<KeyAction>) -> KeyAction {
    match response {
        Some(action) => action,
        None => KeyAction::Allow,
    }
}

/// The action that applies to a key-down: the decision path's answer, or
/// `Allow` when none came within the time bound, so that a slow decision
/// never freezes the keyboard.
pub fn effective_action(response: Option<KeyAction>) -> (r: KeyAction)
    ensures
        r == effective_action_spec(response),
        response is None ==> r == KeyAction::Allow,
{
    match response {
        Some(action) => action,
        None => KeyAction::Allow,
    }
}

/// What the hook returns for a key-down, given the answer, if any, that
/// came within the time bound.
pub fn key_down_verdict(response: Option<KeyAction>) -> (r: HookVerdict)
    ensures
        r == match effective_action_spec(response) {
            KeyAction::Allow => HookVerdict::PassOn,
            KeyAction::Block => HookVerdict::Swallow,
            KeyAction::Replace => HookVerdict::SwallowWithSilentKey,
        },
{
    match effective_action(response) {
        KeyAction::Allow => HookVerdict::PassOn,
        KeyAction::Block => HookVerdict::Swallow,
        KeyAction::Replace => HookVerdict::SwallowWithSilentKey,
    }
}

/// Whether the hook passes a key event on without looking at it: the silent
/// key that the hook itself sends.
pub fn is_silent_key(vk_code: u16) -> (r: bool)
    ensures
        r == (vk_code == SILENT_KEY),
{
    vk_code == SILENT_KEY
}

/// The lifecycle of the hook bridge:
/// `Stopped -> Starting -> Running -> Stopping -> Stopped`.
pub struct HookBridge {
    phase: HookPhase,
}

impl View for HookBridge {
    type V = HookPhase;

    closed spec fn view(&self) -> HookPhase {
        self.phase
    }
}

impl HookBridge {
    pub fn new() -> (r: HookBridge)
        ensures
            r@ == HookPhase::Stopped,
    {
        HookBridge { phase: HookPhase::Stopped }
    }

    pub fn phase(&self) -> (r: HookPhase)
        ensures
            r == self@,
    {
        self.phase
    }

    /// Begins a start: only a stopped bridge may start.
    pub fn start(&mut self) -> (r: Result<(), WHKError>)
        ensures
            old(self)@ == HookPhase::Stopped ==> r is Ok && final(self)@ == HookPhase::Starting,
            old(self)@ != HookPhase::Stopped ==> r == Err::<(), WHKError>(WHKError::AlreadyStarted)
                && final(self)@ == old(self)@,
    {
        if self.phase == HookPhase::Stopped {
            self.phase = HookPhase::Starting;
            Ok(())
        } else {
            Err(WHKError::AlreadyStarted)
        }
    }

    /// Records whether installing the hook succeeded.
    pub fn install_finished(&mut self, installed: bool) -> (r: Result<(), WHKError>)
        requires
            old(self)@ == HookPhase::Starting,
        ensures
            installed ==> r is Ok && final(self)@ == HookPhase::Running,
            !installed ==> r == Err::<(), WHKError>(WHKError::StartupFailed) && final(self)@
                == HookPhase::Stopped,
    {
        if installed {
            self.phase = HookPhase::Running;
            Ok(())
        } else {
            self.phase = HookPhase::Stopped;
            Err(WHKError::StartupFailed)
        }
    }

    /// Begins a stop; returns whether the stop signal must be sent to the
    /// hook thread and the decision loop (only a running bridge stops).
    pub fn stop(&mut self) -> (r: bool)
        ensures
            r == (old(self)@ == HookPhase::Running),
            r ==> final(self)@ == HookPhase::Stopping,
            !r ==> final(self)@ == old(self)@,
    {
        if self.phase == HookPhase::Running {
            self.phase = HookPhase::Stopping;
            true
        } else {
            false
        }
    }

    /// Records that the hook was uninstalled and the threads ended.
    pub fn stopped(&mut self)
        ensures
            final(self)@ == HookPhase::Stopped,
    {
        self.phase = HookPhase::Stopped;
    }
}

} // verus!
