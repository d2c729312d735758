use win_hotkeys::error::WHKError;
use win_hotkeys::events::{EventLoopEvent, KeyAction, KeyboardInputEvent};
use win_hotkeys::hook::{effective_action, is_silent_key, key_down_verdict, HookBridge, HookPhase, HookVerdict};
use win_hotkeys::hotkey::{Hotkey, TriggerBehavior};
use win_hotkeys::manager::{needs_silent_key, HotkeyManager, HotkeysPauseHandler};
use win_hotkeys::state::KeyboardState;
use win_hotkeys::vkey::{
    VKey, VK_A, VK_CONTROL, VK_DELETE, VK_ESCAPE, VK_L, VK_LCONTROL, VK_LSHIFT, VK_LWIN, VK_MENU,
    VK_NONE, VK_RCONTROL,
};

fn key(code: u16) -> VKey {
    VKey::from_vk_code(code)
}

fn manager() -> HotkeyManager<u32, u32> {
    HotkeyManager::new(0)
}

fn state_of(codes: &[u16]) -> KeyboardState {
    let mut state = KeyboardState::new();
    for c in codes {
        state.keydown(key(*c));
    }
    state
}

fn key_down(vk_code: u16, codes: &[u16]) -> KeyboardInputEvent {
    KeyboardInputEvent::KeyDown { vk_code, state: state_of(codes) }
}

#[test]
fn control_a_fires_and_blocks() {
    let mut m = manager();
    let id = m
        .register_hotkey(Hotkey::new(key(VK_A), &[key(VK_CONTROL)], 7))
        .unwrap();
    let d = m.process_keyboard_event(&key_down(VK_A, &[VK_LCONTROL, VK_A]));
    assert_eq!(d.action, KeyAction::Block);
    assert_eq!(d.callback, Some(7));
    assert_eq!(d.matched, Some(id));
}

#[test]
fn extra_modifier_prevents_match() {
    let mut m = manager();
    m.register_hotkey(Hotkey::new(key(VK_A), &[key(VK_CONTROL)], 7))
        .unwrap();
    let d = m.process_keyboard_event(&key_down(VK_A, &[VK_LCONTROL, VK_LSHIFT, VK_A]));
    assert_eq!(d.action, KeyAction::Allow);
    assert_eq!(d.callback, None);
    assert_eq!(d.matched, None);
}

#[test]
fn lone_windows_key_is_a_trigger() {
    let mut m = manager();
    m.register_hotkey(Hotkey::new(key(VK_LWIN), &[], 3)).unwrap();
    let d = m.process_keyboard_event(&key_down(VK_LWIN, &[VK_LWIN]));
    assert_eq!(d.action, KeyAction::Block);
    assert_eq!(d.callback, Some(3));
}

#[test]
fn windows_chord_is_replaced() {
    let mut m = manager();
    m.register_hotkey(Hotkey::new(key(VK_A), &[key(VK_LWIN)], 4)).unwrap();
    let d = m.process_keyboard_event(&key_down(VK_A, &[VK_LWIN, VK_A]));
    assert_eq!(d.action, KeyAction::Replace);
    assert_eq!(d.callback, Some(4));
}

#[test]
fn pass_through_hotkey_allows() {
    let mut m = manager();
    let h = Hotkey::new(key(VK_A), &[key(VK_CONTROL)], 5).behavior(TriggerBehavior::PassThrough);
    m.register_hotkey(h).unwrap();
    let d = m.process_keyboard_event(&key_down(VK_A, &[VK_RCONTROL, VK_A]));
    assert_eq!(d.action, KeyAction::Allow);
    assert_eq!(d.callback, Some(5));
}

#[test]
fn duplicate_registration_conflicts() {
    let mut m = manager();
    assert!(m
        .register_hotkey(Hotkey::new(key(VK_CONTROL), &[key(VK_MENU)], 1))
        .is_ok());
    assert_eq!(
        m.register_hotkey(Hotkey::new(key(VK_CONTROL), &[key(VK_MENU)], 2)),
        Err(WHKError::HotKeyAlreadyRegistered)
    );
    assert_eq!(
        m.register_hotkey(Hotkey::new(key(VK_MENU), &[key(VK_CONTROL)], 3)),
        Err(WHKError::HotKeyAlreadyRegistered)
    );
    assert_eq!(m.hotkey_count(), 3);
}

#[test]
fn invalid_trigger_is_rejected() {
    let mut m = manager();
    assert_eq!(
        m.register_hotkey(Hotkey::new(key(VK_NONE), &[key(VK_CONTROL)], 1)),
        Err(WHKError::HotkeyInvalidTriggerKey(key(VK_NONE)))
    );
    assert_eq!(m.hotkey_count(), 2);
}

#[test]
fn unregistered_hotkey_no_longer_fires() {
    let mut m = manager();
    let id = m
        .register_hotkey(Hotkey::new(key(VK_A), &[key(VK_CONTROL)], 7))
        .unwrap();
    let event = key_down(VK_A, &[VK_LCONTROL, VK_A]);
    assert_eq!(m.process_keyboard_event(&event).callback, Some(7));
    m.unregister_hotkey(id);
    let d = m.process_keyboard_event(&event);
    assert_eq!(d.action, KeyAction::Allow);
    assert_eq!(d.callback, None);
    assert_eq!(d.matched, None);
    m.unregister_hotkey(id);
    assert_eq!(m.hotkey_count(), 2);
}

#[test]
fn paused_manager_only_fires_bypassing_hotkeys() {
    let mut m = manager();
    m.register_hotkey(Hotkey::new(key(VK_A), &[key(VK_CONTROL)], 7)).unwrap();
    m.register_hotkey(Hotkey::new(key(0x42), &[key(VK_CONTROL)], 8).bypass_pause())
        .unwrap();
    m.pause_handler().set(true);
    let d = m.process_keyboard_event(&key_down(VK_A, &[VK_LCONTROL, VK_A]));
    assert_eq!(d.action, KeyAction::Allow);
    assert_eq!(d.callback, None);
    let d = m.process_keyboard_event(&key_down(0x42, &[VK_LCONTROL, 0x42]));
    assert_eq!(d.action, KeyAction::Block);
    assert_eq!(d.callback, Some(8));
    m.pause_handler().toggle();
    assert!(!m.pause_handler().is_paused());
    let d = m.process_keyboard_event(&key_down(VK_A, &[VK_LCONTROL, VK_A]));
    assert_eq!(d.callback, Some(7));
}

#[test]
fn pause_handler_switches() {
    let mut p = HotkeysPauseHandler::new(false);
    assert!(!p.is_paused());
    p.toggle();
    assert!(p.is_paused());
    p.set(false);
    assert!(!p.is_paused());
}

#[test]
fn unregister_all_restores_system_shortcuts() {
    let mut m = manager();
    m.register_hotkey(Hotkey::new(key(VK_A), &[key(VK_CONTROL)], 7)).unwrap();
    m.register_hotkey(Hotkey::new(key(0x42), &[], 8)).unwrap();
    assert_eq!(m.hotkey_count(), 4);
    m.unregister_all();
    assert_eq!(m.hotkey_count(), 2);
    let d = m.process_keyboard_event(&key_down(VK_A, &[VK_LCONTROL, VK_A]));
    assert_eq!(d.callback, None);
    let d = m.process_keyboard_event(&key_down(VK_L, &[VK_LWIN, VK_L]));
    assert_eq!(d.action, KeyAction::Allow);
    assert_eq!(d.callback, Some(0));
    assert!(d.matched.is_some());
    let d = m.process_keyboard_event(&key_down(VK_DELETE, &[VK_LCONTROL, 0xA4, VK_DELETE]));
    assert_eq!(d.callback, Some(0));
}

#[test]
fn system_shortcut_fires_while_paused() {
    let mut m = manager();
    m.pause_handler().set(true);
    let d = m.process_keyboard_event(&key_down(VK_L, &[VK_LWIN, VK_L]));
    assert_eq!(d.action, KeyAction::Allow);
    assert_eq!(d.callback, Some(0));
}

#[test]
fn key_up_is_always_allowed() {
    let mut m = manager();
    m.register_hotkey(Hotkey::new(key(VK_A), &[], 7)).unwrap();
    let d = m.process_keyboard_event(&KeyboardInputEvent::KeyUp {
        vk_code: VK_A,
        state: state_of(&[]),
    });
    assert_eq!(d.action, KeyAction::Allow);
    assert_eq!(d.callback, None);
}

#[test]
fn stealing_blocks_until_escape() {
    let mut m = manager();
    m.register_hotkey(Hotkey::new(key(VK_A), &[], 7)).unwrap();
    m.steal_keyboard(9);
    assert!(m.is_stealing_mode());
    let d = m.process_keyboard_event(&key_down(VK_A, &[VK_A]));
    assert_eq!(d.action, KeyAction::Block);
    assert_eq!(d.callback, None);
    let d = m.process_keyboard_event(&key_down(VK_A, &[VK_LWIN, VK_A]));
    assert_eq!(d.action, KeyAction::Replace);
    let d = m.process_keyboard_event(&key_down(VK_ESCAPE, &[VK_ESCAPE]));
    assert_eq!(d.action, KeyAction::Block);
    assert_eq!(d.callback, Some(9));
    assert!(!m.is_stealing_mode());
    let d = m.process_keyboard_event(&key_down(VK_A, &[VK_A]));
    assert_eq!(d.callback, Some(7));
}

#[test]
fn free_keyboard_hands_back_callback_once() {
    let mut m = manager();
    m.steal_keyboard(9);
    assert_eq!(m.free_keyboard(), Some(9));
    assert_eq!(m.free_keyboard(), None);
    assert!(!m.is_stealing_mode());
}

#[test]
fn global_listener_gets_every_event() {
    let mut m = manager();
    let d = m.process_keyboard_event(&key_down(VK_A, &[VK_A]));
    assert_eq!(d.listener, None);
    m.set_global_keyboard_listener(11);
    let d = m.process_keyboard_event(&key_down(VK_A, &[VK_A]));
    assert_eq!(d.listener, Some(11));
    m.remove_global_keyboard_listener();
    let d = m.process_keyboard_event(&key_down(VK_A, &[VK_A]));
    assert_eq!(d.listener, None);
}

#[test]
fn loop_event_stop_ends_the_loop() {
    let mut m = manager();
    assert!(m.handle_loop_event(&EventLoopEvent::Stop).is_none());
    let d = m
        .handle_loop_event(&EventLoopEvent::Keyboard(key_down(VK_A, &[VK_A])))
        .unwrap();
    assert_eq!(d.action, KeyAction::Allow);
}

#[test]
fn at_most_one_of_disjoint_hotkeys_matches() {
    let a = Hotkey::new(key(VK_A), &[key(VK_CONTROL)], 1);
    let b = Hotkey::new(key(0x42), &[key(0x43)], 2);
    let s = state_of(&[VK_LCONTROL, 0x43, VK_A]);
    assert!(a.is_trigger_state(&s));
    assert!(!b.is_trigger_state(&s));
    let s = state_of(&[0x43, VK_A, 0x42]);
    assert!(!a.is_trigger_state(&s));
    assert!(b.is_trigger_state(&s));
}

#[test]
fn expected_state_lists_trigger_then_modifiers() {
    let h = Hotkey::new(key(VK_A), &[key(VK_MENU), key(VK_CONTROL), key(VK_MENU)], 1);
    assert_eq!(h.modifiers, vec![key(VK_CONTROL), key(VK_MENU)]);
    let s = h.generate_expected_keyboard_state();
    assert_eq!(s.pressing, vec![key(VK_A), key(VK_CONTROL), key(VK_MENU)]);
    assert!(!h.bypass_pause);
    assert_eq!(h.behaviour, TriggerBehavior::StopPropagation);
}

#[test]
fn identity_hash_ignores_which_key_triggers() {
    let a = Hotkey::new(key(VK_CONTROL), &[key(VK_MENU)], 1);
    let b = Hotkey::new(key(VK_MENU), &[key(VK_CONTROL)], 2);
    let c = Hotkey::new(key(VK_A), &[key(VK_CONTROL)], 3);
    let d = Hotkey::new(key(0x42), &[key(VK_CONTROL)], 4);
    assert_eq!(a.as_hash(), b.as_hash());
    assert!(a.same_combination(&b));
    assert!(!c.same_combination(&d));
    assert_ne!(c.as_hash(), d.as_hash());
    assert_ne!(a.as_hash(), c.as_hash());
}

#[test]
fn timeout_fails_open() {
    assert_eq!(effective_action(None), KeyAction::Allow);
    assert_eq!(effective_action(Some(KeyAction::Block)), KeyAction::Block);
    assert_eq!(key_down_verdict(None), HookVerdict::PassOn);
    assert_eq!(key_down_verdict(Some(KeyAction::Block)), HookVerdict::Swallow);
    assert_eq!(
        key_down_verdict(Some(KeyAction::Replace)),
        HookVerdict::SwallowWithSilentKey
    );
    assert!(is_silent_key(0xE8));
    assert!(!is_silent_key(VK_A));
}

#[test]
fn silent_key_needed_only_with_windows_held() {
    assert!(needs_silent_key(VK_A, &state_of(&[VK_LWIN, VK_A])));
    assert!(!needs_silent_key(VK_LWIN, &state_of(&[VK_LWIN])));
    assert!(!needs_silent_key(VK_A, &state_of(&[VK_A])));
}

#[test]
fn hook_bridge_lifecycle() {
    let mut b = HookBridge::new();
    assert_eq!(b.phase(), HookPhase::Stopped);
    assert!(!b.stop());
    assert_eq!(b.start(), Ok(()));
    assert_eq!(b.start(), Err(WHKError::AlreadyStarted));
    assert_eq!(b.install_finished(false), Err(WHKError::StartupFailed));
    assert_eq!(b.phase(), HookPhase::Stopped);
    assert_eq!(b.start(), Ok(()));
    assert_eq!(b.install_finished(true), Ok(()));
    assert_eq!(b.phase(), HookPhase::Running);
    assert_eq!(b.start(), Err(WHKError::AlreadyStarted));
    assert!(b.stop());
    assert_eq!(b.phase(), HookPhase::Stopping);
    b.stopped();
    assert_eq!(b.phase(), HookPhase::Stopped);
}

#[test]
fn windows_chord_while_stealing_is_replaced() {
    let mut m = manager();
    m.steal_keyboard(9);
    let d = m.process_keyboard_event(&key_down(VK_LWIN, &[VK_LCONTROL, VK_LWIN]));
    assert_eq!(d.action, KeyAction::Replace);
    let d = m.process_keyboard_event(&key_down(VK_LWIN, &[VK_LWIN]));
    assert_eq!(d.action, KeyAction::Block);
}

#[test]
fn windows_trigger_with_control_is_replaced() {
    let mut m = manager();
    m.register_hotkey(Hotkey::new(key(VK_LWIN), &[key(VK_CONTROL)], 6)).unwrap();
    let d = m.process_keyboard_event(&key_down(VK_LWIN, &[VK_LCONTROL, VK_LWIN]));
    assert_eq!(d.action, KeyAction::Replace);
    assert_eq!(d.callback, Some(6));
    assert!(needs_silent_key(VK_LWIN, &state_of(&[VK_LCONTROL, VK_LWIN])));
}

#[test]
fn system_shortcuts_cannot_be_unregistered() {
    let mut m = manager();
    let lock = Hotkey::new(key(VK_L), &[key(VK_LWIN)], 0u32);
    m.unregister_hotkey(lock.as_hash());
    assert_eq!(m.hotkey_count(), 2);
    let d = m.process_keyboard_event(&key_down(VK_L, &[VK_LWIN, VK_L]));
    assert_eq!(d.callback, Some(0));
}

#[test]
fn registering_a_system_combination_overwrites_it() {
    let mut m = manager();
    let h = Hotkey::new(key(VK_LWIN), &[key(VK_L)], 5);
    let id = h.as_hash();
    assert_eq!(m.register_hotkey(h), Ok(id));
    assert_eq!(m.hotkey_count(), 2);
    let d = m.process_keyboard_event(&key_down(VK_LWIN, &[VK_L, VK_LWIN]));
    assert_eq!(d.callback, Some(5));
    assert_eq!(d.matched, Some(id));
    m.unregister_hotkey(id);
    assert_eq!(m.hotkey_count(), 2);
    m.unregister_all();
    let d = m.process_keyboard_event(&key_down(VK_L, &[VK_LWIN, VK_L]));
    assert_eq!(d.callback, Some(0));
}
