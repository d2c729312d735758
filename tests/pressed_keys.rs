use win_hotkeys::state::KeyboardState;
use win_hotkeys::vkey::{VKey, VK_LSHIFT, VK_RSHIFT, VK_LWIN};

fn key(code: u16) -> VKey {
    VKey::from_vk_code(code)
}

#[test]
fn state_test_keydown() {
    let mut keyboard = KeyboardState::new();
    keyboard.keydown(key(65));
    assert_eq!(keyboard.pressing[0], VKey::from_vk_code(65), "Key 65 should be set");

    keyboard.keydown(key(129));
    assert_eq!(keyboard.pressing[1], VKey::from_vk_code(129), "Key 129 should be set");
}

#[test]
fn state_test_keyup() {
    let mut keyboard = KeyboardState::new();
    keyboard.keydown(key(65));
    keyboard.keyup(key(65));
    assert_eq!(keyboard.pressing.first(), None, "Key 65 should be cleared");

    keyboard.keydown(key(129));
    keyboard.keyup(key(129));
    assert_eq!(keyboard.pressing.get(1), None, "Key 129 should be cleared");
}

#[test]
fn state_test_clear() {
    let mut keyboard = KeyboardState::new();
    keyboard.keydown(key(65));
    keyboard.keydown(key(129));
    keyboard.clear();
    assert_eq!(
        keyboard.pressing,
        Vec::new(),
        "KeyboardState should be cleared after clear()"
    );
}

#[test]
fn state_test_clone() {
    let mut keyboard = KeyboardState::new();
    keyboard.keydown(key(65));
    let cloned_keyboard = keyboard.clone();
    assert_eq!(
        keyboard, cloned_keyboard,
        "Cloned KeyboardState should be equal to the original"
    );

    keyboard.keydown(key(129));
    assert_ne!(
        keyboard, cloned_keyboard,
        "Cloned KeyboardState should not reflect changes to the original"
    );
}

#[test]
fn state_test_equality() {
    let mut keyboard1 = KeyboardState::new();
    let mut keyboard2 = KeyboardState::new();

    assert_eq!(
        keyboard1, keyboard2,
        "Two empty KeyboardState instances should be equal"
    );

    keyboard1.keydown(key(65));
    assert_ne!(
        keyboard1, keyboard2,
        "KeyboardState instances with different flags should not be equal"
    );

    keyboard2.keydown(key(65));
    assert_eq!(
        keyboard1, keyboard2,
        "KeyboardState instances with the same flags should be equal"
    );
}

#[test]
fn state_test_multiple_keys() {
    let mut keyboard = KeyboardState::new();

    keyboard.keydown(key(65));
    keyboard.keydown(key(70));
    keyboard.keydown(key(129));

    assert!(keyboard.is_down(key(65)), "Key 65 should be set");
    assert!(keyboard.is_down(key(70)), "Key 70 should be set");
    assert!(keyboard.is_down(key(129)), "Key 129 should be set");

    keyboard.keyup(key(65));
    keyboard.keyup(key(70));

    assert!(!keyboard.is_down(key(65)), "Key 65 should be cleared");
    assert!(!keyboard.is_down(key(70)), "Key 70 should be cleared");
    assert_eq!(keyboard.pressing[0], VKey::from_vk_code(129), "Key 129 should remain set");
}

#[test]
fn state_repeated_press_moves_key_to_end() {
    let mut keyboard = KeyboardState::new();
    keyboard.keydown(key(65));
    keyboard.keydown(key(70));
    keyboard.keydown(key(65));
    assert_eq!(keyboard.pressing, vec![key(70), key(65)]);
}

#[test]
fn state_shift_normalization() {
    let mut keyboard = KeyboardState::new();
    keyboard.keydown(key(VK_LSHIFT));
    assert!(keyboard.is_shift_pressed());
    keyboard.keydown(key(VK_RSHIFT));
    keyboard.keyup(key(VK_LSHIFT));
    assert!(keyboard.is_shift_pressed());
    keyboard.keyup(key(VK_RSHIFT));
    assert!(!keyboard.is_shift_pressed());
}

#[test]
fn state_group_queries() {
    let mut keyboard = KeyboardState::new();
    assert!(!keyboard.is_win_pressed());
    keyboard.keydown(key(VK_LWIN));
    assert!(keyboard.is_win_pressed());
    assert!(!keyboard.is_control_pressed());
    assert!(!keyboard.is_menu_pressed());
    assert!(keyboard.are_down(&[key(VK_LWIN)]));
    assert!(!keyboard.are_down(&[key(VK_LWIN), key(65)]));
    assert!(keyboard.some_is_down(&[key(65), key(VK_LWIN)]));
    assert!(!keyboard.some_is_down(&[key(65)]));
}

#[test]
fn state_sync_removes_keys_the_os_reports_up() {
    let mut keyboard = KeyboardState::new();
    keyboard.keydown(key(65));
    keyboard.keydown(key(70));
    keyboard.keydown(key(300));
    keyboard.request_syncronization();
    assert!(keyboard.needs_sync());
    keyboard.keydown_synced(key(66), &[key(70)]);
    assert_eq!(keyboard.pressing, vec![key(70), key(300), key(66)]);
    for _ in 0..9 {
        keyboard.sync(&[key(70), key(66)]);
    }
    assert!(!keyboard.needs_sync());
    keyboard.keydown_synced(key(67), &[]);
    assert_eq!(keyboard.pressing, vec![key(70), key(300), key(66), key(67)]);
}
