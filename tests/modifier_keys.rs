use win_hotkeys::error::WHKError;
use win_hotkeys::modkey::ModKey;
use win_hotkeys::vkey::{
    VKey, VK_CONTROL, VK_LCONTROL, VK_RCONTROL, VK_SHIFT, VK_LSHIFT, VK_RSHIFT, VK_MENU, VK_LMENU,
    VK_RMENU, VK_LWIN, VK_RWIN,
};

#[test]
fn modkey_test_from_keyname() {
    assert_eq!(ModKey::from_keyname("ctrl").unwrap(), ModKey::Ctrl);
    assert_eq!(ModKey::from_keyname("CONTROL").unwrap(), ModKey::Ctrl);
    assert_eq!(ModKey::from_keyname("shift").unwrap(), ModKey::Shift);
    assert_eq!(ModKey::from_keyname("ALT").unwrap(), ModKey::Alt);
    assert_eq!(ModKey::from_keyname("win").unwrap(), ModKey::Win);
    assert_eq!(ModKey::from_keyname("WINDOWS").unwrap(), ModKey::Win);
    assert_eq!(ModKey::from_keyname("SUPER").unwrap(), ModKey::Win);
    assert!(ModKey::from_keyname("invalid").is_err());
}

#[test]
fn modkey_from_keyname_error_holds_upper_case_name() {
    assert_eq!(
        ModKey::from_keyname("invalid"),
        Err(WHKError::InvalidModKey("INVALID".to_string()))
    );
    assert_eq!(ModKey::from_keyname("sHiFt").unwrap(), ModKey::Shift);
}

#[test]
fn modkey_test_to_vk_code() {
    assert_eq!(ModKey::Ctrl.to_vk_code(), VK_LCONTROL);
    assert_eq!(ModKey::Shift.to_vk_code(), VK_LSHIFT);
    assert_eq!(ModKey::Alt.to_vk_code(), VK_LMENU);
    assert_eq!(ModKey::Win.to_vk_code(), VK_LWIN);
}

#[test]
fn test_from_vk_code() {
    assert_eq!(ModKey::from_vk_code(VK_CONTROL).unwrap(), ModKey::Ctrl);
    assert_eq!(ModKey::from_vk_code(VK_LCONTROL).unwrap(), ModKey::Ctrl);
    assert_eq!(ModKey::from_vk_code(VK_RCONTROL).unwrap(), ModKey::Ctrl);
    assert_eq!(ModKey::from_vk_code(VK_SHIFT).unwrap(), ModKey::Shift);
    assert_eq!(ModKey::from_vk_code(VK_LSHIFT).unwrap(), ModKey::Shift);
    assert_eq!(ModKey::from_vk_code(VK_RSHIFT).unwrap(), ModKey::Shift);
    assert_eq!(ModKey::from_vk_code(VK_MENU).unwrap(), ModKey::Alt);
    assert_eq!(ModKey::from_vk_code(VK_LMENU).unwrap(), ModKey::Alt);
    assert_eq!(ModKey::from_vk_code(VK_RMENU).unwrap(), ModKey::Alt);
    assert_eq!(ModKey::from_vk_code(VK_LWIN).unwrap(), ModKey::Win);
    assert_eq!(ModKey::from_vk_code(VK_RWIN).unwrap(), ModKey::Win);
    assert!(ModKey::from_vk_code(0x00).is_err());
}

#[test]
fn test_mod_mask_from_slice() {
    let keys = [ModKey::Ctrl, ModKey::Alt];
    assert_eq!(ModKey::mod_mask_from_slice(&keys), 0x05);

    let keys = [ModKey::Ctrl, ModKey::Shift, ModKey::Win];
    assert_eq!(ModKey::mod_mask_from_slice(&keys), 0x0B);

    let keys: [ModKey; 0] = [];
    assert_eq!(ModKey::mod_mask_from_slice(&keys), 0x00);
}

#[test]
fn test_mod_mask_from_bool() {
    assert_eq!(ModKey::mod_mask_from_bool(true, false, true, false), 0x05);
    assert_eq!(ModKey::mod_mask_from_bool(true, true, false, true), 0x0B);
    assert_eq!(ModKey::mod_mask_from_bool(false, false, false, false), 0x00);
}

#[test]
fn test_to_mod_bit() {
    assert_eq!(ModKey::Ctrl.to_mod_bit(), 0x01);
    assert_eq!(ModKey::Shift.to_mod_bit(), 0x02);
    assert_eq!(ModKey::Alt.to_mod_bit(), 0x04);
    assert_eq!(ModKey::Win.to_mod_bit(), 0x08);
}

#[test]
fn test_combined_behavior() {
    let keys = ["Ctrl", "Shift", "Alt"];
    let mod_keys: Vec<ModKey> = keys
        .iter()
        .map(|&key| ModKey::from_keyname(key).unwrap())
        .collect();
    let vk_codes: Vec<u16> = mod_keys.iter().map(|key| key.to_vk_code()).collect();
    let reconstructed_mod_keys: Vec<ModKey> = vk_codes
        .iter()
        .map(|&code| ModKey::from_vk_code(code).unwrap())
        .collect();
    assert_eq!(mod_keys, reconstructed_mod_keys);

    assert_eq!(ModKey::mod_mask_from_slice(&reconstructed_mod_keys), 0x07);
}

#[test]
fn modkey_into_vkey_uses_generic_codes() {
    assert_eq!(VKey::from(ModKey::Ctrl), VKey::from_vk_code(VK_CONTROL));
    assert_eq!(VKey::from(ModKey::Shift), VKey::from_vk_code(VK_SHIFT));
    assert_eq!(VKey::from(ModKey::Alt), VKey::from_vk_code(VK_MENU));
    assert_eq!(VKey::from(ModKey::Win), VKey::from_vk_code(VK_LWIN));
}

#[test]
fn keys_test_to_vk_code() {
    assert_eq!(VKey::from_vk_code(0x08).to_vk_code(), 0x08);
    assert_eq!(VKey::from_vk_code(0x0D).to_vk_code(), 0x0D);
    assert_eq!(VKey::from_vk_code(0x20).to_vk_code(), 0x20);
    assert_eq!(VKey::from_vk_code(0x7B).to_vk_code(), 0x7B);
    assert_eq!(VKey::from_vk_code(1234).to_vk_code(), 1234);
}

#[test]
fn test_partial_eq() {
    assert_eq!(VKey::from_vk_code(0x08), VKey::from_vk_code(0x08));
    assert_eq!(VKey::from_vk_code(1234), VKey::from_vk_code(1234));
    assert_ne!(VKey::from_vk_code(1234), VKey::from_vk_code(5678));
}

#[test]
fn test_custom_keycode_range() {
    assert_eq!(VKey::from_vk_code(0).to_vk_code(), 0);
    assert_eq!(VKey::from_vk_code(65535).to_vk_code(), 65535);
}

#[test]
fn vkey_modifier_classification() {
    assert!(VKey::from_vk_code(VK_LWIN).is_windows_key());
    assert!(VKey::from_vk_code(VK_RSHIFT).is_shift_key());
    assert!(VKey::from_vk_code(VK_MENU).is_menu_key());
    assert!(VKey::from_vk_code(VK_RCONTROL).is_control_key());
    assert!(VKey::from_vk_code(VK_LMENU).is_modifier_key());
    assert!(!VKey::from_vk_code(0x41).is_modifier_key());
}

#[test]
fn modkey_names() {
    assert_eq!(ModKey::Ctrl.name(), "Ctrl");
    assert_eq!(ModKey::Shift.name(), "Shift");
    assert_eq!(ModKey::Alt.name(), "Alt");
    assert_eq!(ModKey::Win.name(), "Win");
}
