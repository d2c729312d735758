//! Virtual-key codes as plain values.
//!
//! A `VKey` is the platform's 16-bit virtual-key code. Only the codes that
//! the matching engine treats specially are named here; every other code is
//! carried through unchanged.
use vstd::prelude::*;

verus! {

/// A virtual-key code, compared, ordered and hashed by its number.
#[derive(Debug, Clone, Copy, PartialEq, Eq, Structural, Hash, PartialOrd, Ord)]
pub struct VKey {
    pub code: u16,
}

pub const VK_BACK: u16 = 0x08;
pub const VK_SHIFT: u16 = 0x10;
pub const VK_CONTROL: u16 = 0x11;
pub const VK_MENU: u16 = 0x12;
pub const VK_ESCAPE: u16 = 0x1B;
pub const VK_DELETE: u16 = 0x2E;
pub const VK_A: u16 = 0x41;
pub const VK_L: u16 = 0x4C;
pub const VK_LWIN: u16 = 0x5B;
pub const VK_RWIN: u16 = 0x5C;
pub const VK_LSHIFT: u16 = 0xA0;
pub const VK_RSHIFT: u16 = 0xA1;
pub const VK_LCONTROL: u16 = 0xA2;
pub const VK_RCONTROL: u16 = 0xA3;
pub const VK_LMENU: u16 = 0xA4;
pub const VK_RMENU: u16 = 0xA5;
/// Code reported when a scan code has no virtual-key mapping.
pub const VK_NONE: u16 = 0xFF;

pub open spec fn is_windows_code(c: u16) -> bool {
    c == VK_LWIN || c == VK_RWIN
}

pub open spec fn is_shift_code(c: u16) -> bool {
    c == VK_LSHIFT || c == VK_RSHIFT || c == VK_SHIFT
}

pub open spec fn is_menu_code(c: u16) -> bool {
    c == VK_LMENU || c == VK_RMENU || c == VK_MENU
}

pub open spec fn is_control_code(c: u16) -> bool {
    c == VK_LCONTROL || c == VK_RCONTROL || c == VK_CONTROL
}

pub open spec fn is_modifier_code(c: u16) -> bool {
    is_windows_code(c) || is_shift_code(c) || is_menu_code(c) || is_control_code(c)
}

impl VKey {
    pub fn is_windows_key(&self) -> (r: bool)
        ensures
            r == is_windows_code(self.code),
    {
        self.code == VK_LWIN || self.code == VK_RWIN
    }

    pub fn is_shift_key(&self) -> (r: bool)
        ensures
            r == is_shift_code(self.code),
    {
        self.code == VK_LSHIFT || self.code == VK_RSHIFT || self.code == VK_SHIFT
    }

    pub fn is_menu_key(&self) -> (r: bool)
        ensures
            r == is_menu_code(self.code),
    {
        self.code == VK_LMENU || self.code == VK_RMENU || self.code == VK_MENU
    }

    pub fn is_control_key(&self) -> (r: bool)
        ensures
            r == is_control_code(self.code),
    {
        self.code == VK_LCONTROL || self.code == VK_RCONTROL || self.code == VK_CONTROL
    }

    pub fn is_modifier_key(&self) -> (r: bool)
        ensures
            r == is_modifier_code(self.code),
    {
        self.is_windows_key() || self.is_shift_key() || self.is_menu_key() || self.is_control_key()
    }

    pub fn to_vk_code(&self) -> (r: u16)
        ensures
            r == self.code,
    {
        self.code
    }

    pub fn from_vk_code(vk_code: u16) -> (r: VKey)
        ensures
            r.code == vk_code,
    {
        VKey { code: vk_code }
    }
}

} // verus!
