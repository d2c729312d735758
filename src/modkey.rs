//! The four modifier keys as a small enum, with their names, codes and
//! bit masks.
use vstd::prelude::*;
use crate::vkey::{
    VKey, VK_LCONTROL, VK_RCONTROL, VK_CONTROL, VK_LSHIFT, VK_RSHIFT, VK_SHIFT, VK_LMENU, VK_RMENU,
    VK_MENU, VK_LWIN, VK_RWIN,
};
use crate::error::WHKError;

verus! {

/// A modifier key: Control, Shift, Alt or Windows.
#[derive(Debug, Clone, Copy, PartialEq, Eq, Structural, Hash)]
pub enum ModKey {
    Ctrl,
    Shift,
    Alt,
    Win,
}

/// ASCII upper case of one character; other characters are unchanged.
pub open spec fn ascii_upper(c: char) -> char {
    if 'a' <= c && c <= 'z' {
        ((c as u32) - 32) as char
    } else {
        c
    }
}

pub open spec fn upper_seq(s: Seq<char>) -> Seq<char> {
    s.map_values(|c: char| ascii_upper(c))
}

/// The modifier that an upper-case name denotes, if any.
pub open spec fn modkey_of_name(u: Seq<char>) -> Option<ModKey> {
    if u == "CTRL"@ || u == "CONTROL"@ {
        Some(ModKey::Ctrl)
    } else if u == "SHIFT"@ {
        Some(ModKey::Shift)
    } else if u == "ALT"@ {
        Some(ModKey::Alt)
    } else if u == "WIN"@ || u == "WINDOWS"@ || u == "SUPER"@ {
        Some(ModKey::Win)
    } else {
        None
    }
}

pub open spec fn mod_bit(m: ModKey) -> u16 {
    match m {
        ModKey::Ctrl => 0x01,
        ModKey::Shift => 0x02,
        ModKey::Alt => 0x04,
        ModKey::Win => 0x08,
    }
}

/// The bitwise or of the bits of `keys`.
pub open spec fn mask_of(keys: Seq<ModKey>) -> u16
    decreases keys.len(),
{
    if keys.len() == 0 {
        0
    } else {
        mask_of(keys.drop_last()) | mod_bit(keys.last())
    }
}

/// Relies on `str::to_ascii_uppercase`: ASCII letters become upper case,
/// every other character is kept.
#[verifier::external_body]
fn to_ascii_upper(s: &str) -> (r: String)
    ensures
        r@ == upper_seq(s@),
{
    s.to_ascii_uppercase()
}

fn lit(s: &str) -> (r: String)
    ensures
        r@ == s@,
{
    s.to_owned()
}

impl ModKey {
    /// The modifier that `name` denotes, in any ASCII case: "CTRL" or
    /// "CONTROL", "SHIFT", "ALT", "WIN", "WINDOWS" or "SUPER". Any other
    /// name gives `InvalidModKey` with the name in upper case.
    pub fn from_keyname(name: &str) -> (r: Result<ModKey, WHKError>)
        ensures
            match modkey_of_name(upper_seq(name@)) {
                Some(m) => r == Ok::<ModKey, WHKError>(m),
                None => match r {
                    Err(WHKError::InvalidModKey(s)) => s@ == upper_seq(name@),
                    _ => false,
                },
            },
    {
        let upper = to_ascii_upper(name);
        proof {
            reveal_strlit("CTRL");
            reveal_strlit("CONTROL");
            reveal_strlit("SHIFT");
            reveal_strlit("ALT");
            reveal_strlit("WIN");
            reveal_strlit("WINDOWS");
            reveal_strlit("SUPER");
        }
        if upper == lit("CTRL") || upper == lit("CONTROL") {
            Ok(ModKey::Ctrl)
        } else if upper == lit("SHIFT") {
            Ok(ModKey::Shift)
        } else if upper == lit("ALT") {
            Ok(ModKey::Alt)
        } else if upper == lit("WIN") || upper == lit("WINDOWS") || upper == lit("SUPER") {
            Ok(ModKey::Win)
        } else {
            Err(WHKError::InvalidModKey(upper))
        }
    }

    /// The display name of this modifier.
    pub fn name(&self) -> (r: &'static str)
        ensures
            r@ == match self {
                ModKey::Ctrl => "Ctrl"@,
                ModKey::Shift => "Shift"@,
                ModKey::Alt => "Alt"@,
                ModKey::Win => "Win"@,
            },
    {
        match self {
            ModKey::Ctrl => "Ctrl",
            ModKey::Shift => "Shift",
            ModKey::Alt => "Alt",
            ModKey::Win => "Win",
        }
    }

    /// The virtual-key code of the left-hand key of this modifier.
    pub fn to_vk_code(&self) -> (r: u16)
        ensures
            r == match self {
                ModKey::Ctrl => VK_LCONTROL,
                ModKey::Shift => VK_LSHIFT,
                ModKey::Alt => VK_LMENU,
                ModKey::Win => VK_LWIN,
            },
    {
        match self {
            ModKey::Ctrl => VK_LCONTROL,
            ModKey::Shift => VK_LSHIFT,
            ModKey::Alt => VK_LMENU,
            ModKey::Win => VK_LWIN,
        }
    }

    /// The modifier of a virtual-key code: the left, right and generic
    /// variants of Control, Shift and Alt, and both Windows keys. Any other
    /// code gives `VKNotAModKey`.
    pub fn from_vk_code(vk_code: u16) -> (r: Result<ModKey, WHKError>)
        ensures
            (vk_code == VK_CONTROL || vk_code == VK_LCONTROL || vk_code == VK_RCONTROL) ==> r
                == Ok::<ModKey, WHKError>(ModKey::Ctrl),
            (vk_code == VK_SHIFT || vk_code == VK_LSHIFT || vk_code == VK_RSHIFT) ==> r == Ok::<
                ModKey,
                WHKError,
            >(ModKey::Shift),
            (vk_code == VK_MENU || vk_code == VK_LMENU || vk_code == VK_RMENU) ==> r == Ok::<
                ModKey,
                WHKError,
            >(ModKey::Alt),
            (vk_code == VK_LWIN || vk_code == VK_RWIN) ==> r == Ok::<ModKey, WHKError>(ModKey::Win),
            !crate::vkey::is_modifier_code(vk_code) ==> r == Err::<ModKey, WHKError>(
                WHKError::VKNotAModKey(vk_code),
            ),
    {
        if vk_code == VK_CONTROL || vk_code == VK_LCONTROL || vk_code == VK_RCONTROL {
            Ok(ModKey::Ctrl)
        } else if vk_code == VK_SHIFT || vk_code == VK_LSHIFT || vk_code == VK_RSHIFT {
            Ok(ModKey::Shift)
        } else if vk_code == VK_MENU || vk_code == VK_LMENU || vk_code == VK_RMENU {
            Ok(ModKey::Alt)
        } else if vk_code == VK_LWIN || vk_code == VK_RWIN {
            Ok(ModKey::Win)
        } else {
            Err(WHKError::VKNotAModKey(vk_code))
        }
    }

    /// Combines the bits of `mod_keys` into one mask.
    pub fn mod_mask_from_slice(mod_keys: &[ModKey]) -> (r: u16)
        ensures
            r == mask_of(mod_keys@),
    {
        let mut mask: u16 = 0;
        let mut i: usize = 0;
        while i < mod_keys.len()
            invariant
                0 <= i <= mod_keys.len(),
                mask == mask_of(mod_keys@.subrange(0, i as int)),
            decreases mod_keys.len() - i,
        {
            assert(mod_keys@.subrange(0, i + 1).drop_last() == mod_keys@.subrange(0, i as int));
            mask = mask | mod_keys[i].to_mod_bit();
            i += 1;
        }
        assert(mod_keys@.subrange(0, mod_keys.len() as int) == mod_keys@);
        mask
    }

    /// The mask with the bit of each modifier whose flag is set.
    pub fn mod_mask_from_bool(ctrl: bool, shift: bool, alt: bool, win: bool) -> (r: u16)
        ensures
            r == (if ctrl { 0x01u16 } else { 0u16 }) | (if shift { 0x02u16 } else { 0u16 }) | (
            if alt { 0x04u16 } else { 0u16 }) | (if win { 0x08u16 } else { 0u16 }),
    {
        let c: u16 = if ctrl { ModKey::Ctrl.to_mod_bit() } else { 0 };
        let s: u16 = if shift { ModKey::Shift.to_mod_bit() } else { 0 };
        let a: u16 = if alt { ModKey::Alt.to_mod_bit() } else { 0 };
        let w: u16 = if win { ModKey::Win.to_mod_bit() } else { 0 };
        c | s | a | w
    }

    /// The bit of this modifier: Ctrl 0x01, Shift 0x02, Alt 0x04, Win 0x08.
    pub fn to_mod_bit(&self) -> (r: u16)
        ensures
            r == mod_bit(*self),
    {
        match self {
            ModKey::Ctrl => 0x01u16,
            ModKey::Shift => 0x02u16,
            ModKey::Alt => 0x04u16,
            ModKey::Win => 0x08u16,
        }
    }
}

impl From<ModKey> for VKey {
    /// The generic key of a modifier; the left key for Windows.
    fn from(mk: ModKey) -> (r: VKey) {
        match mk {
            ModKey::Ctrl => VKey { code: VK_CONTROL },
            ModKey::Shift => VKey { code: VK_SHIFT },
            ModKey::Alt => VKey { code: VK_MENU },
            ModKey::Win => VKey { code: VK_LWIN },
        }
    }
}

impl vstd::std_specs::convert::FromSpecImpl<ModKey> for VKey {
    open spec fn obeys_from_spec() -> bool {
        true
    }

    open spec fn from_spec(mk: ModKey) -> VKey {
        match mk {
            ModKey::Ctrl => VKey { code: VK_CONTROL },
            ModKey::Shift => VKey { code: VK_SHIFT },
            ModKey::Alt => VKey { code: VK_MENU },
            ModKey::Win => VKey { code: VK_LWIN },
        }
    }
}

} // verus!
