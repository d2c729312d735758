//! A compact keyboard state: one bit per virtual-key code below 256.
//!
//! Left and right Shift, Control and Alt also set the generic key of their
//! group; the generic key is released once neither side is held.
use vstd::prelude::*;
use crate::vkey::{
    VK_LSHIFT, VK_RSHIFT, VK_SHIFT, VK_LCONTROL, VK_RCONTROL, VK_CONTROL, VK_LMENU, VK_RMENU,
    VK_MENU,
};

verus! {

pub open spec fn bit_of(word: u128, pos: u16) -> bool {
    (word >> pos) & 1u128 == 1u128
}

/// Whether code `c` (below 256) is marked in `flags`.
pub open spec fn flag_down(flags: [u128; 2], c: u16) -> bool {
    if c < 128 {
        bit_of(flags@[0], c)
    } else {
        bit_of(flags@[1], (c - 128) as u16)
    }
}

/// The generic key of the group that `key` is a left or right key of, or
/// `key` itself.
pub open spec fn generic_of(key: u16) -> u16 {
    if key == VK_LSHIFT || key == VK_RSHIFT {
        VK_SHIFT
    } else if key == VK_LCONTROL || key == VK_RCONTROL {
        VK_CONTROL
    } else if key == VK_LMENU || key == VK_RMENU {
        VK_MENU
    } else {
        key
    }
}

/// The other side of a left or right Shift, Control or Alt key.
pub open spec fn partner_of(key: u16) -> u16 {
    if key == VK_LSHIFT {
        VK_RSHIFT
    } else if key == VK_RSHIFT {
        VK_LSHIFT
    } else if key == VK_LCONTROL {
        VK_RCONTROL
    } else if key == VK_RCONTROL {
        VK_LCONTROL
    } else if key == VK_LMENU {
        VK_RMENU
    } else if key == VK_RMENU {
        VK_LMENU
    } else {
        key
    }
}

pub open spec fn sided(key: u16) -> bool {
    generic_of(key) != key
}

proof fn lemma_set_bit(w: u128, p: u16, q: u16)
    requires
        p < 128,
        q < 128,
    ensures
        bit_of(w | (1u128 << p), q) == (q == p || bit_of(w, q)),
{
    assert(((w | (1u128 << p)) >> q) & 1u128 == 1u128 <==> (q == p || (w >> q) & 1u128 == 1u128))
        by (bit_vector)
        requires
            p < 128,
            q < 128,
    ;
}

proof fn lemma_clear_bit(w: u128, p: u16, q: u16)
    requires
        p < 128,
        q < 128,
    ensures
        bit_of(w & !(1u128 << p), q) == (q != p && bit_of(w, q)),
{
    assert(((w & !(1u128 << p)) >> q) & 1u128 == 1u128 <==> (q != p && (w >> q) & 1u128 == 1u128))
        by (bit_vector)
        requires
            p < 128,
            q < 128,
    ;
}

proof fn lemma_test_bit(w: u128, p: u16)
    requires
        p < 128,
    ensures
        ((w & (1u128 << p)) != 0) == bit_of(w, p),
{
    assert(((w & (1u128 << p)) != 0) <==> ((w >> p) & 1u128 == 1u128)) by (bit_vector)
        requires
            p < 128,
    ;
}

proof fn lemma_zero_bit(q: u16)
    requires
        q < 128,
    ensures
        !bit_of(0u128, q),
{
    assert((0u128 >> q) & 1u128 != 1u128) by (bit_vector)
        requires
            q < 128,
    ;
}

/// `flags` with the bit of `key` set.
fn with_bit(flags: [u128; 2], key: u16) -> (r: [u128; 2])
    requires
        key < 256,
    ensures
        forall|c: u16| c < 256 ==> #[trigger] flag_down(r, c) == (c == key || flag_down(flags, c)),
{
    let r = if key < 128 {
        [flags[0] | (1u128 << key), flags[1]]
    } else {
        [flags[0], flags[1] | (1u128 << (key - 128))]
    };
    assert forall|c: u16| c < 256 implies #[trigger] flag_down(r, c) == (c == key || flag_down(
        flags,
        c,
    )) by {
        if key < 128 {
            if c < 128 {
                lemma_set_bit(flags@[0], key, c);
            }
        } else {
            if c >= 128 {
                lemma_set_bit(flags@[1], (key - 128) as u16, (c - 128) as u16);
            }
        }
    }
    r
}

/// `flags` with the bit of `key` cleared.
fn without_bit(flags: [u128; 2], key: u16) -> (r: [u128; 2])
    requires
        key < 256,
    ensures
        forall|c: u16| c < 256 ==> #[trigger] flag_down(r, c) == (c != key && flag_down(flags, c)),
{
    let r = if key < 128 {
        [flags[0] & !(1u128 << key), flags[1]]
    } else {
        [flags[0], flags[1] & !(1u128 << (key - 128))]
    };
    assert forall|c: u16| c < 256 implies #[trigger] flag_down(r, c) == (c != key && flag_down(
        flags,
        c,
    )) by {
        if key < 128 {
            if c < 128 {
                lemma_clear_bit(flags@[0], key, c);
            }
        } else {
            if c >= 128 {
                lemma_clear_bit(flags@[1], (key - 128) as u16, (c - 128) as u16);
            }
        }
    }
    r
}

/// Which keys below code 256 are down, one bit each.
#[derive(Debug, Copy, Clone)]
pub struct KeyboardState {
    pub flags: [u128; 2],
}

impl KeyboardState {
    pub open spec fn down(&self, c: u16) -> bool {
        flag_down(self.flags, c)
    }

    /// Creates a state with every key released.
    pub fn new() -> (r: KeyboardState)
        ensures
            forall|c: u16| c < 256 ==> !#[trigger] r.down(c),
    {
        let r = KeyboardState { flags: [0, 0] };
        assert forall|c: u16| c < 256 implies !#[trigger] r.down(c) by {
            if c < 128 {
                lemma_zero_bit(c);
            } else {
                lemma_zero_bit((c - 128) as u16);
            }
        }
        r
    }

    /// Marks `key` as pressed; a left or right Shift, Control or Alt also
    /// marks the generic key of its group.
    pub fn keydown(&mut self, key: u16)
        requires
            key < 256,
        ensures
            forall|c: u16|
                c < 256 ==> #[trigger] final(self).down(c) == (old(self).down(c) || c == key || c
                    == generic_of(key)),
    {
        self.flags = with_bit(self.flags, key);
        if sided_key(key) {
            self.flags = with_bit(self.flags, generic_key(key));
        }
    }

    /// Marks `key` as released; releasing the last held side of Shift,
    /// Control or Alt also releases the generic key of its group.
    pub fn keyup(&mut self, key: u16)
        requires
            key < 256,
        ensures
            forall|c: u16|
                c < 256 ==> #[trigger] final(self).down(c) == (old(self).down(c) && c != key && !(
                sided(key) && c == generic_of(key) && !old(self).down(partner_of(key)))),
    {
        self.flags = without_bit(self.flags, key);
        if sided_key(key) {
            if !self.is_down(partner_key(key)) {
                self.flags = without_bit(self.flags, generic_key(key));
            }
        }
    }

    /// Whether `key` is down.
    pub fn is_down(&self, key: u16) -> (r: bool)
        requires
            key < 256,
        ensures
            r == self.down(key),
    {
        if key < 128 {
            proof {
                lemma_test_bit(self.flags@[0], key);
            }
            (self.flags[0] & (1u128 << key)) != 0
        } else {
            proof {
                lemma_test_bit(self.flags@[1], (key - 128) as u16);
            }
            (self.flags[1] & (1u128 << (key - 128))) != 0
        }
    }

    /// Marks every key as released.
    pub fn clear(&mut self)
        ensures
            forall|c: u16| c < 256 ==> !#[trigger] final(self).down(c),
    {
        *self = KeyboardState::new();
    }
}

fn sided_key(key: u16) -> (r: bool)
    ensures
        r == sided(key),
{
    key == VK_LSHIFT || key == VK_RSHIFT || key == VK_LCONTROL || key == VK_RCONTROL || key
        == VK_LMENU || key == VK_RMENU
}

fn generic_key(key: u16) -> (r: u16)
    ensures
        r == generic_of(key),
{
    if key == VK_LSHIFT || key == VK_RSHIFT {
        VK_SHIFT
    } else if key == VK_LCONTROL || key == VK_RCONTROL {
        VK_CONTROL
    } else if key == VK_LMENU || key == VK_RMENU {
        VK_MENU
    } else {
        key
    }
}

fn partner_key(key: u16) -> (r: u16)
    ensures
        r == partner_of(key),
{
    if key == VK_LSHIFT {
        VK_RSHIFT
    } else if key == VK_RSHIFT {
        VK_LSHIFT
    } else if key == VK_LCONTROL {
        VK_RCONTROL
    } else if key == VK_RCONTROL {
        VK_LCONTROL
    } else if key == VK_LMENU {
        VK_RMENU
    } else if key == VK_RMENU {
        VK_LMENU
    } else {
        key
    }
}

impl Default for KeyboardState {
    fn default() -> (r: KeyboardState)
        ensures
            forall|c: u16| c < 256 ==> !#[trigger] r.down(c),
    {
        KeyboardState::new()
    }
}

impl PartialEq for KeyboardState {
    fn eq(&self, other: &KeyboardState) -> (r: bool) {
        let r = self.flags[0] == other.flags[0] && self.flags[1] == other.flags[1];
        assert(r ==> self.flags@ =~= other.flags@);
        r
    }
}

impl vstd::std_specs::cmp::PartialEqSpecImpl for KeyboardState {
    open spec fn obeys_eq_spec() -> bool {
        true
    }

    open spec fn eq_spec(&self, other: &KeyboardState) -> bool {
        self.flags@ == other.flags@
    }
}

impl Eq for KeyboardState {}

} // verus!
