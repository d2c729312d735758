//! The ordered set of currently pressed keys, as the hook path sees it.
//!
//! Press order matters: the last key of `pressing` is the most recent press.
//! Pressing a key that is already down moves it to the end instead of adding
//! it twice.
use vstd::prelude::*;
use crate::vkey::{
    VKey, VK_LWIN, VK_RWIN, VK_LSHIFT, VK_RSHIFT, VK_SHIFT, VK_LCONTROL, VK_RCONTROL, VK_CONTROL,
    VK_LMENU, VK_RMENU, VK_MENU,
};

verus! {

/// Number of consecutive resyncs after which a suspected desync is
/// considered repaired.
pub const SYNC_ROUNDS: u8 = 10;

/// `s` without any occurrence of `k`, order kept.
pub open spec fn without(s: Seq<VKey>, k: VKey) -> Seq<VKey>
    decreases s.len(),
{
    if s.len() == 0 {
        s
    } else if s.last() == k {
        without(s.drop_last(), k)
    } else {
        without(s.drop_last(), k).push(s.last())
    }
}

/// The keys of `s` that the OS still reports down; codes the OS is never
/// asked about (256 and above) are kept.
pub open spec fn confirmed(s: Seq<VKey>, os_down: Seq<VKey>) -> Seq<VKey>
    decreases s.len(),
{
    if s.len() == 0 {
        s
    } else if s.last().code >= 256 || os_down.contains(s.last()) {
        confirmed(s.drop_last(), os_down).push(s.last())
    } else {
        confirmed(s.drop_last(), os_down)
    }
}

/// The sequence after a press of `k`.
pub open spec fn pressed(s: Seq<VKey>, k: VKey) -> Seq<VKey> {
    without(s, k).push(k)
}

pub open spec fn has_code(s: Seq<VKey>, c: u16) -> bool {
    s.contains(VKey { code: c })
}

pub open spec fn shift_down(s: Seq<VKey>) -> bool {
    has_code(s, VK_LSHIFT) || has_code(s, VK_RSHIFT) || has_code(s, VK_SHIFT)
}

pub open spec fn control_down(s: Seq<VKey>) -> bool {
    has_code(s, VK_LCONTROL) || has_code(s, VK_RCONTROL) || has_code(s, VK_CONTROL)
}

pub open spec fn menu_down(s: Seq<VKey>) -> bool {
    has_code(s, VK_LMENU) || has_code(s, VK_MENU) || has_code(s, VK_RMENU)
}

pub open spec fn win_down(s: Seq<VKey>) -> bool {
    has_code(s, VK_LWIN) || has_code(s, VK_RWIN)
}

pub proof fn lemma_push_contains(s: Seq<VKey>, a: VKey, x: VKey)
    ensures
        s.push(a).contains(x) <==> (s.contains(x) || a == x),
{
    if s.contains(x) {
        let i = choose|i: int| 0 <= i < s.len() && s[i] == x;
        assert(s.push(a)[i] == x);
    }
    if a == x {
        assert(s.push(a)[s.len() as int] == x);
    }
    if s.push(a).contains(x) {
        let i = choose|i: int| 0 <= i < s.len() + 1 && s.push(a)[i] == x;
        if i < s.len() {
            assert(s[i] == x);
        }
    }
}

pub proof fn lemma_without_contains(s: Seq<VKey>, k: VKey, x: VKey)
    ensures
        without(s, k).contains(x) <==> (s.contains(x) && x != k),
    decreases s.len(),
{
    if s.len() > 0 {
        lemma_without_contains(s.drop_last(), k, x);
        assert(s == s.drop_last().push(s.last()));
        lemma_push_contains(s.drop_last(), s.last(), x);
        if s.last() != k {
            lemma_push_contains(without(s.drop_last(), k), s.last(), x);
        }
    }
}

pub proof fn lemma_without_no_duplicates(s: Seq<VKey>, k: VKey)
    requires
        s.no_duplicates(),
    ensures
        without(s, k).no_duplicates(),
    decreases s.len(),
{
    if s.len() > 0 {
        assert(s.drop_last().no_duplicates());
        lemma_without_no_duplicates(s.drop_last(), k);
        if s.last() != k {
            lemma_without_contains(s.drop_last(), k, s.last());
        }
    }
}

pub proof fn lemma_pressed_no_duplicates(s: Seq<VKey>, k: VKey)
    requires
        s.no_duplicates(),
    ensures
        pressed(s, k).no_duplicates(),
{
    lemma_without_no_duplicates(s, k);
    lemma_without_contains(s, k, k);
}

pub proof fn lemma_confirmed_no_duplicates(s: Seq<VKey>, os_down: Seq<VKey>)
    requires
        s.no_duplicates(),
    ensures
        confirmed(s, os_down).no_duplicates(),
    decreases s.len(),
{
    if s.len() > 0 {
        assert(s.drop_last().no_duplicates());
        lemma_confirmed_no_duplicates(s.drop_last(), os_down);
        lemma_confirmed_contains(s.drop_last(), os_down, s.last());
    }
}

pub proof fn lemma_confirmed_contains(s: Seq<VKey>, os_down: Seq<VKey>, x: VKey)
    ensures
        confirmed(s, os_down).contains(x) <==> (s.contains(x) && (x.code >= 256
            || os_down.contains(x))),
    decreases s.len(),
{
    if s.len() > 0 {
        lemma_confirmed_contains(s.drop_last(), os_down, x);
        assert(s == s.drop_last().push(s.last()));
        lemma_push_contains(s.drop_last(), s.last(), x);
        if s.last().code >= 256 || os_down.contains(s.last()) {
            lemma_push_contains(confirmed(s.drop_last(), os_down), s.last(), x);
        }
    }
}

/// The Shift group is down after a press of left Shift; it stays down when
/// left Shift is released while right Shift is held; it is up once right
/// Shift is released with neither left nor generic Shift held.
pub proof fn lemma_shift_normalization(s: Seq<VKey>)
    ensures
        shift_down(pressed(s, VKey { code: VK_LSHIFT })),
        has_code(s, VK_RSHIFT) ==> shift_down(without(s, VKey { code: VK_LSHIFT })),
        !has_code(s, VK_LSHIFT) && !has_code(s, VK_SHIFT) ==> !shift_down(
            without(s, VKey { code: VK_RSHIFT }),
        ),
{
    let l = VKey { code: VK_LSHIFT };
    let r = VKey { code: VK_RSHIFT };
    let g = VKey { code: VK_SHIFT };
    lemma_push_contains(without(s, l), l, l);
    lemma_without_contains(s, l, r);
    lemma_without_contains(s, r, l);
    lemma_without_contains(s, r, r);
    lemma_without_contains(s, r, g);
}

/// Which keys are down, in press order, plus the resync bookkeeping that
/// tolerates missed key-up events.
#[derive(Debug, Clone)]
pub struct KeyboardState {
    pub pressing: Vec<VKey>,
    pub needs_sync: bool,
    pub sync_count: u8,
}

/// A copy of `v` without any occurrence of `key`.
fn remove_key(v: &Vec<VKey>, key: VKey) -> (r: Vec<VKey>)
    ensures
        r@ == without(v@, key),
{
    let mut out: Vec<VKey> = Vec::new();
    let mut i: usize = 0;
    while i < v.len()
        invariant
            0 <= i <= v.len(),
            out@ == without(v@.subrange(0, i as int), key),
        decreases v.len() - i,
    {
        assert(v@.subrange(0, i + 1).drop_last() == v@.subrange(0, i as int));
        if v[i] != key {
            out.push(v[i]);
        }
        i += 1;
    }
    assert(v@.subrange(0, v.len() as int) == v@);
    out
}

fn slice_contains(keys: &[VKey], key: VKey) -> (r: bool)
    ensures
        r == keys@.contains(key),
{
    let mut i: usize = 0;
    while i < keys.len()
        invariant
            0 <= i <= keys.len(),
            forall|j: int| 0 <= j < i ==> keys@[j] != key,
        decreases keys.len() - i,
    {
        if keys[i] == key {
            return true;
        }
        i += 1;
    }
    false
}

impl KeyboardState {
    /// The keys in press order, the most recent last.
    pub open spec fn keys(&self) -> Seq<VKey> {
        self.pressing@
    }

    /// No key is listed twice.
    pub open spec fn wf(&self) -> bool {
        self.pressing@.no_duplicates()
    }

    pub open spec fn sync_pending(&self) -> bool {
        self.needs_sync
    }

    pub open spec fn syncs_done(&self) -> u8 {
        self.sync_count
    }

    /// Creates a state with every key released and no resync pending.
    pub fn new() -> (r: KeyboardState)
        ensures
            r.keys() == Seq::<VKey>::empty(),
            r.wf(),
            !r.sync_pending(),
            r.syncs_done() == 0,
    {
        KeyboardState { pressing: Vec::new(), needs_sync: false, sync_count: 0 }
    }

    /// Marks `key` as pressed; a key already down moves to the end.
    pub fn keydown(&mut self, key: VKey)
        ensures
            final(self).keys() == pressed(old(self).keys(), key),
            old(self).wf() ==> final(self).wf(),
            final(self).sync_pending() == old(self).sync_pending(),
            final(self).syncs_done() == old(self).syncs_done(),
    {
        proof {
            if self.wf() {
                lemma_pressed_no_duplicates(self.pressing@, key);
            }
        }
        let mut rest = remove_key(&self.pressing, key);
        rest.push(key);
        self.pressing = rest;
    }

    /// As `keydown`, but when a resync is pending the state is first
    /// checked against `os_down`, the keys the OS reports down.
    pub fn keydown_synced(&mut self, key: VKey, os_down: &[VKey])
        ensures
            old(self).sync_pending() ==> final(self).keys() == pressed(
                confirmed(old(self).keys(), os_down@),
                key,
            ),
            old(self).sync_pending() ==> (final(self).sync_pending() <==> old(self).syncs_done()
                < SYNC_ROUNDS - 1),
            old(self).sync_pending() ==> final(self).syncs_done() == (if old(self).syncs_done()
                < SYNC_ROUNDS - 1 {
                (old(self).syncs_done() + 1) as u8
            } else {
                0u8
            }),
            !old(self).sync_pending() ==> final(self).keys() == pressed(old(self).keys(), key),
            !old(self).sync_pending() ==> !final(self).sync_pending() && final(self).syncs_done()
                == old(self).syncs_done(),
            old(self).wf() ==> final(self).wf(),
    {
        if self.needs_sync {
            self.sync(os_down);
        }
        self.keydown(key);
    }

    /// Marks `key` as released.
    pub fn keyup(&mut self, key: VKey)
        ensures
            final(self).keys() == without(old(self).keys(), key),
            old(self).wf() ==> final(self).wf(),
            final(self).sync_pending() == old(self).sync_pending(),
            final(self).syncs_done() == old(self).syncs_done(),
    {
        proof {
            if self.wf() {
                lemma_without_no_duplicates(self.pressing@, key);
            }
        }
        self.pressing = remove_key(&self.pressing, key);
    }

    /// Whether `key` is down.
    pub fn is_down(&self, key: VKey) -> (r: bool)
        ensures
            r == self.keys().contains(key),
    {
        slice_contains(self.pressing.as_slice(), key)
    }

    /// Whether every key of `keys` is down.
    pub fn are_down(&self, keys: &[VKey]) -> (r: bool)
        ensures
            r == (forall|i: int| 0 <= i < keys@.len() ==> self.keys().contains(#[trigger] keys@[i])),
    {
        let mut i: usize = 0;
        while i < keys.len()
            invariant
                0 <= i <= keys.len(),
                forall|j: int| 0 <= j < i ==> self.keys().contains(#[trigger] keys@[j]),
            decreases keys.len() - i,
        {
            if !self.is_down(keys[i]) {
                return false;
            }
            i += 1;
        }
        true
    }

    /// Whether some key of `keys` is down.
    pub fn some_is_down(&self, keys: &[VKey]) -> (r: bool)
        ensures
            r == (exists|i: int| 0 <= i < keys@.len() && self.keys().contains(#[trigger] keys@[i])),
    {
        let mut i: usize = 0;
        while i < keys.len()
            invariant
                0 <= i <= keys.len(),
                forall|j: int| 0 <= j < i ==> !self.keys().contains(#[trigger] keys@[j]),
            decreases keys.len() - i,
        {
            if self.is_down(keys[i]) {
                return true;
            }
            i += 1;
        }
        false
    }

    pub fn is_shift_pressed(&self) -> (r: bool)
        ensures
            r == shift_down(self.keys()),
    {
        self.is_down(VKey { code: VK_LSHIFT }) || self.is_down(VKey { code: VK_RSHIFT })
            || self.is_down(VKey { code: VK_SHIFT })
    }

    pub fn is_control_pressed(&self) -> (r: bool)
        ensures
            r == control_down(self.keys()),
    {
        self.is_down(VKey { code: VK_LCONTROL }) || self.is_down(VKey { code: VK_RCONTROL })
            || self.is_down(VKey { code: VK_CONTROL })
    }

    pub fn is_menu_pressed(&self) -> (r: bool)
        ensures
            r == menu_down(self.keys()),
    {
        self.is_down(VKey { code: VK_LMENU }) || self.is_down(VKey { code: VK_MENU })
            || self.is_down(VKey { code: VK_RMENU })
    }

    pub fn is_win_pressed(&self) -> (r: bool)
        ensures
            r == win_down(self.keys()),
    {
        self.is_down(VKey { code: VK_LWIN }) || self.is_down(VKey { code: VK_RWIN })
    }

    /// Marks every key as released.
    pub fn clear(&mut self)
        ensures
            final(self).keys() == Seq::<VKey>::empty(),
            final(self).wf(),
            final(self).sync_pending() == old(self).sync_pending(),
            final(self).syncs_done() == old(self).syncs_done(),
    {
        self.pressing.clear();
    }

    /// Arms a resync: the next presses first check the state against the OS.
    pub fn request_syncronization(&mut self)
        ensures
            final(self).keys() == old(self).keys(),
            final(self).sync_pending(),
            final(self).syncs_done() == 0,
    {
        self.needs_sync = true;
        self.sync_count = 0;
    }

    /// Whether a resync is pending.
    pub fn needs_sync(&self) -> (r: bool)
        ensures
            r == self.sync_pending(),
    {
        self.needs_sync
    }

    /// Releases every key below code 256 that the OS does not report in
    /// `os_down`; never adds a press. After `SYNC_ROUNDS` consecutive
    /// resyncs the pending flag is cleared.
    pub fn sync(&mut self, os_down: &[VKey])
        ensures
            final(self).keys() == confirmed(old(self).keys(), os_down@),
            old(self).wf() ==> final(self).wf(),
            old(self).syncs_done() < SYNC_ROUNDS - 1 ==> final(self).syncs_done()
                == old(self).syncs_done() + 1 && final(self).sync_pending()
                == old(self).sync_pending(),
            old(self).syncs_done() >= SYNC_ROUNDS - 1 ==> final(self).syncs_done() == 0
                && !final(self).sync_pending(),
    {
        let mut out: Vec<VKey> = Vec::new();
        let mut i: usize = 0;
        while i < self.pressing.len()
            invariant
                0 <= i <= self.pressing.len(),
                out@ == confirmed(self.pressing@.subrange(0, i as int), os_down@),
            decreases self.pressing.len() - i,
        {
            assert(self.pressing@.subrange(0, i + 1).drop_last() == self.pressing@.subrange(
                0,
                i as int,
            ));
            let k = self.pressing[i];
            if k.code >= 256 || slice_contains(os_down, k) {
                out.push(k);
            }
            i += 1;
        }
        assert(self.pressing@.subrange(0, self.pressing.len() as int) == self.pressing@);
        proof {
            if self.wf() {
                lemma_confirmed_no_duplicates(self.pressing@, os_down@);
            }
        }
        self.pressing = out;
        if self.sync_count >= SYNC_ROUNDS - 1 {
            self.sync_count = 0;
            self.needs_sync = false;
        } else {
            self.sync_count = self.sync_count + 1;
        }
    }
}

impl Default for KeyboardState {
    fn default() -> (r: KeyboardState)
        ensures
            r.keys() == Seq::<VKey>::empty(),
            r.wf(),
            !r.sync_pending(),
            r.syncs_done() == 0,
    {
        KeyboardState::new()
    }
}

impl PartialEq for KeyboardState {
    fn eq(&self, other: &KeyboardState) -> (r: bool) {
        if self.needs_sync != other.needs_sync || self.sync_count != other.sync_count
            || self.pressing.len() != other.pressing.len() {
            return false;
        }
        let mut i: usize = 0;
        while i < self.pressing.len()
            invariant
                0 <= i <= self.pressing.len(),
                self.pressing.len() == other.pressing.len(),
                forall|j: int| 0 <= j < i ==> self.pressing@[j] == other.pressing@[j],
            decreases self.pressing.len() - i,
        {
            if self.pressing[i] != other.pressing[i] {
                return false;
            }
            i += 1;
        }
        assert(self.pressing@ == other.pressing@);
        true
    }
}

impl vstd::std_specs::cmp::PartialEqSpecImpl for KeyboardState {
    open spec fn obeys_eq_spec() -> bool {
        true
    }

    open spec fn eq_spec(&self, other: &KeyboardState) -> bool {
        self.pressing@ == other.pressing@ && self.needs_sync == other.needs_sync
            && self.sync_count == other.sync_count
    }
}

impl Eq for KeyboardState {}

} // verus!
