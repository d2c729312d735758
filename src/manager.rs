//! The hotkey registry, the control state (pause, stealing, global
//! listener) and the decision taken for each key event.
use vstd::prelude::*;
use crate::vkey::{
    VKey, VK_NONE, VK_ESCAPE, VK_LWIN, VK_RWIN, VK_L, VK_DELETE, VK_CONTROL, VK_MENU,
    is_windows_code, is_modifier_code,
};
use crate::hotkey::{Hotkey, TriggerBehavior};
use crate::state::KeyboardState;
use crate::events::{KeyAction, KeyboardInputEvent, EventLoopEvent};
use crate::error::WHKError;

verus! {

/// A hotkey of `reg` has the same keys as `h`.
pub open spec fn registered<C, D>(reg: Seq<Hotkey<C>>, h: Hotkey<D>) -> bool {
    exists|i: int| 0 <= i < reg.len() && (#[trigger] reg[i]).same_identity(&h)
}

/// No two hotkeys of `reg` have the same keys.
pub open spec fn identities_unique<C>(reg: Seq<Hotkey<C>>) -> bool {
    forall|i: int, j: int| #![trigger reg[i], reg[j]]
        0 <= i < j < reg.len() ==> !reg[i].same_identity(&reg[j])
}

/// `h` fires on a key-down of `vk` with the keys `s` down.
pub open spec fn eligible<C>(h: Hotkey<C>, vk: u16, s: Seq<VKey>, paused: bool) -> bool {
    h.trigger_key.code == vk && (!paused || h.bypass_pause) && h.matches(s)
}

/// The index of the first hotkey of `reg`, in registration order, that fires.
pub open spec fn first_match<C>(reg: Seq<Hotkey<C>>, vk: u16, s: Seq<VKey>, paused: bool) -> Option<
    int,
>
    decreases reg.len(),
{
    if reg.len() == 0 {
        None
    } else {
        match first_match(reg.drop_last(), vk, s, paused) {
            Some(i) => Some(i),
            None => if eligible(reg.last(), vk, s, paused) {
                Some(reg.len() - 1)
            } else {
                None
            },
        }
    }
}

/// Only Windows keys are down in `s`.
pub open spec fn only_windows_keys(s: Seq<VKey>) -> bool {
    forall|i: int| 0 <= i < s.len() ==> is_windows_code(#[trigger] s[i].code)
}

/// A swallowed key event is replaced by a silent key while the left Windows
/// key is held: the OS would otherwise see a lone Windows press and release
/// and open the Start menu. The one exception is a press of a Windows key
/// with nothing but Windows keys held, which the OS never sees at all.
pub open spec fn silent_needed(vk: u16, s: Seq<VKey>) -> bool {
    s.contains(VKey { code: VK_LWIN }) && !(is_windows_code(vk) && only_windows_keys(s))
}

pub open spec fn swallow_action(vk: u16, s: Seq<VKey>) -> KeyAction {
    if silent_needed(vk, s) {
        KeyAction::Replace
    } else {
        KeyAction::Block
    }
}

/// The action for a hotkey that fired with behaviour `b`.
pub open spec fn hit_action(b: TriggerBehavior, vk: u16, s: Seq<VKey>) -> KeyAction {
    match b {
        TriggerBehavior::PassThrough => KeyAction::Allow,
        TriggerBehavior::StopPropagation => swallow_action(vk, s),
    }
}

/// `reg` without the hotkeys whose handle is `id`, order kept.
pub open spec fn without_id<C>(reg: Seq<Hotkey<C>>, id: u64) -> Seq<Hotkey<C>>
    decreases reg.len(),
{
    if reg.len() == 0 {
        reg
    } else {
        let rest = without_id(reg.subrange(1, reg.len() as int), id);
        if reg[0].id() == id {
            rest
        } else {
            seq![reg[0]] + rest
        }
    }
}

/// The two system shortcuts that every registry starts from: screen lock
/// (`L` with the left Windows key) and the secure desktop (`Delete` with
/// Control and Alt). Both pass the event on and ignore the pause state.
pub open spec fn is_seeded<C>(reg: Seq<Hotkey<C>>) -> bool {
    &&& reg.len() == 2
    &&& reg[0].trigger_key == VKey { code: VK_L }
    &&& reg[0].modifier_set() == set![VKey { code: VK_LWIN }]
    &&& reg[0].behaviour == TriggerBehavior::PassThrough
    &&& reg[0].bypass_pause
    &&& reg[1].trigger_key == VKey { code: VK_DELETE }
    &&& reg[1].modifier_set() == set![VKey { code: VK_CONTROL }, VKey { code: VK_MENU }]
    &&& reg[1].behaviour == TriggerBehavior::PassThrough
    &&& reg[1].bypass_pause
}

/// The keys of the screen-lock shortcut.
pub open spec fn lock_screen_keys() -> Set<VKey> {
    set![VKey { code: VK_L }, VKey { code: VK_LWIN }]
}

/// The keys of the secure-desktop shortcut.
pub open spec fn secure_screen_keys() -> Set<VKey> {
    set![VKey { code: VK_DELETE }, VKey { code: VK_CONTROL }, VKey { code: VK_MENU }]
}

/// The first two entries are the system shortcuts; they cannot be removed,
/// only overwritten by a hotkey with the same keys.
pub open spec fn seeded_slots<C>(reg: Seq<Hotkey<C>>) -> bool {
    &&& reg.len() >= 2
    &&& reg[0].key_set() == lock_screen_keys()
    &&& reg[1].key_set() == secure_screen_keys()
}

/// The system-shortcut entry with the same keys as `h`, if any.
pub open spec fn seeded_slot_of<C, D>(reg: Seq<Hotkey<C>>, h: Hotkey<D>) -> Option<int> {
    if reg.len() >= 1 && reg[0].same_identity(&h) {
        Some(0)
    } else if reg.len() >= 2 && reg[1].same_identity(&h) {
        Some(1)
    } else {
        None
    }
}

/// Every entry is well formed and no two entries have the same keys.
pub open spec fn entries_wf<C>(reg: Seq<Hotkey<C>>) -> bool {
    &&& forall|i: int| 0 <= i < reg.len() ==> (#[trigger] reg[i]).wf()
    &&& identities_unique(reg)
}

pub open spec fn registry_wf<C>(reg: Seq<Hotkey<C>>) -> bool {
    &&& entries_wf(reg)
    &&& seeded_slots(reg)
}

/// The registry after the hotkeys with handle `id` are removed: the system
/// shortcuts stay, every other hotkey with that handle goes, order kept.
pub open spec fn unregistered<C>(reg: Seq<Hotkey<C>>, id: u64) -> Seq<Hotkey<C>> {
    reg.subrange(0, 2) + without_id(reg.subrange(2, reg.len() as int), id)
}

proof fn lemma_first_match_range<C>(reg: Seq<Hotkey<C>>, vk: u16, s: Seq<VKey>, paused: bool)
    ensures
        match first_match(reg, vk, s, paused) {
            Some(i) => 0 <= i < reg.len() && eligible(reg[i], vk, s, paused),
            None => forall|j: int| 0 <= j < reg.len() ==> !eligible(#[trigger] reg[j], vk, s, paused),
        },
    decreases reg.len(),
{
    if reg.len() > 0 {
        lemma_first_match_range(reg.drop_last(), vk, s, paused);
        assert forall|j: int| 0 <= j < reg.len() - 1 implies reg.drop_last()[j] == reg[j] by {}
    }
}

proof fn lemma_first_match_extend<C>(reg: Seq<Hotkey<C>>, n: int, m: int, vk: u16, s: Seq<VKey>, paused: bool)
    requires
        0 <= n <= m <= reg.len(),
        first_match(reg.subrange(0, n), vk, s, paused) is Some,
    ensures
        first_match(reg.subrange(0, m), vk, s, paused) == first_match(reg.subrange(0, n), vk, s, paused),
    decreases m - n,
{
    if m > n {
        lemma_first_match_extend(reg, n, m - 1, vk, s, paused);
        assert(reg.subrange(0, m).drop_last() == reg.subrange(0, m - 1));
    }
}

proof fn lemma_without_id_props<C>(reg: Seq<Hotkey<C>>, id: u64)
    ensures
        forall|x: Hotkey<C>|
            #[trigger] without_id(reg, id).contains(x) <==> (reg.contains(x) && x.id() != id),
        entries_wf(reg) ==> entries_wf(without_id(reg, id)),
    decreases reg.len(),
{
    if reg.len() > 0 {
        let t = reg.subrange(1, reg.len() as int);
        lemma_without_id_props(t, id);
        let w = without_id(t, id);
        assert(reg == seq![reg[0]] + t);
        assert forall|x: Hotkey<C>| reg.contains(x) <==> (x == reg[0] || t.contains(x)) by {
            if reg.contains(x) {
                let i = choose|i: int| 0 <= i < reg.len() && reg[i] == x;
                if i > 0 {
                    assert(t[i - 1] == x);
                }
            }
            if t.contains(x) {
                let i = choose|i: int| 0 <= i < t.len() && t[i] == x;
                assert(reg[i + 1] == x);
            }
        }
        if reg[0].id() != id {
            let r = seq![reg[0]] + w;
            assert forall|x: Hotkey<C>| r.contains(x) <==> (x == reg[0] || w.contains(x)) by {
                if r.contains(x) {
                    let i = choose|i: int| 0 <= i < r.len() && r[i] == x;
                    if i > 0 {
                        assert(w[i - 1] == x);
                    }
                }
                if w.contains(x) {
                    let i = choose|i: int| 0 <= i < w.len() && w[i] == x;
                    assert(r[i + 1] == x);
                }
                assert(r[0] == reg[0]);
            }
        }
        if entries_wf(reg) {
            assert(entries_wf(t)) by {
                assert forall|i: int| 0 <= i < t.len() implies (#[trigger] t[i]).wf() by {
                    assert(t[i] == reg[i + 1]);
                }
                assert forall|i: int, j: int| #![trigger t[i], t[j]] 0 <= i < j < t.len() implies !t[i].same_identity(&t[j]) by {
                    assert(t[i] == reg[i + 1] && t[j] == reg[j + 1]);
                }
            }
            if reg[0].id() != id {
                let r = seq![reg[0]] + w;
                assert forall|i: int| 0 <= i < r.len() implies (#[trigger] r[i]).wf() by {
                    if i > 0 {
                        assert(r[i] == w[i - 1]);
                        assert(w.contains(w[i - 1]));
                        assert(t.contains(w[i - 1]));
                        let k = choose|k: int| 0 <= k < t.len() && t[k] == w[i - 1];
                        assert(t[k] == reg[k + 1]);
                    }
                }
                assert forall|i: int, j: int| #![trigger r[i], r[j]] 0 <= i < j < r.len() implies !r[i].same_identity(&r[j]) by {
                    if i > 0 {
                        assert(r[i] == w[i - 1] && r[j] == w[j - 1]);
                    } else {
                        assert(r[j] == w[j - 1]);
                        assert(w.contains(w[j - 1]));
                        assert(t.contains(w[j - 1]));
                        let k = choose|k: int| 0 <= k < t.len() && t[k] == w[j - 1];
                        assert(t[k] == reg[k + 1]);
                        assert(!reg[0].same_identity(&reg[k + 1]));
                    }
                }
            }
        }
    }
}

proof fn lemma_unregistered_wf<C>(reg: Seq<Hotkey<C>>, id: u64)
    requires
        registry_wf(reg),
    ensures
        registry_wf(unregistered(reg, id)),
        forall|x: Hotkey<C>|
            #[trigger] without_id(reg.subrange(2, reg.len() as int), id).contains(x) ==> x.id()
                != id,
{
    let t = reg.subrange(2, reg.len() as int);
    let w = without_id(t, id);
    let r = unregistered(reg, id);
    assert(entries_wf(t)) by {
        assert forall|i: int| 0 <= i < t.len() implies (#[trigger] t[i]).wf() by {
            assert(t[i] == reg[i + 2]);
        }
        assert forall|i: int, j: int| #![trigger t[i], t[j]] 0 <= i < j < t.len() implies !t[i].same_identity(&t[j]) by {
            assert(t[i] == reg[i + 2] && t[j] == reg[j + 2]);
        }
    }
    lemma_without_id_props(t, id);
    assert forall|i: int| 0 <= i < r.len() implies (#[trigger] r[i]).wf() by {
        if i < 2 {
            assert(r[i] == reg[i]);
        } else {
            assert(r[i] == w[i - 2]);
            assert(w.contains(w[i - 2]));
        }
    }
    assert forall|i: int, j: int| #![trigger r[i], r[j]] 0 <= i < j < r.len() implies !r[i].same_identity(&r[j]) by {
        if j < 2 {
            assert(r[i] == reg[i] && r[j] == reg[j]);
        } else if i >= 2 {
            assert(r[i] == w[i - 2] && r[j] == w[j - 2]);
        } else {
            assert(r[i] == reg[i]);
            assert(r[j] == w[j - 2]);
            assert(w.contains(w[j - 2]));
            assert(t.contains(w[j - 2]));
            let k = choose|k: int| 0 <= k < t.len() && t[k] == w[j - 2];
            assert(t[k] == reg[k + 2]);
            assert(!reg[i].same_identity(&reg[k + 2]));
        }
    }
    assert(r[0] == reg[0] && r[1] == reg[1]);
}

/// Two hotkeys whose keys are disjoint and whose triggers are not modifier
/// keys never both match one keyboard state.
pub proof fn lemma_no_ambiguous_match<C, D>(a: Hotkey<C>, b: Hotkey<D>, s: Seq<VKey>)
    requires
        a.key_set().disjoint(b.key_set()),
        !is_modifier_code(a.trigger_key.code),
        !is_modifier_code(b.trigger_key.code),
    ensures
        !(a.matches(s) && b.matches(s)),
{
    assert(a.key_set().contains(a.trigger_key));
    assert(b.key_set().contains(b.trigger_key));
}

/// Once a hotkey that is not a system shortcut has been appended, every
/// hotkey with the same keys counts as registered and matches no system
/// shortcut: registering it again fails with `HotKeyAlreadyRegistered`.
pub proof fn lemma_register_twice_conflicts<C>(reg: Seq<Hotkey<C>>, h: Hotkey<C>, again: Hotkey<C>)
    requires
        registry_wf(reg),
        seeded_slot_of(reg, h) is None,
        h.same_identity(&again),
    ensures
        registered(reg.push(h), again),
        seeded_slot_of(reg.push(h), again) is None,
{
    assert(reg.push(h)[reg.len() as int] == h);
    assert(reg.push(h)[0] == reg[0]);
    assert(reg.push(h)[1] == reg[1]);
}

/// A hotkey and the one that swaps its trigger with its single modifier
/// have the same identity.
pub proof fn lemma_swapped_pair_same_identity<C, D>(a: Hotkey<C>, b: Hotkey<D>)
    requires
        a.modifier_set() == set![b.trigger_key],
        b.modifier_set() == set![a.trigger_key],
    ensures
        a.same_identity(&b),
{
    assert(a.key_set() =~= b.key_set());
}

/// After the hotkeys with handle `id` are removed, no key event fires a
/// hotkey with that handle, unless `id` is the handle of a system shortcut,
/// which stays.
pub proof fn lemma_unregistered_not_dispatched<C>(
    reg: Seq<Hotkey<C>>,
    id: u64,
    vk: u16,
    s: Seq<VKey>,
    paused: bool,
)
    requires
        registry_wf(reg),
        reg[0].id() != id,
        reg[1].id() != id,
    ensures
        match first_match(unregistered(reg, id), vk, s, paused) {
            Some(i) => unregistered(reg, id)[i].id() != id,
            None => true,
        },
{
    let r = unregistered(reg, id);
    let w = without_id(reg.subrange(2, reg.len() as int), id);
    lemma_first_match_range(r, vk, s, paused);
    lemma_unregistered_wf(reg, id);
    if let Some(i) = first_match(r, vk, s, paused) {
        if i < 2 {
            assert(r[i] == reg[i]);
        } else {
            assert(r[i] == w[i - 2]);
            assert(w.contains(w[i - 2]));
        }
    }
}

/// While paused, exactly the hotkeys that bypass the pause can fire.
pub proof fn lemma_pause_gate<C>(h: Hotkey<C>, vk: u16, s: Seq<VKey>)
    ensures
        eligible(h, vk, s, true) <==> (h.bypass_pause && eligible(h, vk, s, false)),
{
}

/// The pause switch: while paused, only hotkeys that bypass the pause fire.
pub struct HotkeysPauseHandler {
    state: bool,
}

impl View for HotkeysPauseHandler {
    type V = bool;

    closed spec fn view(&self) -> bool {
        self.state
    }
}

impl HotkeysPauseHandler {
    pub fn new(paused: bool) -> (r: HotkeysPauseHandler)
        ensures
            r@ == paused,
    {
        HotkeysPauseHandler { state: paused }
    }

    /// Pauses when running, resumes when paused.
    pub fn toggle(&mut self)
        ensures
            final(self)@ == !old(self)@,
    {
        self.state = !self.state;
    }

    pub fn set(&mut self, state: bool)
        ensures
            final(self)@ == state,
    {
        self.state = state;
    }

    pub fn is_paused(&self) -> (r: bool)
        ensures
            r == self@,
    {
        self.state
    }
}

/// What the decision path does with one key event: the action handed back
/// to the hook, the callback to run on the executor (a hotkey's, or the one
/// to run when stealing ends), the handle of the hotkey that fired, and the
/// global listener to hand a copy of the event to.
pub struct Decision<C, L> {
    pub action: KeyAction,
    pub callback: Option<C>,
    pub matched: Option<u64>,
    pub listener: Option<L>,
}

/// Whether a swallowed key-down of `vk` must be replaced by a silent key.
pub fn needs_silent_key(vk: u16, state: &KeyboardState) -> (r: bool)
    ensures
        r == silent_needed(vk, state.keys()),
{
    if !state.is_down(VKey { code: VK_LWIN }) {
        return false;
    }
    if !(vk == VK_LWIN || vk == VK_RWIN) {
        return true;
    }
    let mut i: usize = 0;
    while i < state.pressing.len()
        invariant
            0 <= i <= state.pressing.len(),
            state.keys().contains(VKey { code: VK_LWIN }),
            is_windows_code(vk),
            forall|j: int| 0 <= j < i ==> is_windows_code(#[trigger] state.keys()[j].code),
        decreases state.pressing.len() - i,
    {
        if !state.pressing[i].is_windows_key() {
            assert(!is_windows_code(state.keys()[i as int].code));
            return true;
        }
        i += 1;
    }
    false
}

fn swallow(vk: u16, state: &KeyboardState) -> (r: KeyAction)
    ensures
        r == swallow_action(vk, state.keys()),
{
    if needs_silent_key(vk, state) {
        KeyAction::Replace
    } else {
        KeyAction::Block
    }
}

/// The hotkey registry with the control state, owned by one service
/// instance. Callbacks are handles of type `C`; the global listener is a
/// handle of type `L`.
pub struct HotkeyManager<C, L> {
    hotkeys: Vec<Hotkey<C>>,
    system_callback: C,
    pause: HotkeysPauseHandler,
    stealing: bool,
    on_free: Option<C>,
    listener: Option<L>,
}

impl<C: Clone, L: Clone> HotkeyManager<C, L> {
    /// The registered hotkeys in registration order.
    pub closed spec fn registry(&self) -> Seq<Hotkey<C>> {
        self.hotkeys@
    }

    pub closed spec fn paused(&self) -> bool {
        self.pause@
    }

    pub closed spec fn stealing(&self) -> bool {
        self.stealing
    }

    /// The callback of the two system shortcuts.
    pub closed spec fn system_callback(&self) -> C {
        self.system_callback
    }

    pub closed spec fn on_free(&self) -> Option<C> {
        self.on_free
    }

    pub closed spec fn listener(&self) -> Option<L> {
        self.listener
    }

    pub closed spec fn wf(&self) -> bool {
        registry_wf(self.hotkeys@)
    }

    /// The two system shortcuts, each with a copy of `callback`.
    fn get_initial_hotkeys(callback: &C) -> (r: Vec<Hotkey<C>>)
        ensures
            is_seeded(r@),
            registry_wf(r@),
            cloned(*callback, r@[0].callback),
            cloned(*callback, r@[1].callback),
    {
        let lock_mods: Vec<VKey> = vec![VKey { code: VK_LWIN }];
        let secure_mods: Vec<VKey> = vec![VKey { code: VK_CONTROL }, VKey { code: VK_MENU }];
        let lock_new = Hotkey::new(VKey { code: VK_L }, lock_mods.as_slice(), callback.clone());
        let ghost lock_set = lock_new.modifier_set();
        let lock_screen = lock_new.bypass_pause().behavior(TriggerBehavior::PassThrough);
        let secure_new = Hotkey::new(
            VKey { code: VK_DELETE },
            secure_mods.as_slice(),
            callback.clone(),
        );
        let ghost secure_set = secure_new.modifier_set();
        let secure_screen = secure_new.bypass_pause().behavior(TriggerBehavior::PassThrough);
        let mut hotkeys: Vec<Hotkey<C>> = Vec::new();
        hotkeys.push(lock_screen);
        hotkeys.push(secure_screen);
        proof {
            let a = hotkeys@[0];
            let b = hotkeys@[1];
            assert forall|x: VKey| lock_mods@.contains(x) <==> x == VKey { code: VK_LWIN } by {
                if x == (VKey { code: VK_LWIN }) {
                    assert(lock_mods@[0] == x);
                }
            }
            assert forall|x: VKey|
                secure_mods@.contains(x) <==> (x == VKey { code: VK_CONTROL } || x == VKey {
                    code: VK_MENU,
                }) by {
                if x == (VKey { code: VK_CONTROL }) {
                    assert(secure_mods@[0] == x);
                }
                if x == (VKey { code: VK_MENU }) {
                    assert(secure_mods@[1] == x);
                }
            }
            assert(lock_set =~= set![VKey { code: VK_LWIN }]);
            assert(secure_set =~= set![VKey { code: VK_CONTROL }, VKey { code: VK_MENU }]);
            assert(a.modifier_set() =~= set![VKey { code: VK_LWIN }]);
            assert(b.modifier_set() =~= set![VKey { code: VK_CONTROL }, VKey { code: VK_MENU }]);
            assert(a.key_set() =~= lock_screen_keys());
            assert(b.key_set() =~= secure_screen_keys());
            assert(!b.key_set().contains(VKey { code: VK_L }));
            assert(a.key_set().contains(VKey { code: VK_L }));
        }
        hotkeys
    }

    /// A manager whose registry holds the two system shortcuts, each firing
    /// `system_callback`; not paused, not stealing, no listener.
    pub fn new(system_callback: C) -> (r: HotkeyManager<C, L>)
        ensures
            r.wf(),
            is_seeded(r.registry()),
            r.system_callback() == system_callback,
            cloned(system_callback, r.registry()[0].callback),
            cloned(system_callback, r.registry()[1].callback),
            !r.paused(),
            !r.stealing(),
            r.on_free() is None,
            r.listener() is None,
    {
        let hotkeys = Self::get_initial_hotkeys(&system_callback);
        HotkeyManager {
            hotkeys,
            system_callback,
            pause: HotkeysPauseHandler::new(false),
            stealing: false,
            on_free: None,
            listener: None,
        }
    }

    /// The number of registered hotkeys, the system shortcuts included.
    pub fn hotkey_count(&self) -> (r: usize)
        ensures
            r == self.registry().len(),
    {
        self.hotkeys.len()
    }

    pub fn is_stealing_mode(&self) -> (r: bool)
        ensures
            r == self.stealing(),
    {
        self.stealing
    }

    /// Routes every key to the stealing path until Escape is pressed or
    /// `free_keyboard` is called; `on_free` runs when that happens.
    pub fn steal_keyboard(&mut self, on_free: C)
        ensures
            final(self).stealing(),
            final(self).on_free() == Some(on_free),
            final(self).registry() == old(self).registry(),
            final(self).paused() == old(self).paused(),
            final(self).system_callback() == old(self).system_callback(),
            final(self).listener() == old(self).listener(),
            final(self).wf() == old(self).wf(),
    {
        self.stealing = true;
        self.on_free = Some(on_free);
    }

    /// Leaves stealing mode; returns the callback that must now run.
    pub fn free_keyboard(&mut self) -> (r: Option<C>)
        ensures
            !final(self).stealing(),
            final(self).on_free() is None,
            r == old(self).on_free(),
            final(self).registry() == old(self).registry(),
            final(self).paused() == old(self).paused(),
            final(self).system_callback() == old(self).system_callback(),
            final(self).listener() == old(self).listener(),
            final(self).wf() == old(self).wf(),
    {
        self.stealing = false;
        let cb = self.on_free.take();
        cb
    }

    /// Registers `hotkey` and returns its handle. Fails when its trigger is
    /// the "no mapping" code, or when a hotkey with the same keys is
    /// registered; the registry is then unchanged. A hotkey with the keys
    /// of a system shortcut overwrites that shortcut in place.
    pub fn register_hotkey(&mut self, hotkey: Hotkey<C>) -> (r: Result<u64, WHKError>)
        requires
            old(self).wf(),
            hotkey.wf(),
        ensures
            final(self).wf(),
            hotkey.trigger_key.code == VK_NONE ==> r == Err::<u64, WHKError>(
                WHKError::HotkeyInvalidTriggerKey(hotkey.trigger_key),
            ) && final(self).registry() == old(self).registry(),
            hotkey.trigger_key.code != VK_NONE ==> match seeded_slot_of(old(self).registry(), hotkey) {
                Some(j) => r == Ok::<u64, WHKError>(hotkey.id()) && final(self).registry()
                    == old(self).registry().update(j, hotkey),
                None => if registered(old(self).registry(), hotkey) {
                    r == Err::<u64, WHKError>(WHKError::HotKeyAlreadyRegistered) && final(self).registry()
                        == old(self).registry()
                } else {
                    r == Ok::<u64, WHKError>(hotkey.id()) && final(self).registry() == old(self).registry().push(hotkey)
                },
            },
            final(self).paused() == old(self).paused(),
            final(self).system_callback() == old(self).system_callback(),
            final(self).stealing() == old(self).stealing(),
            final(self).on_free() == old(self).on_free(),
            final(self).listener() == old(self).listener(),
    {
        if hotkey.trigger_key.code == VK_NONE {
            return Err(WHKError::HotkeyInvalidTriggerKey(hotkey.trigger_key));
        }
        let id = hotkey.as_hash();
        let ghost before = self.hotkeys@;
        let mut slot: usize = 2;
        if self.hotkeys[0].same_combination(&hotkey) {
            slot = 0;
        } else if self.hotkeys[1].same_combination(&hotkey) {
            slot = 1;
        }
        if slot < 2 {
            self.hotkeys.set(slot, hotkey);
            proof {
                let reg = self.hotkeys@;
                assert(reg == before.update(slot as int, hotkey));
                assert(hotkey.key_set() == before[slot as int].key_set());
                assert forall|k: int| 0 <= k < reg.len() implies (#[trigger] reg[k]).wf() by {
                    if k != slot {
                        assert(reg[k] == before[k]);
                    }
                }
                assert forall|a: int, b: int| #![trigger reg[a], reg[b]] 0 <= a < b < reg.len() implies !reg[a].same_identity(&reg[b]) by {
                    assert(reg[a].key_set() == before[a].key_set());
                    assert(reg[b].key_set() == before[b].key_set());
                    assert(!before[a].same_identity(&before[b]));
                }
                assert(reg[0].key_set() == before[0].key_set());
                assert(reg[1].key_set() == before[1].key_set());
            }
            return Ok(id);
        }
        let mut i: usize = 2;
        while i < self.hotkeys.len()
            invariant
                2 <= i <= self.hotkeys.len(),
                self.hotkeys@ == before,
                before == old(self).hotkeys@,
                self.pause == old(self).pause,
                self.system_callback == old(self).system_callback,
                self.stealing == old(self).stealing,
                self.on_free == old(self).on_free,
                self.listener == old(self).listener,
                registry_wf(self.hotkeys@),
                hotkey.wf(),
                hotkey.trigger_key.code != VK_NONE,
                !self.hotkeys@[0].same_identity(&hotkey),
                !self.hotkeys@[1].same_identity(&hotkey),
                forall|j: int| 2 <= j < i ==> !(#[trigger] self.hotkeys@[j]).same_identity(&hotkey),
            decreases self.hotkeys.len() - i,
        {
            if self.hotkeys[i].same_combination(&hotkey) {
                assert(registered(before, hotkey));
                return Err(WHKError::HotKeyAlreadyRegistered);
            }
            i += 1;
        }
        assert(!registered(before, hotkey)) by {
            assert forall|j: int| 0 <= j < before.len() implies !(#[trigger] before[j]).same_identity(&hotkey) by {
                if j >= 2 {
                    assert(!self.hotkeys@[j].same_identity(&hotkey));
                }
            }
        }
        self.hotkeys.push(hotkey);
        proof {
            let reg = self.hotkeys@;
            assert(reg == before.push(hotkey));
            assert forall|k: int| 0 <= k < reg.len() implies (#[trigger] reg[k]).wf() by {
                if k < before.len() {
                    assert(reg[k] == before[k]);
                }
            }
            assert forall|a: int, b: int| #![trigger reg[a], reg[b]] 0 <= a < b < reg.len() implies !reg[a].same_identity(&reg[b]) by {
                assert(reg[a] == before[a]);
                if b < before.len() {
                    assert(reg[b] == before[b]);
                } else {
                    assert(!before[a].same_identity(&hotkey));
                }
            }
            assert(reg[0] == before[0] && reg[1] == before[1]);
        }
        Ok(id)
    }

    /// Removes every hotkey whose handle is `hotkey_id`, except the two
    /// system shortcuts, which always stay; an unknown handle changes
    /// nothing.
    pub fn unregister_hotkey(&mut self, hotkey_id: u64)
        requires
            old(self).wf(),
        ensures
            final(self).wf(),
            final(self).registry() == unregistered(old(self).registry(), hotkey_id),
            final(self).paused() == old(self).paused(),
            final(self).system_callback() == old(self).system_callback(),
            final(self).stealing() == old(self).stealing(),
            final(self).on_free() == old(self).on_free(),
            final(self).listener() == old(self).listener(),
    {
        let ghost reg = self.hotkeys@;
        let len = self.hotkeys.len();
        let mut i: usize = len;
        assert(reg.subrange(len as int, len as int).len() == 0);
        assert(reg == reg.subrange(0, len as int) + without_id(reg.subrange(len as int, len as int), hotkey_id));
        while i > 2
            invariant
                2 <= i <= len,
                len == reg.len(),
                registry_wf(reg),
                self.pause == old(self).pause,
                self.system_callback == old(self).system_callback,
                self.stealing == old(self).stealing,
                self.on_free == old(self).on_free,
                self.listener == old(self).listener,
                self.hotkeys@ == reg.subrange(0, i as int) + without_id(
                    reg.subrange(i as int, len as int),
                    hotkey_id,
                ),
            decreases i,
        {
            i -= 1;
            let ghost tail = reg.subrange(i as int, len as int);
            assert(tail.subrange(1, tail.len() as int) == reg.subrange(i + 1, len as int));
            assert(tail[0] == reg[i as int]);
            assert(self.hotkeys@[i as int] == reg[i as int]);
            if self.hotkeys[i].as_hash() == hotkey_id {
                self.hotkeys.remove(i);
                assert(self.hotkeys@ =~= reg.subrange(0, i as int) + without_id(tail, hotkey_id));
            } else {
                assert(self.hotkeys@ =~= reg.subrange(0, i as int) + without_id(tail, hotkey_id));
            }
        }
        proof {
            lemma_unregistered_wf(reg, hotkey_id);
        }
    }

    /// Resets the registry to the two system shortcuts.
    pub fn unregister_all(&mut self)
        ensures
            final(self).wf(),
            is_seeded(final(self).registry()),
            final(self).system_callback() == old(self).system_callback(),
            cloned(final(self).system_callback(), final(self).registry()[0].callback),
            cloned(final(self).system_callback(), final(self).registry()[1].callback),
            final(self).paused() == old(self).paused(),
            final(self).stealing() == old(self).stealing(),
            final(self).on_free() == old(self).on_free(),
            final(self).listener() == old(self).listener(),
    {
        self.hotkeys = Self::get_initial_hotkeys(&self.system_callback);
    }

    /// Installs the listener that receives a copy of every key event.
    pub fn set_global_keyboard_listener(&mut self, cb: L)
        ensures
            final(self).listener() == Some(cb),
            final(self).registry() == old(self).registry(),
            final(self).paused() == old(self).paused(),
            final(self).system_callback() == old(self).system_callback(),
            final(self).stealing() == old(self).stealing(),
            final(self).on_free() == old(self).on_free(),
            final(self).wf() == old(self).wf(),
    {
        self.listener = Some(cb);
    }

    pub fn remove_global_keyboard_listener(&mut self)
        ensures
            final(self).listener() is None,
            final(self).registry() == old(self).registry(),
            final(self).paused() == old(self).paused(),
            final(self).system_callback() == old(self).system_callback(),
            final(self).stealing() == old(self).stealing(),
            final(self).on_free() == old(self).on_free(),
            final(self).wf() == old(self).wf(),
    {
        self.listener = None;
    }

    /// The decision `r` for `event`, taken by `old`, which becomes `new`:
    /// the contract of `process_keyboard_event`.
    pub open spec fn decides(old: Self, new: Self, event: KeyboardInputEvent, r: Decision<C, L>) -> bool {
        &&& new.registry() == old.registry()
        &&& new.paused() == old.paused()
        &&& new.system_callback() == old.system_callback()
        &&& new.listener() == old.listener()
        &&& r.listener is Some <==> old.listener() is Some
        &&& r.listener is Some ==> cloned(old.listener()->0, r.listener->0)
        &&& match event {
                KeyboardInputEvent::KeyUp { .. } => {
                    &&& r.action == KeyAction::Allow
                    &&& r.callback is None
                    &&& r.matched is None
                    &&& new.stealing() == old.stealing()
                    &&& new.on_free() == old.on_free()
                },
                KeyboardInputEvent::KeyDown { vk_code, state } => if old.stealing() {
                    &&& r.action == swallow_action(vk_code, state.keys())
                    &&& r.matched is None
                    &&& vk_code == VK_ESCAPE ==> !new.stealing() && new.on_free() is None
                        && r.callback == old.on_free()
                    &&& vk_code != VK_ESCAPE ==> new.stealing() && new.on_free()
                        == old.on_free() && r.callback is None
                } else {
                    &&& !new.stealing()
                    &&& new.on_free() == old.on_free()
                    &&& match first_match(old.registry(), vk_code, state.keys(), old.paused()) {
                        Some(i) => {
                            &&& r.matched == Some(old.registry()[i].id())
                            &&& r.callback is Some
                            &&& cloned(old.registry()[i].callback, r.callback->0)
                            &&& r.action == hit_action(old.registry()[i].behaviour, vk_code, state.keys())
                        },
                        None => r.action == KeyAction::Allow && r.callback is None && r.matched is None,
                    }
                },
            }
    }

    /// The handle of the first hotkey, in registration order, that fires on
    /// a key-down of `vk` with `state`, and a copy of its callback.
    fn find_hit(&self, vk: u16, state: &KeyboardState) -> (r: Option<(usize, u64)>)
        requires
            self.wf(),
        ensures
            match r {
                Some((k, id)) => {
                    &&& k < self.registry().len()
                    &&& first_match(self.registry(), vk, state.keys(), self.paused()) == Some(k as int)
                    &&& id == self.registry()[k as int].id()
                },
                None => first_match(self.registry(), vk, state.keys(), self.paused()) is None,
            },
    {
        proof {
            lemma_first_match_range(self.hotkeys@, vk, state.keys(), self.paused());
        }
        let paused = self.pause.is_paused();
        let ghost reg = self.hotkeys@;
        let mut i: usize = 0;
        while i < self.hotkeys.len()
            invariant
                0 <= i <= self.hotkeys.len(),
                reg == self.hotkeys@,
                registry_wf(reg),
                paused == self.paused(),
                first_match(reg.subrange(0, i as int), vk, state.keys(), paused) is None,
            decreases self.hotkeys.len() - i,
        {
            let hotkey = &self.hotkeys[i];
            assert(reg.subrange(0, i + 1).drop_last() == reg.subrange(0, i as int));
            if hotkey.trigger_key.code == vk && (!paused || hotkey.bypass_pause)
                && hotkey.is_trigger_state(state) {
                proof {
                    lemma_first_match_extend(reg, i + 1, reg.len() as int, vk, state.keys(), paused);
                    assert(reg.subrange(0, reg.len() as int) == reg);
                }
                return Some((i, hotkey.as_hash()));
            }
            i += 1;
        }
        assert(reg.subrange(0, reg.len() as int) == reg);
        None
    }

    /// Decides what happens to one key event.
    ///
    /// A key-up is allowed. While stealing, every key-down is swallowed, and
    /// Escape also ends stealing and hands back its callback. Otherwise the
    /// first hotkey in registration order that fires decides: `PassThrough`
    /// allows the event, `StopPropagation` swallows it; its callback is
    /// handed back. With no such hotkey the event is allowed.
    pub fn process_keyboard_event(&mut self, event: &KeyboardInputEvent) -> (r: Decision<C, L>)
        requires
            old(self).wf(),
        ensures
            final(self).wf(),
            Self::decides(*old(self), *final(self), *event, r),
    {
        let listener = match &self.listener {
            Some(l) => Some(l.clone()),
            None => None,
        };
        match event {
            KeyboardInputEvent::KeyUp { .. } => {
                Decision { action: KeyAction::Allow, callback: None, matched: None, listener }
            },
            KeyboardInputEvent::KeyDown { vk_code, state } => {
                if self.stealing {
                    let callback = if *vk_code == VK_ESCAPE {
                        self.free_keyboard()
                    } else {
                        None
                    };
                    let action = swallow(*vk_code, state);
                    return Decision { action, callback, matched: None, listener };
                }
                match self.find_hit(*vk_code, state) {
                    Some((i, id)) => {
                        let hotkey = &self.hotkeys[i];
                        let action = match hotkey.behaviour {
                            TriggerBehavior::PassThrough => KeyAction::Allow,
                            TriggerBehavior::StopPropagation => swallow(*vk_code, state),
                        };
                        proof {
                            lemma_first_match_range(self.hotkeys@, *vk_code, state.keys(), self.paused());
                            assert(first_match(self.registry(), *vk_code, state.keys(), self.paused()) == Some(i as int));
                            assert(action == hit_action(self.hotkeys@[i as int].behaviour, *vk_code, state.keys()));
                        }
                        Decision {
                            action,
                            callback: Some(hotkey.callback.clone()),
                            matched: Some(id),
                            listener,
                        }
                    },
                    None => Decision { action: KeyAction::Allow, callback: None, matched: None, listener },
                }
            },
        }
    }

    /// One turn of the decision loop: `None` when the loop must stop,
    /// otherwise the decision for the key event.
    pub fn handle_loop_event(&mut self, event: &EventLoopEvent) -> (r: Option<Decision<C, L>>)
        requires
            old(self).wf(),
        ensures
            final(self).wf(),
            final(self).registry() == old(self).registry(),
            final(self).paused() == old(self).paused(),
            final(self).system_callback() == old(self).system_callback(),
            final(self).listener() == old(self).listener(),
            (r is None) <==> (*event == EventLoopEvent::Stop),
            forall|e: KeyboardInputEvent|
                *event == EventLoopEvent::Keyboard(e) ==> r is Some && Self::decides(
                    *old(self),
                    *final(self),
                    e,
                    r->0,
                ),
            *event == EventLoopEvent::Stop ==> final(self).stealing() == old(self).stealing()
                && final(self).on_free() == old(self).on_free(),
    {
        match event {
            EventLoopEvent::Stop => None,
            EventLoopEvent::Keyboard(e) => Some(self.process_keyboard_event(e)),
        }
    }

    /// The pause switch of this manager.
    pub fn pause_handler(&mut self) -> (r: &mut HotkeysPauseHandler)
        ensures
            r@ == old(self).paused(),
            final(self).paused() == final(r)@,
            final(self).registry() == old(self).registry(),
            final(self).system_callback() == old(self).system_callback(),
            final(self).stealing() == old(self).stealing(),
            final(self).on_free() == old(self).on_free(),
            final(self).listener() == old(self).listener(),
            final(self).wf() == old(self).wf(),
    {
        &mut self.pause
    }
}

} // verus!
