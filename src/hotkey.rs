//! A hotkey: a trigger key, a set of modifier keys, what happens to the key
//! event when it fires, and the callback handle to run.
use vstd::prelude::*;
use crate::vkey::{VKey, is_modifier_code};
use crate::state::{
    KeyboardState, pressed, without, shift_down, control_down, menu_down, win_down,
    lemma_without_contains, lemma_push_contains,
};

verus! {

/// What happens to the key event after the hotkey fires.
#[derive(Debug, Clone, Copy, PartialEq, Eq, Structural)]
pub enum TriggerBehavior {
    /// The key event continues to other applications.
    PassThrough,
    /// The key event is consumed.
    StopPropagation,
}

pub open spec fn strictly_sorted(s: Seq<VKey>) -> bool {
    forall|i: int, j: int| 0 <= i < j < s.len() ==> s[i].code < s[j].code
}

/// The one strictly sorted sequence that holds exactly the keys of `ks`.
pub open spec fn canonical(ks: Set<VKey>) -> Seq<VKey> {
    choose|q: Seq<VKey>| strictly_sorted(q) && q.to_set() == ks
}

/// The state reached from `s` by pressing the keys of `ks` in order.
pub open spec fn presses(s: Seq<VKey>, ks: Seq<VKey>) -> Seq<VKey>
    decreases ks.len(),
{
    if ks.len() == 0 {
        s
    } else {
        pressed(presses(s, ks.drop_last()), ks.last())
    }
}

/// Names the result of std's default hasher (SipHash with fixed keys) on a
/// sequence of key codes.
pub uninterp spec fn combo_hash(codes: Seq<u16>) -> u64;

/// Relies on `BuildHasher::hash_one` with `BuildHasherDefault<DefaultHasher>`:
/// every default-built hasher starts from the same keys, so the hash depends
/// on the codes alone.
#[verifier::external_body]
fn hash_codes(codes: &Vec<u16>) -> (r: u64)
    ensures
        r == combo_hash(codes@),
{
    std::hash::BuildHasher::hash_one(
        &std::hash::BuildHasherDefault::<std::collections::hash_map::DefaultHasher>::default(),
        codes,
    )
}

proof fn lemma_to_set_contains(s: Seq<VKey>, x: VKey)
    ensures
        s.to_set().contains(x) <==> s.contains(x),
{
}

/// Two strictly sorted sequences with the same keys are equal.
pub proof fn lemma_sorted_unique(a: Seq<VKey>, b: Seq<VKey>)
    requires
        strictly_sorted(a),
        strictly_sorted(b),
        a.to_set() == b.to_set(),
    ensures
        a == b,
    decreases a.len(),
{
    if a.len() == 0 {
        if b.len() > 0 {
            assert(b.to_set().contains(b[0]));
        }
    } else {
        assert(a.to_set().contains(a[0]));
        assert(b.contains(a[0]));
        let j = choose|j: int| 0 <= j < b.len() && b[j] == a[0];
        assert(b.to_set().contains(b[0]));
        assert(a.contains(b[0]));
        let i = choose|i: int| 0 <= i < a.len() && a[i] == b[0];
        assert(a[0] == b[0]);
        let ta = a.subrange(1, a.len() as int);
        let tb = b.subrange(1, b.len() as int);
        assert forall|x: VKey| ta.to_set().contains(x) <==> tb.to_set().contains(x) by {
            if ta.contains(x) {
                let k = choose|k: int| 0 <= k < ta.len() && ta[k] == x;
                assert(a[k + 1] == x);
                assert(a.contains(x));
                assert(b.to_set().contains(x));
                let m = choose|m: int| 0 <= m < b.len() && b[m] == x;
                assert(m != 0);
                assert(tb[m - 1] == x);
            }
            if tb.contains(x) {
                let k = choose|k: int| 0 <= k < tb.len() && tb[k] == x;
                assert(b[k + 1] == x);
                assert(b.contains(x));
                assert(a.to_set().contains(x));
                let m = choose|m: int| 0 <= m < a.len() && a[m] == x;
                assert(m != 0);
                assert(ta[m - 1] == x);
            }
        }
        assert(ta.to_set() == tb.to_set());
        lemma_sorted_unique(ta, tb);
        assert(a == seq![a[0]] + ta);
        assert(b == seq![b[0]] + tb);
    }
}

proof fn lemma_presses_contains(s: Seq<VKey>, ks: Seq<VKey>, x: VKey)
    ensures
        presses(s, ks).contains(x) <==> (s.contains(x) || ks.contains(x)),
    decreases ks.len(),
{
    if ks.len() > 0 {
        lemma_presses_contains(s, ks.drop_last(), x);
        let p = presses(s, ks.drop_last());
        lemma_push_contains(without(p, ks.last()), ks.last(), x);
        lemma_without_contains(p, ks.last(), x);
        assert(ks == ks.drop_last().push(ks.last()));
        lemma_push_contains(ks.drop_last(), ks.last(), x);
    }
}

/// The state that `generate_expected_keyboard_state` builds holds exactly
/// the keys of the hotkey.
pub proof fn lemma_expected_keys_are_key_set<C>(h: Hotkey<C>, x: VKey)
    ensures
        h.expected_keys().contains(x) <==> h.key_set().contains(x),
{
    lemma_presses_contains(seq![h.trigger_key], h.modifiers@, x);
    lemma_push_contains(Seq::<VKey>::empty(), h.trigger_key, x);
    assert(seq![h.trigger_key] == Seq::<VKey>::empty().push(h.trigger_key));
}

/// A strictly sorted copy of `v` with `k` added.
fn insert_sorted(v: &Vec<VKey>, k: VKey) -> (r: Vec<VKey>)
    requires
        strictly_sorted(v@),
    ensures
        strictly_sorted(r@),
        forall|x: VKey| r@.contains(x) <==> (v@.contains(x) || x == k),
{
    let mut out: Vec<VKey> = Vec::new();
    let mut i: usize = 0;
    while i < v.len() && v[i].code < k.code
        invariant
            0 <= i <= v.len(),
            out@ == v@.subrange(0, i as int),
            forall|j: int| 0 <= j < i ==> v@[j].code < k.code,
        decreases v.len() - i,
    {
        out.push(v[i]);
        i += 1;
    }
    let lo: usize = i;
    out.push(k);
    if i < v.len() && v[i].code == k.code {
        i += 1;
    }
    let hi: usize = i;
    while i < v.len()
        invariant
            lo <= hi <= i <= v.len(),
            out@ == v@.subrange(0, lo as int).push(k) + v@.subrange(hi as int, i as int),
            forall|j: int| hi <= j < v.len() ==> v@[j].code > k.code,
            forall|j: int| lo <= j < hi ==> v@[j] == k,
        decreases v.len() - i,
    {
        out.push(v[i]);
        i += 1;
        assert(out@ == v@.subrange(0, lo as int).push(k) + v@.subrange(hi as int, i as int));
    }
    proof {
        assert(out@.len() == lo + 1 + (v.len() - hi));
        assert forall|p: int| 0 <= p < out@.len() implies (p < lo ==> out@[p] == v@[p]) && (p
            == lo ==> out@[p] == k) && (p > lo ==> out@[p] == v@[p - lo - 1 + hi]) by {}
        assert forall|x: VKey| out@.contains(x) <==> (v@.contains(x) || x == k) by {
            if out@.contains(x) {
                let p = choose|p: int| 0 <= p < out@.len() && out@[p] == x;
                if p < lo {
                    assert(v@[p] == x);
                } else if p > lo {
                    assert(v@[p - lo - 1 + hi] == x);
                }
            }
            if v@.contains(x) {
                let p = choose|p: int| 0 <= p < v@.len() && v@[p] == x;
                if p < lo {
                    assert(out@[p] == x);
                } else if p >= hi {
                    assert(out@[p - hi + lo + 1] == x);
                } else {
                    assert(out@[lo as int] == x);
                }
            }
            if x == k {
                assert(out@[lo as int] == x);
            }
        }
    }
    out
}

/// A keyboard shortcut: `trigger_key` completes the combination, the keys
/// of `modifiers` (kept strictly sorted, so a set) must be held with it.
pub struct Hotkey<C> {
    pub trigger_key: VKey,
    pub modifiers: Vec<VKey>,
    pub behaviour: TriggerBehavior,
    pub bypass_pause: bool,
    pub callback: C,
}

impl<C> Hotkey<C> {
    pub open spec fn wf(&self) -> bool {
        strictly_sorted(self.modifiers@)
    }

    pub open spec fn modifier_set(&self) -> Set<VKey> {
        self.modifiers@.to_set()
    }

    /// Every key of the combination; two hotkeys with the same keys are the
    /// same hotkey, whichever of them is the trigger.
    pub open spec fn key_set(&self) -> Set<VKey> {
        self.modifier_set().insert(self.trigger_key)
    }

    pub open spec fn same_identity<D>(&self, other: &Hotkey<D>) -> bool {
        self.key_set() == other.key_set()
    }

    /// The identity handle of a hotkey.
    pub open spec fn id(&self) -> u64 {
        combo_hash(canonical(self.key_set()).map_values(|k: VKey| k.code))
    }

    /// The keys of the state that `generate_expected_keyboard_state` builds.
    pub open spec fn expected_keys(&self) -> Seq<VKey> {
        presses(seq![self.trigger_key], self.modifiers@)
    }

    /// The matching rule: a non-modifier trigger must be the most recent
    /// press; every non-modifier key of the combination must be down; and
    /// the four modifier groups must be down exactly as the combination has
    /// them.
    pub open spec fn matches(&self, s: Seq<VKey>) -> bool {
        &&& !is_modifier_code(self.trigger_key.code) ==> s.len() > 0 && s.last()
            == self.trigger_key
        &&& forall|i: int|
            0 <= i < self.expected_keys().len() && !is_modifier_code(
                #[trigger] self.expected_keys()[i].code,
            ) ==> s.contains(self.expected_keys()[i])
        &&& win_down(self.expected_keys()) == win_down(s)
        &&& menu_down(self.expected_keys()) == menu_down(s)
        &&& shift_down(self.expected_keys()) == shift_down(s)
        &&& control_down(self.expected_keys()) == control_down(s)
    }

    /// Creates a hotkey that stops propagation and obeys the pause state.
    pub fn new(trigger_key: VKey, modifiers: &[VKey], callback: C) -> (r: Hotkey<C>)
        ensures
            r.wf(),
            r.trigger_key == trigger_key,
            forall|x: VKey| #[trigger] r.modifier_set().contains(x) <==> modifiers@.contains(x),
            r.behaviour == TriggerBehavior::StopPropagation,
            !r.bypass_pause,
            r.callback == callback,
    {
        let mut set: Vec<VKey> = Vec::new();
        let mut i: usize = 0;
        while i < modifiers.len()
            invariant
                0 <= i <= modifiers.len(),
                strictly_sorted(set@),
                forall|x: VKey| set@.contains(x) <==> modifiers@.subrange(0, i as int).contains(x),
            decreases modifiers.len() - i,
        {
            let next = insert_sorted(&set, modifiers[i]);
            proof {
                assert forall|x: VKey|
                    next@.contains(x) <==> modifiers@.subrange(0, i + 1).contains(x) by {
                    lemma_push_contains(modifiers@.subrange(0, i as int), modifiers@[i as int], x);
                    assert(modifiers@.subrange(0, i + 1) == modifiers@.subrange(0, i as int).push(
                        modifiers@[i as int],
                    ));
                }
            }
            set = next;
            i += 1;
        }
        assert(modifiers@.subrange(0, modifiers.len() as int) == modifiers@);
        Hotkey {
            trigger_key,
            modifiers: set,
            behaviour: TriggerBehavior::StopPropagation,
            bypass_pause: false,
            callback,
        }
    }

    /// Sets what happens to the key event when the hotkey fires.
    pub fn behavior(self, action: TriggerBehavior) -> (r: Hotkey<C>)
        ensures
            r.behaviour == action,
            r.trigger_key == self.trigger_key,
            r.modifiers@ == self.modifiers@,
            r.bypass_pause == self.bypass_pause,
            r.callback == self.callback,
    {
        let mut h = self;
        h.behaviour = action;
        h
    }

    /// Makes the hotkey fire while hotkeys are paused.
    pub fn bypass_pause(self) -> (r: Hotkey<C>)
        ensures
            r.bypass_pause,
            r.behaviour == self.behaviour,
            r.trigger_key == self.trigger_key,
            r.modifiers@ == self.modifiers@,
            r.callback == self.callback,
    {
        let mut h = self;
        h.bypass_pause = true;
        h
    }

    /// The state of a keyboard on which exactly the hotkey's keys are down:
    /// the trigger first, then the modifiers.
    pub fn generate_expected_keyboard_state(&self) -> (r: KeyboardState)
        ensures
            r.keys() == self.expected_keys(),
            !r.sync_pending(),
    {
        let mut state = KeyboardState::new();
        state.keydown(self.trigger_key);
        assert(pressed(seq![], self.trigger_key) == seq![self.trigger_key]) by {
            assert(without(seq![], self.trigger_key) == Seq::<VKey>::empty());
        }
        let mut i: usize = 0;
        while i < self.modifiers.len()
            invariant
                0 <= i <= self.modifiers.len(),
                state.keys() == presses(seq![self.trigger_key], self.modifiers@.subrange(0, i as int)),
                !state.sync_pending(),
            decreases self.modifiers.len() - i,
        {
            state.keydown(self.modifiers[i]);
            assert(self.modifiers@.subrange(0, i + 1).drop_last() == self.modifiers@.subrange(
                0,
                i as int,
            ));
            i += 1;
        }
        assert(self.modifiers@.subrange(0, self.modifiers.len() as int) == self.modifiers@);
        state
    }

    /// The identity handle: a hash of the hotkey's keys in code order, the
    /// same for every hotkey with the same keys.
    pub fn as_hash(&self) -> (r: u64)
        requires
            self.wf(),
        ensures
            r == self.id(),
    {
        let keys = insert_sorted(&self.modifiers, self.trigger_key);
        proof {
            assert forall|x: VKey| keys@.to_set().contains(x) <==> self.key_set().contains(x) by {
                lemma_to_set_contains(keys@, x);
                lemma_to_set_contains(self.modifiers@, x);
            }
            assert(keys@.to_set() == self.key_set());
            let q = canonical(self.key_set());
            assert(strictly_sorted(q) && q.to_set() == self.key_set());
            lemma_sorted_unique(keys@, q);
        }
        let mut codes: Vec<u16> = Vec::new();
        let mut i: usize = 0;
        while i < keys.len()
            invariant
                0 <= i <= keys.len(),
                codes@ == keys@.subrange(0, i as int).map_values(|k: VKey| k.code),
            decreases keys.len() - i,
        {
            codes.push(keys[i].code);
            i += 1;
            assert(codes@ == keys@.subrange(0, i as int).map_values(|k: VKey| k.code));
        }
        assert(keys@.subrange(0, keys.len() as int) == keys@);
        hash_codes(&codes)
    }

    /// Whether `other` has the same keys as this hotkey.
    pub fn same_combination<D>(&self, other: &Hotkey<D>) -> (r: bool)
        requires
            self.wf(),
            other.wf(),
        ensures
            r == self.same_identity(other),
    {
        let a = insert_sorted(&self.modifiers, self.trigger_key);
        let b = insert_sorted(&other.modifiers, other.trigger_key);
        proof {
            assert forall|x: VKey| a@.to_set().contains(x) <==> self.key_set().contains(x) by {
                lemma_to_set_contains(a@, x);
                lemma_to_set_contains(self.modifiers@, x);
            }
            assert forall|x: VKey| b@.to_set().contains(x) <==> other.key_set().contains(x) by {
                lemma_to_set_contains(b@, x);
                lemma_to_set_contains(other.modifiers@, x);
            }
            assert(a@.to_set() == self.key_set());
            assert(b@.to_set() == other.key_set());
            if self.key_set() == other.key_set() {
                lemma_sorted_unique(a@, b@);
            }
            assert(self.same_identity(other) <==> a@ == b@);
        }
        if a.len() != b.len() {
            return false;
        }
        let mut i: usize = 0;
        while i < a.len()
            invariant
                0 <= i <= a.len(),
                a.len() == b.len(),
                forall|j: int| 0 <= j < i ==> a@[j] == b@[j],
                self.same_identity(other) <==> a@ == b@,
            decreases a.len() - i,
        {
            if a[i] != b[i] {
                assert(a@[i as int] != b@[i as int]);
                return false;
            }
            i += 1;
        }
        assert(a@ == b@);
        true
    }

    /// Whether `state` completes this hotkey.
    pub fn is_trigger_state(&self, state: &KeyboardState) -> (r: bool)
        ensures
            r == self.matches(state.keys()),
    {
        if !self.trigger_key.is_modifier_key() {
            let n = state.pressing.len();
            if n == 0 {
                return false;
            }
            if state.pressing[n - 1] != self.trigger_key {
                return false;
            }
        }
        let expected = self.generate_expected_keyboard_state();
        let mut i: usize = 0;
        while i < expected.pressing.len()
            invariant
                0 <= i <= expected.pressing.len(),
                expected.keys() == self.expected_keys(),
                forall|j: int|
                    0 <= j < i && !is_modifier_code(#[trigger] self.expected_keys()[j].code)
                        ==> state.keys().contains(self.expected_keys()[j]),
            decreases expected.pressing.len() - i,
        {
            let key = expected.pressing[i];
            if !key.is_modifier_key() && !state.is_down(key) {
                return false;
            }
            i += 1;
        }
        expected.is_win_pressed() == state.is_win_pressed() && expected.is_menu_pressed()
            == state.is_menu_pressed() && expected.is_shift_pressed() == state.is_shift_pressed()
            && expected.is_control_pressed() == state.is_control_pressed()
    }
}

} // verus!
