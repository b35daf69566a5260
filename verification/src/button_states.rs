//! What has been done with the buttons of a fixture group: for each button
//! group, its toggle state and the last press and release of each of its
//! buttons, in the order they happened. From that history the engine reads
//! which effects and colours are active.
//!
//! `T` is the time a button was last pressed or released and `R` the rate at
//! which its effect runs; the library stores both and never looks inside.
use vstd::prelude::*;

use indexmap::IndexMap;
use rustc_hash::FxHasher;
use std::hash::BuildHasherDefault;

use crate::button::{remove_first, toggle_spec, ButtonGroupId, ButtonType, GroupToggleState};
use crate::color::Color;
use crate::utils::lemma_first_index_of;
use crate::control::{ButtonCoordinate, ButtonGridLocation, InputEvent, NoteState};

verus! {

/// The last time a button went to `note_state`, and the rate of its effect.
/// A button is known by its place in its group.
#[derive(Debug, Clone, Copy)]
pub struct ButtonStateEntry<T, R> {
    pub index: usize,
    pub coordinate: ButtonCoordinate,
    pub note_state: NoteState,
    pub triggered_at: T,
    pub effect_rate: R,
}

/// A button group that has been touched: its type, its toggle state and the
/// states of its buttons, oldest first.
#[derive(Debug, Clone)]
pub struct GroupStates<T, R> {
    pub group: ButtonGroupId,
    pub button_type: ButtonType,
    pub toggle_state: GroupToggleState,
    pub states: Vec<ButtonStateEntry<T, R>>,
}

/// A group as a value: id, type, toggle state and button states.
pub type GroupView<T, R> = (ButtonGroupId, ButtonType, GroupToggleState, Seq<ButtonStateEntry<T, R>>);

/// The button groups in the order they were first touched. Each group occurs
/// once, and within a group each button occurs at most once per note state.
#[derive(Debug, Clone)]
pub struct ButtonStates<T, R> {
    groups: Vec<GroupStates<T, R>>,
}

pub open spec fn group_view<T, R>(g: GroupStates<T, R>) -> GroupView<T, R> {
    (g.group, g.button_type, g.toggle_state, g.states@)
}

impl<T, R> View for ButtonStates<T, R> {
    type V = Seq<GroupView<T, R>>;

    closed spec fn view(&self) -> Seq<GroupView<T, R>> {
        self.groups@.map_values(|g: GroupStates<T, R>| group_view(g))
    }
}

/// No two entries share a button and a note state.
pub open spec fn entries_unique<T, R>(states: Seq<ButtonStateEntry<T, R>>) -> bool {
    forall|i: int, j: int|
        0 <= i < j < states.len() ==> !(#[trigger] states[i].index == #[trigger] states[j].index
            && states[i].note_state == states[j].note_state)
}

/// Each group occurs once, and its entries are unique.
pub open spec fn states_well_formed<T, R>(gs: Seq<GroupView<T, R>>) -> bool {
    &&& forall|i: int, j: int| 0 <= i < j < gs.len() ==> (#[trigger] gs[i]).0 != (#[trigger] gs[j]).0
    &&& forall|i: int| 0 <= i < gs.len() ==> entries_unique((#[trigger] gs[i]).3)
}

/// Where group `id` is in the list, if it is there.
pub open spec fn group_pos<T, R>(gs: Seq<GroupView<T, R>>, id: ButtonGroupId) -> Option<int> {
    if exists|i: int| 0 <= i < gs.len() && (#[trigger] gs[i]).0 == id {
        Some(choose|i: int| 0 <= i < gs.len() && (#[trigger] gs[i]).0 == id)
    } else {
        None
    }
}

/// Where the entry of button `index` in `note_state` is, if there is one.
pub open spec fn entry_pos<T, R>(states: Seq<ButtonStateEntry<T, R>>, index: usize, note_state: NoteState) -> Option<int> {
    if exists|i: int| 0 <= i < states.len() && (#[trigger] states[i]).index == index && states[i].note_state == note_state {
        Some(choose|i: int| 0 <= i < states.len() && (#[trigger] states[i]).index == index && states[i].note_state == note_state)
    } else {
        None
    }
}

/// The states of a button group after one of its buttons went to
/// `note_state` at `now`: a press toggles the group with the button's
/// coordinate; the button's entry for that note state moves to the end with
/// the new time, keeping its rate, or `default_rate` for a new entry.
pub open spec fn group_after_update<T, R>(
    g: GroupView<T, R>,
    index: usize,
    coordinate: ButtonCoordinate,
    note_state: NoteState,
    now: T,
    default_rate: R,
) -> GroupView<T, R> {
    let toggle = if note_state == NoteState::On { toggle_spec(g.2, coordinate) } else { g.2 };
    let (rest, rate) = match entry_pos(g.3, index, note_state) {
        Some(p) => (g.3.remove(p), g.3[p].effect_rate),
        None => (g.3, default_rate),
    };
    let entry = ButtonStateEntry { index, coordinate, note_state, triggered_at: now, effect_rate: rate };
    (g.0, g.1, toggle, rest.push(entry))
}

/// The states after a button of `group` went to `note_state`; a group not
/// seen before is added at the end, untoggled and with no button states.
pub open spec fn update_spec<T, R>(
    gs: Seq<GroupView<T, R>>,
    group: ButtonGroupId,
    button_type: ButtonType,
    index: usize,
    coordinate: ButtonCoordinate,
    note_state: NoteState,
    now: T,
    default_rate: R,
) -> Seq<GroupView<T, R>> {
    match group_pos(gs, group) {
        Some(p) => gs.update(p, group_after_update(gs[p], index, coordinate, note_state, now, default_rate)),
        None => gs.push(
            group_after_update(
                (group, button_type, GroupToggleState::Off, Seq::empty()),
                index,
                coordinate,
                note_state,
                now,
                default_rate,
            ),
        ),
    }
}

proof fn lemma_group_pos<T, R>(gs: Seq<GroupView<T, R>>, id: ButtonGroupId, i: int)
    requires
        states_well_formed(gs),
        0 <= i < gs.len(),
        gs[i].0 == id,
    ensures
        group_pos(gs, id) == Some(i),
{
    let k = choose|k: int| 0 <= k < gs.len() && (#[trigger] gs[k]).0 == id;
    assert(gs[k].0 == id);
    if k < i {
        assert(gs[k].0 != gs[i].0);
    } else if i < k {
        assert(gs[i].0 != gs[k].0);
    }
}

proof fn lemma_entry_pos<T, R>(states: Seq<ButtonStateEntry<T, R>>, index: usize, note_state: NoteState, i: int)
    requires
        entries_unique(states),
        0 <= i < states.len(),
        states[i].index == index,
        states[i].note_state == note_state,
    ensures
        entry_pos(states, index, note_state) == Some(i),
{
    let k = choose|k: int| 0 <= k < states.len() && (#[trigger] states[k]).index == index && states[k].note_state == note_state;
    assert(states[k].index == index);
    if k < i {
        assert(!(states[k].index == states[i].index && states[k].note_state == states[i].note_state));
    } else if i < k {
        assert(!(states[i].index == states[k].index && states[i].note_state == states[k].note_state));
    }
}

fn find_entry<T, R>(states: &Vec<ButtonStateEntry<T, R>>, index: usize, note_state: NoteState) -> (r: Option<usize>)
    requires
        entries_unique(states@),
    ensures
        match r {
            Some(p) => entry_pos(states@, index, note_state) == Some(p as int) && p < states@.len(),
            None => entry_pos(states@, index, note_state) is None,
        },
{
    let mut i: usize = 0;
    while i < states.len()
        invariant
            entries_unique(states@),
            i <= states@.len(),
            forall|j: int| 0 <= j < i ==> !((#[trigger] states@[j]).index == index && states@[j].note_state == note_state),
        decreases states@.len() - i,
    {
        if states[i].index == index && states[i].note_state == note_state {
            proof { lemma_entry_pos(states@, index, note_state, i as int); }
            return Some(i);
        }
        i += 1;
    }
    assert(!exists|j: int| 0 <= j < states@.len() && (#[trigger] states@[j]).index == index && states@[j].note_state == note_state);
    None
}

impl<T: Copy, R: Copy> GroupStates<T, R> {
    fn update(&mut self, index: usize, coordinate: ButtonCoordinate, note_state: NoteState, now: T, default_rate: R)
        requires
            entries_unique(old(self).states@),
        ensures
            group_view(*final(self)) == group_after_update(group_view(*old(self)), index, coordinate, note_state, now, default_rate),
            entries_unique(final(self).states@),
    {
        if note_state == NoteState::On {
            self.toggle_state.toggle_mut(coordinate);
        }
        let ghost old_states = self.states@;
        let found = find_entry(&self.states, index, note_state);
        let mut rate = default_rate;
        match found {
            Some(p) => {
                let removed = self.states.remove(p);
                rate = removed.effect_rate;
            },
            None => {},
        }
        let ghost rest = self.states@;
        self.states.push(ButtonStateEntry { index, coordinate, note_state, triggered_at: now, effect_rate: rate });
        proof {
            assert forall|a: int, b: int| 0 <= a < b < self.states@.len() implies !(#[trigger] self.states@[a].index == #[trigger] self.states@[b].index
                && self.states@[a].note_state == self.states@[b].note_state) by {
                assert(self.states@[a] == rest[a]);
                match found {
                    Some(p) => {
                        let a0 = if a < p { a } else { a + 1 };
                        assert(rest[a] == old_states[a0]);
                        if b < rest.len() {
                            let b0 = if b < p { b } else { b + 1 };
                            assert(rest[b] == old_states[b0]);
                            assert(a0 < b0);
                        } else {
                            assert(a0 != p as int);
                            assert(old_states[p as int].index == index && old_states[p as int].note_state == note_state);
                            if a0 < p {
                                assert(!(old_states[a0].index == old_states[p as int].index && old_states[a0].note_state == old_states[p as int].note_state));
                            } else {
                                assert(!(old_states[p as int].index == old_states[a0].index && old_states[p as int].note_state == old_states[a0].note_state));
                            }
                        }
                    },
                    None => {
                        assert(rest[a] == old_states[a]);
                        if b < rest.len() {
                            assert(rest[b] == old_states[b]);
                        } else {
                            assert(!(old_states[a].index == index && old_states[a].note_state == note_state));
                        }
                    },
                }
            }
        }
    }
}

impl<T: Copy, R: Copy> ButtonStates<T, R> {
    /// No button has been touched.
    pub fn new() -> (s: ButtonStates<T, R>)
        ensures
            s@ == Seq::<GroupView<T, R>>::empty(),
            states_well_formed(s@),
    {
        let s = ButtonStates { groups: Vec::new() };
        assert(s@ =~= Seq::<GroupView<T, R>>::empty());
        s
    }

    /// Records that button `index` of `group` went to `note_state` at `now`.
    pub fn update_button_state(
        &mut self,
        group: ButtonGroupId,
        button_type: ButtonType,
        index: usize,
        coordinate: ButtonCoordinate,
        note_state: NoteState,
        now: T,
        default_rate: R,
    )
        requires
            states_well_formed(old(self)@),
        ensures
            final(self)@ == update_spec(old(self)@, group, button_type, index, coordinate, note_state, now, default_rate),
            states_well_formed(final(self)@),
    {
        let ghost gs = self@;
        let mut i: usize = 0;
        while i < self.groups.len()
            invariant
                self@ == gs,
                gs == old(self)@,
                states_well_formed(gs),
                i <= gs.len(),
                gs.len() == self.groups@.len(),
                forall|j: int| 0 <= j < i ==> (#[trigger] gs[j]).0 != group,
            decreases gs.len() - i,
        {
            assert(gs[i as int] == group_view(self.groups@[i as int]));
            if self.groups[i].group == group {
                proof { lemma_group_pos(gs, group, i as int); }
                let mut g = self.groups.remove(i);
                g.update(index, coordinate, note_state, now, default_rate);
                self.groups.insert(i, g);
                proof {
                    assert(self@ =~= update_spec(gs, group, button_type, index, coordinate, note_state, now, default_rate));
                    self.lemma_well_formed_after(gs, i as int);
                }
                return;
            }
            i += 1;
        }
        proof {
            assert(!exists|j: int| 0 <= j < gs.len() && (#[trigger] gs[j]).0 == group);
        }
        let mut g = GroupStates { group, button_type, toggle_state: GroupToggleState::Off, states: Vec::new() };
        proof {
            assert(g.states@ =~= Seq::<ButtonStateEntry<T, R>>::empty());
        }
        g.update(index, coordinate, note_state, now, default_rate);
        self.groups.push(g);
        proof {
            assert(self@ =~= update_spec(gs, group, button_type, index, coordinate, note_state, now, default_rate));
            assert forall|a: int, b: int| 0 <= a < b < self@.len() implies (#[trigger] self@[a]).0 != (#[trigger] self@[b]).0 by {
                assert(self@[a] == gs[a]);
                if b < gs.len() {
                    assert(self@[b] == gs[b]);
                } else {
                    assert(gs[a].0 != group);
                }
            }
            assert forall|a: int| 0 <= a < self@.len() implies entries_unique((#[trigger] self@[a]).3) by {
                if a < gs.len() {
                    assert(self@[a] == gs[a]);
                }
            }
        }
    }

    proof fn lemma_well_formed_after(&self, gs: Seq<GroupView<T, R>>, i: int)
        requires
            states_well_formed(gs),
            0 <= i < gs.len(),
            self@.len() == gs.len(),
            self@[i].0 == gs[i].0,
            entries_unique(self@[i].3),
            forall|j: int| 0 <= j < gs.len() && j != i ==> self@[j] == gs[j],
        ensures
            states_well_formed(self@),
    {
        assert forall|a: int, b: int| 0 <= a < b < self@.len() implies (#[trigger] self@[a]).0 != (#[trigger] self@[b]).0 by {
            assert(gs[a].0 != gs[b].0);
        }
        assert forall|a: int| 0 <= a < self@.len() implies entries_unique((#[trigger] self@[a]).3) by {
            if a != i {
                assert(entries_unique(gs[a].3));
            }
        }
    }
}

/// One button state with the group it belongs to, as the engine reads them.
#[derive(Debug, Clone, Copy)]
pub struct ButtonInfo<T, R> {
    pub group: ButtonGroupId,
    pub button_type: ButtonType,
    pub toggle_state: GroupToggleState,
    pub index: usize,
    pub coordinate: ButtonCoordinate,
    pub note_state: NoteState,
    pub triggered_at: T,
    pub effect_rate: R,
}

pub open spec fn entry_info<T, R>(g: GroupView<T, R>, e: ButtonStateEntry<T, R>) -> ButtonInfo<T, R> {
    ButtonInfo {
        group: g.0,
        button_type: g.1,
        toggle_state: g.2,
        index: e.index,
        coordinate: e.coordinate,
        note_state: e.note_state,
        triggered_at: e.triggered_at,
        effect_rate: e.effect_rate,
    }
}

/// The states of one group, with the group's details.
pub open spec fn group_infos<T, R>(g: GroupView<T, R>) -> Seq<ButtonInfo<T, R>> {
    g.3.map_values(|e: ButtonStateEntry<T, R>| entry_info(g, e))
}

/// Every button state, group after group, each group's oldest first.
pub open spec fn infos_of<T, R>(gs: Seq<GroupView<T, R>>) -> Seq<ButtonInfo<T, R>>
    decreases gs.len(),
{
    if gs.len() == 0 {
        Seq::empty()
    } else {
        infos_of(gs.drop_last()) + group_infos(gs.last())
    }
}

impl<T: Copy, R: Copy> ButtonStates<T, R> {
    /// Every button state with its group: group after group in the order they
    /// were first touched, and within a group oldest first.
    pub fn iter_info(&self) -> (r: Vec<ButtonInfo<T, R>>)
        ensures
            r@ == infos_of(self@),
    {
        let ghost gs = self@;
        let mut r: Vec<ButtonInfo<T, R>> = Vec::new();
        let mut i: usize = 0;
        while i < self.groups.len()
            invariant
                gs == self@,
                gs.len() == self.groups@.len(),
                i <= gs.len(),
                r@ == infos_of(gs.take(i as int)),
            decreases gs.len() - i,
        {
            let g = &self.groups[i];
            let ghost gv = group_view(*g);
            assert(gs[i as int] == gv);
            let ghost start = r@;
            let mut j: usize = 0;
            while j < g.states.len()
                invariant
                    gv == group_view(*g),
                    j <= g.states@.len(),
                    r@ == start + group_infos(gv).take(j as int),
                decreases g.states@.len() - j,
            {
                let e = g.states[j];
                r.push(ButtonInfo {
                    group: g.group,
                    button_type: g.button_type,
                    toggle_state: g.toggle_state,
                    index: e.index,
                    coordinate: e.coordinate,
                    note_state: e.note_state,
                    triggered_at: e.triggered_at,
                    effect_rate: e.effect_rate,
                });
                assert(group_infos(gv).take(j + 1) =~= group_infos(gv).take(j as int).push(entry_info(gv, e)));
                j += 1;
            }
            assert(group_infos(gv).take(j as int) =~= group_infos(gv));
            assert(gs.take(i + 1).drop_last() =~= gs.take(i as int));
            i += 1;
        }
        assert(gs.take(i as int) =~= gs);
        r
    }
}

/// The entries of a map from effect to the place of the button state that
/// set it, in the map's order.
pub uninterp spec fn effect_map_entries(m: IndexMap<u64, usize, BuildHasherDefault<FxHasher>>) -> Seq<(u64, usize)>;

/// Where `key` is among the entries, if it is there.
pub open spec fn key_pos(s: Seq<(u64, usize)>, key: u64) -> Option<int> {
    if exists|i: int| 0 <= i < s.len() && (#[trigger] s[i]).0 == key {
        Some(choose|i: int| 0 <= i < s.len() && (#[trigger] s[i]).0 == key)
    } else {
        None
    }
}

/// No key occurs twice.
pub open spec fn effect_keys_unique(s: Seq<(u64, usize)>) -> bool {
    forall|i: int, j: int| 0 <= i < j < s.len() ==> (#[trigger] s[i]).0 != (#[trigger] s[j]).0
}

/// After an insertion: an existing key keeps its place and takes the new
/// value; a new key goes last.
pub open spec fn map_insert(s: Seq<(u64, usize)>, key: u64, value: usize) -> Seq<(u64, usize)> {
    match key_pos(s, key) {
        Some(i) => s.update(i, (key, value)),
        None => s.push((key, value)),
    }
}

/// After a removal that shifts the later entries down, keeping their order.
pub open spec fn map_shift_remove(s: Seq<(u64, usize)>, key: u64) -> Seq<(u64, usize)> {
    match key_pos(s, key) {
        Some(i) => s.remove(i),
        None => s,
    }
}

/// An empty map (`IndexMap::default`).
#[verifier::external_body]
fn effect_map_new() -> (m: IndexMap<u64, usize, BuildHasherDefault<FxHasher>>)
    ensures
        effect_map_entries(m) == Seq::<(u64, usize)>::empty(),
{
    IndexMap::default()
}

/// `IndexMap::insert`: an existing key keeps its place and takes the new
/// value; a new key is added last.
#[verifier::external_body]
fn effect_map_insert(m: &mut IndexMap<u64, usize, BuildHasherDefault<FxHasher>>, key: u64, value: usize)
    ensures
        effect_map_entries(*final(m)) == map_insert(effect_map_entries(*old(m)), key, value),
{
    m.insert(key, value);
}

/// `IndexMap::shift_remove`: removes the key's entry, if any, and moves the
/// entries after it one place down, keeping their order.
#[verifier::external_body]
fn effect_map_shift_remove(m: &mut IndexMap<u64, usize, BuildHasherDefault<FxHasher>>, key: u64)
    ensures
        effect_map_entries(*final(m)) == map_shift_remove(effect_map_entries(*old(m)), key),
{
    m.shift_remove(&key);
}

/// `IndexMap::len`.
#[verifier::external_body]
fn effect_map_len(m: &IndexMap<u64, usize, BuildHasherDefault<FxHasher>>) -> (n: usize)
    ensures
        n == effect_map_entries(*m).len(),
{
    m.len()
}

/// `IndexMap::get_index`: the entry at a position, copied out.
#[verifier::external_body]
fn effect_map_get_index(m: &IndexMap<u64, usize, BuildHasherDefault<FxHasher>>, index: usize) -> (r: Option<(u64, usize)>)
    ensures
        index < effect_map_entries(*m).len() ==> r == Some(effect_map_entries(*m)[index as int]),
        index >= effect_map_entries(*m).len() ==> r is None,
{
    m.get_index(index).map(|(k, v)| (*k, *v))
}

/// The effects after the button state `info` (the `pos`-th), whose button
/// starts `effect`, if any. A flash button's effect is on while it is held;
/// a switch button's press makes its effect the latest; a toggle button's
/// press turns its effect on when it toggled its group on.
pub open spec fn active_step<T, R>(s: Seq<(u64, usize)>, info: ButtonInfo<T, R>, effect: Option<u64>, pos: usize) -> Seq<(u64, usize)> {
    match effect {
        None => s,
        Some(e) => match info.button_type {
            ButtonType::Flash => if info.note_state == NoteState::On {
                map_insert(s, e, pos)
            } else {
                map_shift_remove(s, e)
            },
            ButtonType::Switch => if info.note_state == NoteState::On {
                map_insert(map_shift_remove(s, e), e, pos)
            } else {
                s
            },
            ButtonType::Toggle => if info.note_state == NoteState::On && info.toggle_state == GroupToggleState::On(info.coordinate) {
                map_insert(s, e, pos)
            } else {
                s
            },
        },
    }
}

/// The active effects after the first `n` button states, each with the place
/// of the state that set it.
pub open spec fn active_entries<T, R>(infos: Seq<ButtonInfo<T, R>>, effects: Seq<Option<u64>>, n: nat) -> Seq<(u64, usize)>
    decreases n,
{
    if n == 0 {
        Seq::empty()
    } else {
        active_step(active_entries(infos, effects, (n - 1) as nat), infos[n - 1], effects[n - 1], (n - 1) as usize)
    }
}

/// The active effects, in order, each with the rate of the button state that
/// set it.
pub open spec fn active_effects_spec<T, R>(infos: Seq<ButtonInfo<T, R>>, effects: Seq<Option<u64>>) -> Seq<(u64, R)> {
    active_entries(infos, effects, infos.len()).map_values(|kv: (u64, usize)| (kv.0, infos[kv.1 as int].effect_rate))
}

/// Every value of the map is below `n`.
pub open spec fn values_below(s: Seq<(u64, usize)>, n: int) -> bool {
    forall|i: int| 0 <= i < s.len() ==> (#[trigger] s[i]).1 < n
}

proof fn lemma_key_pos(s: Seq<(u64, usize)>, key: u64)
    requires
        effect_keys_unique(s),
    ensures
        match key_pos(s, key) {
            Some(i) => 0 <= i < s.len() && s[i].0 == key,
            None => forall|i: int| 0 <= i < s.len() ==> (#[trigger] s[i]).0 != key,
        },
{
}

proof fn lemma_map_insert(s: Seq<(u64, usize)>, key: u64, value: usize, n: int)
    requires
        effect_keys_unique(s),
        values_below(s, n),
        value < n,
    ensures
        effect_keys_unique(map_insert(s, key, value)),
        values_below(map_insert(s, key, value), n),
{
    lemma_key_pos(s, key);
    let r = map_insert(s, key, value);
    match key_pos(s, key) {
        Some(p) => {
            assert forall|i: int, j: int| 0 <= i < j < r.len() implies (#[trigger] r[i]).0 != (#[trigger] r[j]).0 by {
                assert(s[i].0 != s[j].0);
            }
        },
        None => {
            assert forall|i: int, j: int| 0 <= i < j < r.len() implies (#[trigger] r[i]).0 != (#[trigger] r[j]).0 by {
                if j < s.len() {
                    assert(s[i].0 != s[j].0);
                } else {
                    assert(s[i].0 != key);
                }
            }
        },
    }
    assert forall|i: int| 0 <= i < r.len() implies (#[trigger] r[i]).1 < n by {
        if i < s.len() && r[i] != (key, value) {
            assert(r[i] == s[i]);
        }
    }
}

proof fn lemma_map_shift_remove(s: Seq<(u64, usize)>, key: u64, n: int)
    requires
        effect_keys_unique(s),
        values_below(s, n),
    ensures
        effect_keys_unique(map_shift_remove(s, key)),
        values_below(map_shift_remove(s, key), n),
{
    lemma_key_pos(s, key);
    let r = map_shift_remove(s, key);
    match key_pos(s, key) {
        Some(p) => {
            assert forall|i: int, j: int| 0 <= i < j < r.len() implies (#[trigger] r[i]).0 != (#[trigger] r[j]).0 by {
                let i0 = if i < p { i } else { i + 1 };
                let j0 = if j < p { j } else { j + 1 };
                assert(r[i] == s[i0]);
                assert(r[j] == s[j0]);
                assert(s[i0].0 != s[j0].0);
            }
            assert forall|i: int| 0 <= i < r.len() implies (#[trigger] r[i]).1 < n by {
                let i0 = if i < p { i } else { i + 1 };
                assert(r[i] == s[i0]);
            }
        },
        None => {},
    }
}

/// The effects the button states leave active, in order, each with the rate
/// of the button state that activated it. `effects[i]` is the effect that the
/// button of `infos[i]` starts, if any.
pub fn find_active_effects<T, R: Copy>(infos: &[ButtonInfo<T, R>], effects: &[Option<u64>]) -> (r: Vec<(u64, R)>)
    requires
        effects@.len() == infos@.len(),
    ensures
        r@ == active_effects_spec(infos@, effects@),
        forall|a: int, b: int| 0 <= a < b < r@.len() ==> (#[trigger] r@[a]).0 != (#[trigger] r@[b]).0,
{
    let mut m = effect_map_new();
    let mut i: usize = 0;
    while i < infos.len()
        invariant
            effects@.len() == infos@.len(),
            i <= infos@.len(),
            effect_map_entries(m) == active_entries(infos@, effects@, i as nat),
            effect_keys_unique(effect_map_entries(m)),
            values_below(effect_map_entries(m), i as int),
        decreases infos@.len() - i,
    {
        let info = &infos[i];
        let ghost before = effect_map_entries(m);
        proof {
            assert(values_below(before, i + 1));
        }
        match effects[i] {
            None => {},
            Some(e) => match info.button_type {
                ButtonType::Flash => {
                    if info.note_state == NoteState::On {
                        effect_map_insert(&mut m, e, i);
                        proof { lemma_map_insert(before, e, i, i + 1); }
                    } else {
                        effect_map_shift_remove(&mut m, e);
                        proof { lemma_map_shift_remove(before, e, i + 1); }
                    }
                },
                ButtonType::Switch => {
                    if info.note_state == NoteState::On {
                        effect_map_shift_remove(&mut m, e);
                        proof { lemma_map_shift_remove(before, e, i + 1); }
                        effect_map_insert(&mut m, e, i);
                        proof { lemma_map_insert(map_shift_remove(before, e), e, i, i + 1); }
                    }
                },
                ButtonType::Toggle => {
                    let toggled_on = match info.toggle_state {
                        GroupToggleState::On(c) => c == info.coordinate,
                        GroupToggleState::Off => false,
                    };
                    if info.note_state == NoteState::On && toggled_on {
                        effect_map_insert(&mut m, e, i);
                        proof { lemma_map_insert(before, e, i, i + 1); }
                    }
                },
            },
        }
        i += 1;
    }
    let ghost entries = effect_map_entries(m);
    let n = effect_map_len(&m);
    let mut r: Vec<(u64, R)> = Vec::new();
    let mut j: usize = 0;
    while j < n
        invariant
            n == entries.len(),
            entries == effect_map_entries(m),
            entries == active_entries(infos@, effects@, infos@.len()),
            values_below(entries, infos@.len() as int),
            j <= n,
            r@ == entries.take(j as int).map_values(|kv: (u64, usize)| (kv.0, infos@[kv.1 as int].effect_rate)),
        decreases n - j,
    {
        let (key, pos) = effect_map_get_index(&m, j).unwrap();
        assert(entries[j as int].1 < infos@.len());
        r.push((key, infos[pos].effect_rate));
        assert(entries.take(j + 1) =~= entries.take(j as int).push(entries[j as int]));
        assert(r@ =~= entries.take(j + 1).map_values(|kv: (u64, usize)| (kv.0, infos@[kv.1 as int].effect_rate)));
        j += 1;
    }
    assert(entries.take(j as int) =~= entries);
    proof {
        lemma_active_entries_unique(infos@, effects@, infos@.len());
        assert forall|a: int, b: int| 0 <= a < b < r@.len() implies (#[trigger] r@[a]).0 != (#[trigger] r@[b]).0 by {
            assert(r@[a].0 == entries[a].0);
            assert(r@[b].0 == entries[b].0);
        }
    }
    r
}

/// The colours of the switches held on after the first `n` button states,
/// oldest first, and the last colour switched off. `colors[i]` is the colour
/// that the button of `infos[i]` selects, if any.
pub open spec fn color_state<T, R>(infos: Seq<ButtonInfo<T, R>>, colors: Seq<Option<Color>>, n: nat)
    -> (Seq<(ButtonCoordinate, Color)>, Option<(ButtonCoordinate, Color)>)
    decreases n,
{
    if n == 0 {
        (Seq::empty(), None)
    } else {
        let (on, last_off) = color_state(infos, colors, (n - 1) as nat);
        let info = infos[n - 1];
        match colors[n - 1] {
            None => (on, last_off),
            Some(c) => if info.note_state == NoteState::On {
                (on.push((info.coordinate, c)), last_off)
            } else {
                (remove_first(on, (info.coordinate, c)), Some((info.coordinate, c)))
            },
        }
    }
}

/// The global colour: that of the latest colour button still held on, else
/// that of the last one released, else none.
pub open spec fn global_color_spec<T, R>(infos: Seq<ButtonInfo<T, R>>, colors: Seq<Option<Color>>) -> Option<Color> {
    let (on, last_off) = color_state(infos, colors, infos.len());
    if on.len() > 0 {
        Some(on.last().1)
    } else {
        match last_off {
            Some(x) => Some(x.1),
            None => None,
        }
    }
}

/// Colour buttons are switches.
pub open spec fn colors_on_switches<T, R>(infos: Seq<ButtonInfo<T, R>>, colors: Seq<Option<Color>>) -> bool {
    forall|i: int| 0 <= i < infos.len() && (#[trigger] colors[i]) is Some ==> infos[i].button_type == ButtonType::Switch
}

/// Secondary colour buttons are toggles.
pub open spec fn colors_on_toggles<T, R>(infos: Seq<ButtonInfo<T, R>>, colors: Seq<Option<Color>>) -> bool {
    forall|i: int| 0 <= i < infos.len() && (#[trigger] colors[i]) is Some ==> infos[i].button_type == ButtonType::Toggle
}

fn remove_first_color(on: &mut Vec<(ButtonCoordinate, Color)>, item: (ButtonCoordinate, Color))
    ensures
        final(on)@ == remove_first(old(on)@, item),
{
    let mut i: usize = 0;
    while i < on.len()
        invariant
            on@ == old(on)@,
            i <= on@.len(),
            forall|j: int| 0 <= j < i ==> on@[j] != item,
        decreases on@.len() - i,
    {
        if on[i].0 == item.0 && on[i].1 == item.1 {
            proof { lemma_first_index_of(on@, item, i as int); }
            on.remove(i);
            return;
        }
        i += 1;
    }
    assert(!exists|k: int| 0 <= k < on@.len() && on@[k] == item && forall|j: int| 0 <= j < k ==> on@[j] != item);
}

/// The global colour the button states select. `colors[i]` is the colour that
/// the button of `infos[i]` selects, if any.
pub fn global_color<T, R>(infos: &[ButtonInfo<T, R>], colors: &[Option<Color>]) -> (c: Option<Color>)
    requires
        colors@.len() == infos@.len(),
        colors_on_switches(infos@, colors@),
    ensures
        c == global_color_spec(infos@, colors@),
{
    let mut on: Vec<(ButtonCoordinate, Color)> = Vec::new();
    let mut last_off: Option<(ButtonCoordinate, Color)> = None;
    let mut i: usize = 0;
    while i < infos.len()
        invariant
            colors@.len() == infos@.len(),
            i <= infos@.len(),
            (on@, last_off) == color_state(infos@, colors@, i as nat),
        decreases infos@.len() - i,
    {
        match colors[i] {
            None => {},
            Some(color) => {
                if infos[i].note_state == NoteState::On {
                    on.push((infos[i].coordinate, color));
                } else {
                    remove_first_color(&mut on, (infos[i].coordinate, color));
                    last_off = Some((infos[i].coordinate, color));
                }
            },
        }
        i += 1;
    }
    if on.len() > 0 {
        Some(on[on.len() - 1].1)
    } else {
        match last_off {
            Some(x) => Some(x.1),
            None => None,
        }
    }
}

/// The secondary colour after the first `n` button states: that of the last
/// one whose toggle group is on with that very button, if any.
pub open spec fn secondary_color_spec<T, R>(infos: Seq<ButtonInfo<T, R>>, colors: Seq<Option<Color>>, n: nat) -> Option<Color>
    decreases n,
{
    if n == 0 {
        None
    } else {
        let info = infos[n - 1];
        match colors[n - 1] {
            Some(c) => if info.toggle_state == GroupToggleState::On(info.coordinate) {
                Some(c)
            } else {
                secondary_color_spec(infos, colors, (n - 1) as nat)
            },
            None => secondary_color_spec(infos, colors, (n - 1) as nat),
        }
    }
}

/// The secondary colour the button states select. `colors[i]` is the
/// secondary colour that the button of `infos[i]` selects, if any.
pub fn secondary_color<T, R>(infos: &[ButtonInfo<T, R>], colors: &[Option<Color>]) -> (c: Option<Color>)
    requires
        colors@.len() == infos@.len(),
        colors_on_toggles(infos@, colors@),
    ensures
        c == secondary_color_spec(infos@, colors@, infos@.len()),
{
    let mut c: Option<Color> = None;
    let mut i: usize = 0;
    while i < infos.len()
        invariant
            colors@.len() == infos@.len(),
            i <= infos@.len(),
            c == secondary_color_spec(infos@, colors@, i as nat),
        decreases infos@.len() - i,
    {
        match colors[i] {
            Some(color) => {
                let toggled_on = match infos[i].toggle_state {
                    GroupToggleState::On(coord) => coord == infos[i].coordinate,
                    GroupToggleState::Off => false,
                };
                if toggled_on {
                    c = Some(color);
                }
            },
            None => {},
        }
        i += 1;
    }
    c
}

/// Where button `index` of `group` is among the held buttons, if it is there.
pub open spec fn held_pos<T, R>(held: Seq<ButtonInfo<T, R>>, group: ButtonGroupId, index: usize) -> Option<int> {
    if exists|i: int| 0 <= i < held.len() && (#[trigger] held[i]).group == group && held[i].index == index {
        Some(choose|i: int| 0 <= i < held.len() && (#[trigger] held[i]).group == group && held[i].index == index)
    } else {
        None
    }
}

/// The buttons held down after the first `n` button states, each with its
/// latest press: a press adds the button or renews it in place, a release
/// takes it out.
pub open spec fn held_after<T, R>(infos: Seq<ButtonInfo<T, R>>, n: nat) -> Seq<ButtonInfo<T, R>>
    decreases n,
{
    if n == 0 {
        Seq::empty()
    } else {
        let held = held_after(infos, (n - 1) as nat);
        let info = infos[n - 1];
        match held_pos(held, info.group, info.index) {
            Some(p) => if info.note_state == NoteState::On {
                held.update(p, info)
            } else {
                held.remove(p)
            },
            None => if info.note_state == NoteState::On {
                held.push(info)
            } else {
                held
            },
        }
    }
}

/// No button is held twice.
pub open spec fn held_unique<T, R>(held: Seq<ButtonInfo<T, R>>) -> bool {
    forall|i: int, j: int|
        0 <= i < j < held.len() ==> !((#[trigger] held[i]).group == (#[trigger] held[j]).group && held[i].index == held[j].index)
}

/// The buttons held down in these states.
pub open spec fn pressed_spec<T, R>(gs: Seq<GroupView<T, R>>) -> Seq<ButtonInfo<T, R>> {
    held_after(infos_of(gs), infos_of(gs).len())
}

/// The coordinates of the held buttons.
pub open spec fn pressed_coords_spec<T, R>(gs: Seq<GroupView<T, R>>) -> Set<ButtonCoordinate> {
    pressed_spec(gs).map_values(|i: ButtonInfo<T, R>| i.coordinate).to_set()
}

fn find_held<T, R>(held: &Vec<ButtonInfo<T, R>>, group: ButtonGroupId, index: usize) -> (r: Option<usize>)
    requires
        held_unique(held@),
    ensures
        match r {
            Some(p) => held_pos(held@, group, index) == Some(p as int) && p < held@.len(),
            None => held_pos(held@, group, index) is None,
        },
{
    let mut i: usize = 0;
    while i < held.len()
        invariant
            held_unique(held@),
            i <= held@.len(),
            forall|j: int| 0 <= j < i ==> !((#[trigger] held@[j]).group == group && held@[j].index == index),
        decreases held@.len() - i,
    {
        if held[i].group == group && held[i].index == index {
            proof {
                let k = choose|k: int| 0 <= k < held@.len() && (#[trigger] held@[k]).group == group && held@[k].index == index;
                if k < i {
                    assert(!(held@[k].group == group && held@[k].index == index));
                } else if i < k {
                    assert(!(held@[i as int].group == held@[k].group && held@[i as int].index == held@[k].index));
                }
            }
            return Some(i);
        }
        i += 1;
    }
    assert(!exists|j: int| 0 <= j < held@.len() && (#[trigger] held@[j]).group == group && held@[j].index == index);
    None
}

/// The buttons held down after the button states `infos`, in turn.
fn held_buttons<T: Copy, R: Copy>(infos: &Vec<ButtonInfo<T, R>>) -> (held: Vec<ButtonInfo<T, R>>)
    ensures
        held@ == held_after(infos@, infos@.len()),
        held_unique(held@),
{
    let mut held: Vec<ButtonInfo<T, R>> = Vec::new();
    let mut i: usize = 0;
    while i < infos.len()
        invariant
            i <= infos@.len(),
            held@ == held_after(infos@, i as nat),
            held_unique(held@),
        decreases infos@.len() - i,
    {
        let info = infos[i];
        let ghost before = held@;
        match find_held(&held, info.group, info.index) {
            Some(p) => {
                if info.note_state == NoteState::On {
                    held.set(p, info);
                    proof {
                        assert forall|a: int, b: int| 0 <= a < b < held@.len() implies !((#[trigger] held@[a]).group == (#[trigger] held@[b]).group
                            && held@[a].index == held@[b].index) by {
                            assert(!(before[a].group == before[b].group && before[a].index == before[b].index));
                        }
                    }
                } else {
                    held.remove(p);
                    proof {
                        assert forall|a: int, b: int| 0 <= a < b < held@.len() implies !((#[trigger] held@[a]).group == (#[trigger] held@[b]).group
                            && held@[a].index == held@[b].index) by {
                            let a0 = if a < p { a } else { a + 1 };
                            let b0 = if b < p { b } else { b + 1 };
                            assert(held@[a] == before[a0]);
                            assert(held@[b] == before[b0]);
                            assert(!(before[a0].group == before[b0].group && before[a0].index == before[b0].index));
                        }
                    }
                }
            },
            None => {
                if info.note_state == NoteState::On {
                    held.push(info);
                    proof {
                        assert forall|a: int, b: int| 0 <= a < b < held@.len() implies !((#[trigger] held@[a]).group == (#[trigger] held@[b]).group
                            && held@[a].index == held@[b].index) by {
                            if b < before.len() {
                                assert(!(before[a].group == before[b].group && before[a].index == before[b].index));
                            } else {
                                assert(!(before[a].group == info.group && before[a].index == info.index));
                            }
                        }
                    }
                }
            },
        }
        i += 1;
    }
    held
}

/// Each coordinate once, with the same coordinates as `held`.
fn distinct_coords<T, R>(held: &Vec<ButtonInfo<T, R>>) -> (r: Vec<ButtonCoordinate>)
    ensures
        r@.no_duplicates(),
        r@.to_set() == held@.map_values(|i: ButtonInfo<T, R>| i.coordinate).to_set(),
{
    let ghost all = held@.map_values(|i: ButtonInfo<T, R>| i.coordinate);
    let mut r: Vec<ButtonCoordinate> = Vec::new();
    let mut i: usize = 0;
    while i < held.len()
        invariant
            all == held@.map_values(|i: ButtonInfo<T, R>| i.coordinate),
            i <= held@.len(),
            r@.no_duplicates(),
            forall|x: ButtonCoordinate| r@.contains(x) <==> exists|j: int| 0 <= j < i && all[j] == x,
        decreases held@.len() - i,
    {
        let c = held[i].coordinate;
        assert(all[i as int] == c);
        let mut k: usize = 0;
        let mut found = false;
        while k < r.len()
            invariant
                k <= r@.len(),
                found == exists|q: int| 0 <= q < k && r@[q] == c,
            decreases r@.len() - k,
        {
            if r[k] == c {
                found = true;
            }
            k += 1;
        }
        let ghost before = r@;
        if !found {
            r.push(c);
        }
        proof {
            assert forall|x: ButtonCoordinate| r@.contains(x) <==> exists|j: int| 0 <= j < i + 1 && all[j] == x by {
                if r@.contains(x) {
                    let q = choose|q: int| 0 <= q < r@.len() && r@[q] == x;
                    if q < before.len() {
                        assert(before[q] == x);
                        assert(before.contains(x));
                    } else {
                        assert(x == c);
                        assert(all[i as int] == x);
                    }
                }
                if exists|j: int| 0 <= j < i + 1 && all[j] == x {
                    let j = choose|j: int| 0 <= j < i + 1 && all[j] == x;
                    if j < i {
                        assert(before.contains(x));
                        let q = choose|q: int| 0 <= q < before.len() && before[q] == x;
                        assert(r@[q] == x);
                    } else if found {
                        let q = choose|q: int| 0 <= q < before.len() && before[q] == c;
                        assert(r@[q] == x);
                    } else {
                        assert(r@[r@.len() - 1] == x);
                    }
                }
            }
        }
        i += 1;
    }
    proof {
        assert forall|x: ButtonCoordinate| r@.to_set().contains(x) <==> all.to_set().contains(x) by {
            if all.contains(x) {
                let j = choose|j: int| 0 <= j < all.len() && all[j] == x;
                assert(exists|j: int| 0 <= j < i && all[j] == x);
            }
        }
        assert(r@.to_set() =~= all.to_set());
    }
    r
}

/// The entry with its rate set to `rate` when a held button has its coordinate.
pub open spec fn with_rate<T, R>(e: ButtonStateEntry<T, R>, coords: Set<ButtonCoordinate>, rate: R) -> ButtonStateEntry<T, R> {
    if coords.contains(e.coordinate) {
        ButtonStateEntry { effect_rate: rate, ..e }
    } else {
        e
    }
}

/// The states with the rate of every button at one of `coords` set to `rate`.
pub open spec fn rates_updated<T, R>(gs: Seq<GroupView<T, R>>, coords: Set<ButtonCoordinate>, rate: R) -> Seq<GroupView<T, R>> {
    gs.map_values(|g: GroupView<T, R>| (g.0, g.1, g.2, g.3.map_values(|e: ButtonStateEntry<T, R>| with_rate(e, coords, rate))))
}

impl<T: Copy, R: Copy> ButtonStates<T, R> {
    /// The buttons held down, each with its latest press.
    pub fn pressed_buttons(&self) -> (held: Vec<ButtonInfo<T, R>>)
        ensures
            held@ == pressed_spec(self@),
    {
        let infos = self.iter_info();
        held_buttons(&infos)
    }

    /// The coordinates of the buttons held down, each once.
    pub fn pressed_coords(&self) -> (coords: Vec<ButtonCoordinate>)
        ensures
            coords@.no_duplicates(),
            coords@.to_set() == pressed_coords_spec(self@),
    {
        let held = self.pressed_buttons();
        distinct_coords(&held)
    }

    /// Gives every button at the coordinate of a held button the rate `rate`,
    /// and tells how many coordinates are held.
    pub fn update_pressed_button_rates(&mut self, rate: R) -> (n: usize)
        requires
            states_well_formed(old(self)@),
        ensures
            final(self)@ == rates_updated(old(self)@, pressed_coords_spec(old(self)@), rate),
            states_well_formed(final(self)@),
            n == pressed_coords_spec(old(self)@).len(),
    {
        let coords = self.pressed_coords();
        let ghost set = coords@.to_set();
        let ghost gs = self@;
        proof { coords@.unique_seq_to_set(); }
        let mut groups: Vec<GroupStates<T, R>> = Vec::new();
        let mut i: usize = 0;
        while i < self.groups.len()
            invariant
                gs == self@,
                gs.len() == self.groups@.len(),
                set == coords@.to_set(),
                i <= gs.len(),
                groups@.len() == i,
                forall|k: int| 0 <= k < i ==> group_view(#[trigger] groups@[k]) == rates_updated(gs, set, rate)[k],
            decreases gs.len() - i,
        {
            let g = &self.groups[i];
            let ghost gv = group_view(*g);
            assert(gs[i as int] == gv);
            let mut states: Vec<ButtonStateEntry<T, R>> = Vec::new();
            let mut j: usize = 0;
            while j < g.states.len()
                invariant
                    gv == group_view(*g),
                    set == coords@.to_set(),
                    j <= g.states@.len(),
                    states@ == g.states@.take(j as int).map_values(|e: ButtonStateEntry<T, R>| with_rate(e, set, rate)),
                decreases g.states@.len() - j,
            {
                let e = g.states[j];
                let mut held = false;
                let mut k: usize = 0;
                while k < coords.len()
                    invariant
                        k <= coords@.len(),
                        held == exists|q: int| 0 <= q < k && coords@[q] == e.coordinate,
                    decreases coords@.len() - k,
                {
                    if coords[k] == e.coordinate {
                        held = true;
                    }
                    k += 1;
                }
                let e2 = if held { ButtonStateEntry { effect_rate: rate, ..e } } else { e };
                proof {
                    assert(held == coords@.contains(e.coordinate));
                    assert(e2 == with_rate(e, set, rate));
                }
                states.push(e2);
                assert(g.states@.take(j + 1) =~= g.states@.take(j as int).push(e));
                assert(states@ =~= g.states@.take(j + 1).map_values(|e: ButtonStateEntry<T, R>| with_rate(e, set, rate)));
                j += 1;
            }
            assert(g.states@.take(j as int) =~= g.states@);
            groups.push(GroupStates { group: g.group, button_type: g.button_type, toggle_state: g.toggle_state, states });
            i += 1;
        }
        self.groups = groups;
        proof {
            assert(self@ =~= rates_updated(gs, set, rate));
            assert forall|a: int, b: int| 0 <= a < b < self@.len() implies (#[trigger] self@[a]).0 != (#[trigger] self@[b]).0 by {
                assert(gs[a].0 != gs[b].0);
            }
            assert forall|a: int| 0 <= a < self@.len() implies entries_unique((#[trigger] self@[a]).3) by {
                assert(entries_unique(gs[a].3));
                assert forall|x: int, y: int| 0 <= x < y < self@[a].3.len() implies !(#[trigger] self@[a].3[x].index == #[trigger] self@[a].3[y].index
                    && self@[a].3[x].note_state == self@[a].3[y].note_state) by {
                    assert(!(gs[a].3[x].index == gs[a].3[y].index && gs[a].3[x].note_state == gs[a].3[y].note_state));
                }
            }
        }
        coords.len()
    }
}

/// An effect is active at most once, and each is tied to one of the states
/// read so far.
pub proof fn lemma_active_entries_unique<T, R>(infos: Seq<ButtonInfo<T, R>>, effects: Seq<Option<u64>>, n: nat)
    requires
        n <= infos.len(),
        effects.len() == infos.len(),
    ensures
        effect_keys_unique(active_entries(infos, effects, n)),
        values_below(active_entries(infos, effects, n), n as int),
    decreases n,
{
    if n > 0 {
        let k = (n - 1) as nat;
        lemma_active_entries_unique(infos, effects, k);
        let before = active_entries(infos, effects, k);
        assert(values_below(before, n as int));
        match effects[k as int] {
            None => {},
            Some(e) => {
                lemma_map_insert(before, e, k as usize, n as int);
                lemma_map_shift_remove(before, e, n as int);
                lemma_map_insert(map_shift_remove(before, e), e, k as usize, n as int);
            },
        }
    }
}

/// A flash button's effect lasts only while the button is held: right after
/// its release the effect is not active, right after its press it is, set by
/// that press.
pub proof fn lemma_flash_effect<T, R>(infos: Seq<ButtonInfo<T, R>>, effects: Seq<Option<u64>>, n: nat, e: u64)
    requires
        0 < n <= infos.len(),
        effects.len() == infos.len(),
        infos[n - 1].button_type == ButtonType::Flash,
        effects[n - 1] == Some(e),
    ensures
        infos[n - 1].note_state == NoteState::Off ==> key_pos(active_entries(infos, effects, n), e) is None,
        infos[n - 1].note_state == NoteState::On ==> (key_pos(active_entries(infos, effects, n), e) matches Some(p)
            && active_entries(infos, effects, n)[p].1 == (n - 1) as usize),
{
    let k = (n - 1) as nat;
    lemma_active_entries_unique(infos, effects, k);
    let before = active_entries(infos, effects, k);
    let after = active_entries(infos, effects, n);
    lemma_key_pos(before, e);
    if infos[k as int].note_state == NoteState::Off {
        lemma_map_shift_remove(before, e, n as int);
        match key_pos(before, e) {
            Some(p) => {
                assert forall|i: int| 0 <= i < after.len() implies (#[trigger] after[i]).0 != e by {
                    let i0 = if i < p { i } else { i + 1 };
                    assert(after[i] == before[i0]);
                    assert(before[i0].0 != before[p].0);
                }
            },
            None => {},
        }
    } else {
        lemma_map_insert(before, e, k as usize, n as int);
        match key_pos(before, e) {
            Some(p) => {
                assert(after[p] == (e, k as usize));
                lemma_key_pos(after, e);
                let q = key_pos(after, e).unwrap();
                if q < p {
                    assert(after[q].0 != after[p].0);
                } else if p < q {
                    assert(after[p].0 != after[q].0);
                }
            },
            None => {
                let p = before.len() as int;
                assert(after[p] == (e, k as usize));
                lemma_key_pos(after, e);
                let q = key_pos(after, e).unwrap();
                if q < p {
                    assert(after[q].0 != after[p].0);
                }
            },
        }
    }
}

/// Once a switch button is pressed its effect stays on, as the latest of the
/// active effects, until another press moves another effect after it.
pub proof fn lemma_switch_effect<T, R>(infos: Seq<ButtonInfo<T, R>>, effects: Seq<Option<u64>>, n: nat, e: u64)
    requires
        0 < n <= infos.len(),
        effects.len() == infos.len(),
        infos[n - 1].button_type == ButtonType::Switch,
        infos[n - 1].note_state == NoteState::On,
        effects[n - 1] == Some(e),
    ensures
        active_entries(infos, effects, n).len() > 0,
        active_entries(infos, effects, n).last() == (e, (n - 1) as usize),
{
    let k = (n - 1) as nat;
    lemma_active_entries_unique(infos, effects, k);
    let before = active_entries(infos, effects, k);
    lemma_map_shift_remove(before, e, n as int);
    let removed = map_shift_remove(before, e);
    lemma_key_pos(before, e);
    lemma_key_pos(removed, e);
    match key_pos(before, e) {
        Some(p) => {
            assert forall|i: int| 0 <= i < removed.len() implies (#[trigger] removed[i]).0 != e by {
                let i0 = if i < p { i } else { i + 1 };
                assert(removed[i] == before[i0]);
                assert(before[i0].0 != before[p].0);
            }
        },
        None => {},
    }
    lemma_key_pos(removed, e);
}

/// Inserting a key leaves it in the map, with the inserted value.
proof fn lemma_map_insert_present(s: Seq<(u64, usize)>, key: u64, value: usize)
    requires
        effect_keys_unique(s),
    ensures
        key_pos(map_insert(s, key, value), key) matches Some(p)
            && map_insert(s, key, value)[p] == (key, value),
{
    lemma_key_pos(s, key);
    let r = map_insert(s, key, value);
    let p = match key_pos(s, key) {
        Some(p) => p,
        None => s.len() as int,
    };
    assert(r[p] == (key, value));
    lemma_key_pos(r, key);
    let q = key_pos(r, key).unwrap();
    if q != p {
        match key_pos(s, key) {
            Some(_) => {
                assert(r[q] == s[q]);
                if q < p {
                    assert(s[q].0 != s[p].0);
                } else {
                    assert(s[p].0 != s[q].0);
                }
            },
            None => {
                assert(r[q] == s[q]);
            },
        }
    }
}

/// Releasing a switch button changes nothing among the active effects: the
/// effect it switched on stays on, and none is added or removed.
pub proof fn lemma_switch_release_keeps_effects<T, R>(infos: Seq<ButtonInfo<T, R>>, effects: Seq<Option<u64>>, n: nat)
    requires
        0 < n <= infos.len(),
        effects.len() == infos.len(),
        infos[n - 1].button_type == ButtonType::Switch,
        infos[n - 1].note_state == NoteState::Off,
    ensures
        active_entries(infos, effects, n) == active_entries(infos, effects, (n - 1) as nat),
{
}

/// A switch pressed and then released leaves its effect active, as set by the
/// press: the release does not turn it off.
pub proof fn lemma_switch_press_then_release<T, R>(infos: Seq<ButtonInfo<T, R>>, effects: Seq<Option<u64>>, n: nat, e: u64)
    requires
        1 < n <= infos.len(),
        effects.len() == infos.len(),
        infos[n - 2].button_type == ButtonType::Switch,
        infos[n - 2].note_state == NoteState::On,
        effects[n - 2] == Some(e),
        infos[n - 1].button_type == ButtonType::Switch,
        infos[n - 1].note_state == NoteState::Off,
    ensures
        key_pos(active_entries(infos, effects, n), e) matches Some(p)
            && active_entries(infos, effects, n)[p] == (e, (n - 2) as usize),
{
    let m = (n - 1) as nat;
    lemma_switch_effect(infos, effects, m, e);
    lemma_switch_release_keeps_effects(infos, effects, n);
    lemma_active_entries_unique(infos, effects, m);
    let s = active_entries(infos, effects, m);
    let last = s.len() - 1;
    lemma_key_pos(s, e);
    let q = key_pos(s, e).unwrap();
    if q != last {
        assert(s[q].0 != s[last].0);
    }
}

/// A toggle button turns its effect on only by a press that toggled its group
/// on with that very button; its release, or a press while its group is off or
/// toggled on with another button, changes nothing among the active effects.
pub proof fn lemma_toggle_changes_only_when_on_itself<T, R>(infos: Seq<ButtonInfo<T, R>>, effects: Seq<Option<u64>>, n: nat)
    requires
        0 < n <= infos.len(),
        effects.len() == infos.len(),
        infos[n - 1].button_type == ButtonType::Toggle,
        !(infos[n - 1].note_state == NoteState::On
            && infos[n - 1].toggle_state == GroupToggleState::On(infos[n - 1].coordinate)),
    ensures
        active_entries(infos, effects, n) == active_entries(infos, effects, (n - 1) as nat),
{
}

/// A press of a toggle button that toggled its group on with it turns its
/// effect on, set by that press.
pub proof fn lemma_toggle_on_activates<T, R>(infos: Seq<ButtonInfo<T, R>>, effects: Seq<Option<u64>>, n: nat, e: u64)
    requires
        0 < n <= infos.len(),
        effects.len() == infos.len(),
        infos[n - 1].button_type == ButtonType::Toggle,
        infos[n - 1].note_state == NoteState::On,
        infos[n - 1].toggle_state == GroupToggleState::On(infos[n - 1].coordinate),
        effects[n - 1] == Some(e),
    ensures
        key_pos(active_entries(infos, effects, n), e) matches Some(p)
            && active_entries(infos, effects, n)[p] == (e, (n - 1) as usize),
{
    let k = (n - 1) as nat;
    lemma_active_entries_unique(infos, effects, k);
    lemma_map_insert_present(active_entries(infos, effects, k), e, k as usize);
}

/// The active effects after the first `n` states depend on those states alone.
pub proof fn lemma_active_entries_prefix<T, R>(infos: Seq<ButtonInfo<T, R>>, effects: Seq<Option<u64>>, m: nat, n: nat)
    requires
        n <= m <= infos.len(),
        effects.len() == infos.len(),
    ensures
        active_entries(infos.take(m as int), effects.take(m as int), n) == active_entries(infos, effects, n),
    decreases n,
{
    if n > 0 {
        lemma_active_entries_prefix(infos, effects, m, (n - 1) as nat);
    }
}

/// Recording the release of a switch button does not change the effects that
/// are active, nor their rates: the answer with the release is the answer
/// without it.
pub proof fn lemma_switch_release_same_answer<T, R>(infos: Seq<ButtonInfo<T, R>>, effects: Seq<Option<u64>>)
    requires
        infos.len() > 0,
        effects.len() == infos.len(),
        infos.last().button_type == ButtonType::Switch,
        infos.last().note_state == NoteState::Off,
    ensures
        active_effects_spec(infos, effects) == active_effects_spec(infos.drop_last(), effects.drop_last()),
{
    let n = infos.len();
    let k = (n - 1) as nat;
    lemma_switch_release_keeps_effects(infos, effects, n as nat);
    lemma_active_entries_prefix(infos, effects, k, k);
    assert(infos.drop_last() =~= infos.take(k as int));
    assert(effects.drop_last() =~= effects.take(k as int));
    lemma_active_entries_unique(infos, effects, k);
    let s = active_entries(infos, effects, k);
    assert(values_below(s, k as int));
    let a = active_effects_spec(infos, effects);
    let b = active_effects_spec(infos.drop_last(), effects.drop_last());
    assert(a.len() == b.len());
    assert forall|i: int| 0 <= i < a.len() implies a[i] == b[i] by {
        assert(s[i].1 < k);
    }
    assert(a =~= b);
}

/// The latest state of button `index` of `group` among the states `s`.
pub open spec fn last_state<T, R>(s: Seq<ButtonInfo<T, R>>, group: ButtonGroupId, index: usize) -> Option<NoteState>
    decreases s.len(),
{
    if s.len() == 0 {
        None
    } else if s.last().group == group && s.last().index == index {
        Some(s.last().note_state)
    } else {
        last_state(s.drop_last(), group, index)
    }
}

/// The held buttons are unique, and a button is held exactly when the latest
/// of its states read so far is a press.
proof fn lemma_held_after<T, R>(s: Seq<ButtonInfo<T, R>>, n: nat, group: ButtonGroupId, index: usize)
    requires
        n <= s.len(),
    ensures
        held_unique(held_after(s, n)),
        (held_pos(held_after(s, n), group, index) is Some) <==> last_state(s.take(n as int), group, index) == Some(NoteState::On),
    decreases n,
{
    if n > 0 {
        let k = (n - 1) as nat;
        lemma_held_after(s, k, group, index);
        let x = s[k as int];
        lemma_held_after(s, k, x.group, x.index);
        let prev = held_after(s, k);
        let next = held_after(s, n);
        assert(s.take(n as int).drop_last() =~= s.take(k as int));
        assert(s.take(n as int).last() == x);
        let same = x.group == group && x.index == index;
        match held_pos(prev, x.group, x.index) {
            Some(p) => {
                assert(prev[p].group == x.group && prev[p].index == x.index);
                if x.note_state == NoteState::On {
                    assert(next == prev.update(p, x));
                    assert forall|a: int, b: int| 0 <= a < b < next.len() implies !((#[trigger] next[a]).group == (#[trigger] next[b]).group
                        && next[a].index == next[b].index) by {
                        assert(!(prev[a].group == prev[b].group && prev[a].index == prev[b].index));
                    }
                    if same {
                        assert(next[p].group == group && next[p].index == index);
                    } else {
                        if exists|j: int| 0 <= j < next.len() && (#[trigger] next[j]).group == group && next[j].index == index {
                            let j = choose|j: int| 0 <= j < next.len() && (#[trigger] next[j]).group == group && next[j].index == index;
                            assert(prev[j].group == group && prev[j].index == index);
                        }
                        if exists|j: int| 0 <= j < prev.len() && (#[trigger] prev[j]).group == group && prev[j].index == index {
                            let j = choose|j: int| 0 <= j < prev.len() && (#[trigger] prev[j]).group == group && prev[j].index == index;
                            assert(next[j].group == group && next[j].index == index);
                        }
                    }
                } else {
                    assert(next == prev.remove(p));
                    assert forall|a: int, b: int| 0 <= a < b < next.len() implies !((#[trigger] next[a]).group == (#[trigger] next[b]).group
                        && next[a].index == next[b].index) by {
                        let a0 = if a < p { a } else { a + 1 };
                        let b0 = if b < p { b } else { b + 1 };
                        assert(next[a] == prev[a0]);
                        assert(next[b] == prev[b0]);
                        assert(!(prev[a0].group == prev[b0].group && prev[a0].index == prev[b0].index));
                    }
                    if exists|j: int| 0 <= j < next.len() && (#[trigger] next[j]).group == group && next[j].index == index {
                        let j = choose|j: int| 0 <= j < next.len() && (#[trigger] next[j]).group == group && next[j].index == index;
                        let j0 = if j < p { j } else { j + 1 };
                        assert(next[j] == prev[j0]);
                        if same {
                            assert(!(prev[j0].group == prev[p].group && prev[j0].index == prev[p].index)) by {
                                if j0 < p {
                                } else {
                                }
                            }
                        }
                    }
                    if !same && exists|j: int| 0 <= j < prev.len() && (#[trigger] prev[j]).group == group && prev[j].index == index {
                        let j = choose|j: int| 0 <= j < prev.len() && (#[trigger] prev[j]).group == group && prev[j].index == index;
                        assert(j != p);
                        let j1 = if j < p { j } else { j - 1 };
                        assert(next[j1] == prev[j]);
                    }
                }
            },
            None => {
                if x.note_state == NoteState::On {
                    assert(next == prev.push(x));
                    assert forall|a: int, b: int| 0 <= a < b < next.len() implies !((#[trigger] next[a]).group == (#[trigger] next[b]).group
                        && next[a].index == next[b].index) by {
                        if b < prev.len() {
                            assert(!(prev[a].group == prev[b].group && prev[a].index == prev[b].index));
                        } else {
                            assert(!(prev[a].group == x.group && prev[a].index == x.index));
                        }
                    }
                    if same {
                        assert(next[prev.len() as int] == x);
                    } else {
                        if exists|j: int| 0 <= j < next.len() && (#[trigger] next[j]).group == group && next[j].index == index {
                            let j = choose|j: int| 0 <= j < next.len() && (#[trigger] next[j]).group == group && next[j].index == index;
                            assert(j < prev.len());
                            assert(prev[j] == next[j]);
                        }
                        if exists|j: int| 0 <= j < prev.len() && (#[trigger] prev[j]).group == group && prev[j].index == index {
                            let j = choose|j: int| 0 <= j < prev.len() && (#[trigger] prev[j]).group == group && prev[j].index == index;
                            assert(next[j] == prev[j]);
                        }
                    }
                } else {
                    assert(next == prev);
                }
            },
        }
    }
}

proof fn lemma_infos_of_concat<T, R>(a: Seq<GroupView<T, R>>, b: Seq<GroupView<T, R>>)
    ensures
        infos_of(a + b) == infos_of(a) + infos_of(b),
    decreases b.len(),
{
    if b.len() == 0 {
        assert(a + b =~= a);
        assert(infos_of(a) + infos_of(b) =~= infos_of(a));
    } else {
        lemma_infos_of_concat(a, b.drop_last());
        assert((a + b).drop_last() =~= a + b.drop_last());
        assert((a + b).last() == b.last());
        assert(infos_of(a) + infos_of(b) =~= infos_of(a) + infos_of(b.drop_last()) + group_infos(b.last()));
    }
}

proof fn lemma_last_state_concat<T, R>(a: Seq<ButtonInfo<T, R>>, b: Seq<ButtonInfo<T, R>>, group: ButtonGroupId, index: usize)
    ensures
        last_state(a + b, group, index) == (if last_state(b, group, index) is Some {
            last_state(b, group, index)
        } else {
            last_state(a, group, index)
        }),
    decreases b.len(),
{
    if b.len() == 0 {
        assert(a + b =~= a);
    } else {
        assert((a + b).drop_last() =~= a + b.drop_last());
        assert((a + b).last() == b.last());
        lemma_last_state_concat(a, b.drop_last(), group, index);
    }
}

/// The states of groups other than `group` say nothing of its buttons.
proof fn lemma_last_state_other_groups<T, R>(gs: Seq<GroupView<T, R>>, group: ButtonGroupId, index: usize)
    requires
        forall|i: int| 0 <= i < gs.len() ==> (#[trigger] gs[i]).0 != group,
    ensures
        last_state(infos_of(gs), group, index) is None,
    decreases gs.len(),
{
    if gs.len() > 0 {
        let init = gs.drop_last();
        assert forall|i: int| 0 <= i < init.len() implies (#[trigger] init[i]).0 != group by {
            assert(init[i] == gs[i]);
        }
        lemma_last_state_other_groups(init, group, index);
        let g = gs.last();
        assert(g.0 != group);
        lemma_last_state_concat(infos_of(init), group_infos(g), group, index);
        lemma_last_state_none_in_group(g, group, index, g.3.len());
        assert(group_infos(g) =~= g.3.take(g.3.len() as int).map_values(|e: ButtonStateEntry<T, R>| entry_info(g, e)));
    }
}

proof fn lemma_last_state_none_in_group<T, R>(g: GroupView<T, R>, group: ButtonGroupId, index: usize, n: nat)
    requires
        g.0 != group,
        n <= g.3.len(),
    ensures
        last_state(g.3.take(n as int).map_values(|e: ButtonStateEntry<T, R>| entry_info(g, e)), group, index) is None,
    decreases n,
{
    if n > 0 {
        let s = g.3.take(n as int).map_values(|e: ButtonStateEntry<T, R>| entry_info(g, e));
        assert(s.drop_last() =~= g.3.take(n - 1).map_values(|e: ButtonStateEntry<T, R>| entry_info(g, e)));
        lemma_last_state_none_in_group(g, group, index, (n - 1) as nat);
    }
}

/// A button is held right after its press is recorded, and not held right
/// after its release is.
pub proof fn lemma_pressed_after_update<T, R>(
    gs: Seq<GroupView<T, R>>,
    group: ButtonGroupId,
    button_type: ButtonType,
    index: usize,
    coordinate: ButtonCoordinate,
    note_state: NoteState,
    now: T,
    default_rate: R,
)
    requires
        states_well_formed(gs),
    ensures
        (held_pos(pressed_spec(update_spec(gs, group, button_type, index, coordinate, note_state, now, default_rate)), group, index) is Some)
            <==> note_state == NoteState::On,
{
    let after = update_spec(gs, group, button_type, index, coordinate, note_state, now, default_rate);
    let infos = infos_of(after);
    lemma_held_after(infos, infos.len(), group, index);
    assert(infos.take(infos.len() as int) =~= infos);
    match group_pos(gs, group) {
        Some(p) => {
            let g2 = group_after_update(gs[p], index, coordinate, note_state, now, default_rate);
            let pre = gs.take(p);
            let post = gs.skip(p + 1);
            assert(after =~= pre + seq![g2] + post);
            lemma_infos_of_concat(pre + seq![g2], post);
            lemma_infos_of_concat(pre, seq![g2]);
            assert(seq![g2].drop_last() =~= Seq::<GroupView<T, R>>::empty());
            assert(infos_of(seq![g2].drop_last()).len() == 0);
            assert(seq![g2].last() == g2);
            assert(infos_of(seq![g2]) =~= group_infos(g2));
            assert forall|i: int| 0 <= i < post.len() implies (#[trigger] post[i]).0 != group by {
                assert(post[i] == gs[p + 1 + i]);
                assert(gs[p].0 != gs[p + 1 + i].0);
            }
            lemma_last_state_other_groups(post, group, index);
            lemma_last_state_concat(infos_of(pre + seq![g2]), infos_of(post), group, index);
            lemma_last_state_concat(infos_of(pre), group_infos(g2), group, index);
            assert(group_infos(g2).last() == entry_info(g2, g2.3.last()));
        },
        None => {
            let g2 = group_after_update((group, button_type, GroupToggleState::Off, Seq::empty()), index, coordinate, note_state, now, default_rate);
            assert(after.drop_last() =~= gs);
            assert(infos =~= infos_of(gs) + group_infos(g2));
            lemma_last_state_concat(infos_of(gs), group_infos(g2), group, index);
            assert(group_infos(g2).last() == entry_info(g2, g2.3.last()));
        },
    }
}

/// The input that replays a button state: a press or a release of the
/// button, which sits on the main grid.
pub open spec fn info_input<T, R, F>(info: ButtonInfo<T, R>) -> InputEvent<F> {
    match info.note_state {
        NoteState::On => InputEvent::ButtonPressed(ButtonGridLocation::Main, info.coordinate),
        NoteState::Off => InputEvent::ButtonReleased(ButtonGridLocation::Main, info.coordinate),
    }
}

impl<T: Copy, R: Copy> ButtonStates<T, R> {
    /// The inputs that replay every button state, in the order of `iter_info`.
    pub fn input_events<F>(&self) -> (r: Vec<InputEvent<F>>)
        ensures
            r@ == infos_of(self@).map_values(|i: ButtonInfo<T, R>| info_input::<T, R, F>(i)),
    {
        let infos = self.iter_info();
        let mut r: Vec<InputEvent<F>> = Vec::new();
        let mut i: usize = 0;
        while i < infos.len()
            invariant
                i <= infos@.len(),
                infos@ == infos_of(self@),
                r@ == infos@.take(i as int).map_values(|i: ButtonInfo<T, R>| info_input::<T, R, F>(i)),
            decreases infos@.len() - i,
        {
            let e = match infos[i].note_state {
                NoteState::On => InputEvent::ButtonPressed(ButtonGridLocation::Main, infos[i].coordinate),
                NoteState::Off => InputEvent::ButtonReleased(ButtonGridLocation::Main, infos[i].coordinate),
            };
            r.push(e);
            assert(infos@.take(i + 1) =~= infos@.take(i as int).push(infos@[i as int]));
            assert(r@ =~= infos@.take(i + 1).map_values(|i: ButtonInfo<T, R>| info_input::<T, R, F>(i)));
            i += 1;
        }
        assert(infos@.take(i as int) =~= infos@);
        r
    }
}

impl<T: Copy, R: Copy> ButtonStates<T, R> {
    /// Each touched group with its toggle state, in the order they were
    /// first touched.
    pub fn group_toggle_states(&self) -> (r: Vec<(ButtonGroupId, GroupToggleState)>)
        ensures
            r@ == self@.map_values(|g: GroupView<T, R>| (g.0, g.2)),
    {
        let mut r: Vec<(ButtonGroupId, GroupToggleState)> = Vec::new();
        let mut i: usize = 0;
        while i < self.groups.len()
            invariant
                i <= self.groups@.len(),
                self@.len() == self.groups@.len(),
                r@.len() == i,
                forall|k: int| 0 <= k < i ==> #[trigger] r@[k] == (self@[k].0, self@[k].2),
            decreases self.groups@.len() - i,
        {
            assert(self@[i as int] == group_view(self.groups@[i as int]));
            r.push((self.groups[i].group, self.groups[i].toggle_state));
            i += 1;
        }
        assert(r@ =~= self@.map_values(|g: GroupView<T, R>| (g.0, g.2)));
        r
    }
}

} // verus!
