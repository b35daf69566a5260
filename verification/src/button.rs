//! Buttons of the control surface: how they are grouped, and the state machine
//! that decides how each pad is lit as buttons are pressed and released.
use vstd::prelude::*;
use vstd::laws_eq::obeys_concrete_eq;

use std::collections::HashMap;

use crate::control::{ButtonCoordinate, ButtonGridLocation, ButtonState, InputEvent};
use crate::control_mapping::ControlMapping;
use crate::utils::{first_index_of, shift_remove_vec};

verus! {

/// Identifies a group of buttons. Identifiers are handed out in sequence.
#[derive(Debug, Copy, Clone, PartialEq, Eq, Hash, PartialOrd, Structural)]
pub struct ButtonGroupId(pub usize);

impl ButtonGroupId {
    /// Takes the next identifier of the sequence `next_id` and advances it
    /// (wrapping at the top of the range, as an atomic counter does).
    pub fn new(next_id: &mut usize) -> (id: ButtonGroupId)
        ensures
            id.0 == *old(next_id),
            *final(next_id) == (if *old(next_id) == usize::MAX { 0 } else { (*old(next_id) + 1) as usize }),
    {
        let id = *next_id;
        *next_id = next_id.wrapping_add(1);
        ButtonGroupId(id)
    }
}

/// The toggle state of a button group. Toggling with the button that turned the
/// group on turns it off; toggling with another button keeps it on, now with
/// that button.
#[derive(Debug, Clone, Copy, PartialEq, Eq, Hash, Structural)]
pub enum GroupToggleState {
    On(ButtonCoordinate),
    Off,
}

pub open spec fn toggle_spec(s: GroupToggleState, coord: ButtonCoordinate) -> GroupToggleState {
    if s == GroupToggleState::On(coord) { GroupToggleState::Off } else { GroupToggleState::On(coord) }
}

impl GroupToggleState {
    pub fn toggle(self, coord: ButtonCoordinate) -> (s: GroupToggleState)
        ensures
            s == toggle_spec(self, coord),
    {
        if self == GroupToggleState::On(coord) {
            GroupToggleState::Off
        } else {
            GroupToggleState::On(coord)
        }
    }

    pub fn toggle_mut(&mut self, coord: ButtonCoordinate)
        ensures
            *final(self) == toggle_spec(*old(self), coord),
    {
        *self = self.toggle(coord);
    }
}

/// Toggling twice with the same button undoes the first toggle when the group
/// was off or on with that button; toggling always leaves the group off or on
/// with the button used.
pub proof fn lemma_toggle_twice(s: GroupToggleState, coord: ButtonCoordinate)
    ensures
        (s == GroupToggleState::Off || s == GroupToggleState::On(coord))
            ==> toggle_spec(toggle_spec(s, coord), coord) == s,
        toggle_spec(s, coord) == GroupToggleState::Off || toggle_spec(s, coord) == GroupToggleState::On(coord),
        toggle_spec(s, coord) == GroupToggleState::Off <==> s == GroupToggleState::On(coord),
{
}

/// How a button behaves when pressed.
#[derive(Debug, Clone, Copy, PartialEq, Eq, Hash, Structural)]
pub enum ButtonType {
    /// Once enabled, this button, or a button in its group, stays on.
    Switch,
    /// Pressing enables, pressing again disables.
    Toggle,
    /// On only while held down.
    Flash,
}

/// A button of the main grid, with its label and what pressing it does (`A`).
#[derive(Debug, Clone)]
pub struct ButtonMapping<A> {
    pub label: String,
    pub coordinate: ButtonCoordinate,
    pub on_action: A,
}

/// A global button on one of the meta grids; `M` is what it does.
#[derive(Debug, Clone)]
pub struct MetaButtonMapping<M> {
    pub location: ButtonGridLocation,
    pub coordinate: ButtonCoordinate,
    pub on_action: M,
    pub off_action: Option<M>,
}

/// A set of buttons that act together.
#[derive(Debug, Clone)]
pub struct ButtonGroup<A> {
    pub id: ButtonGroupId,
    pub button_type: ButtonType,
    pub buttons: Vec<ButtonMapping<A>>,
}

impl<A> ButtonMapping<A> {
    /// A group holding this button alone.
    pub fn into_group(self, next_id: &mut usize, button_type: ButtonType) -> (g: ButtonGroup<A>)
        ensures
            g.id.0 == *old(next_id),
            g.button_type == button_type,
            g.buttons@ == seq![self],
            *final(next_id) == (if *old(next_id) == usize::MAX { 0 } else { (*old(next_id) + 1) as usize }),
    {
        let mut buttons = Vec::new();
        buttons.push(self);
        ButtonGroup::new(next_id, button_type, buttons)
    }
}

/// Refers to a button of a control mapping: a main-grid button by its group,
/// the group's type and its position and coordinate in the group, or a meta
/// button by where it sits.
#[derive(Debug, Clone, Copy, Eq, Hash)]
pub enum ButtonRef {
    Standard { group: ButtonGroupId, button_type: ButtonType, index: usize, coordinate: ButtonCoordinate },
    Meta { location: ButtonGridLocation, coordinate: ButtonCoordinate },
}

pub open spec fn ref_location(r: ButtonRef) -> ButtonGridLocation {
    match r {
        ButtonRef::Standard { .. } => ButtonGridLocation::Main,
        ButtonRef::Meta { location, .. } => location,
    }
}

pub open spec fn ref_coordinate(r: ButtonRef) -> ButtonCoordinate {
    match r {
        ButtonRef::Standard { coordinate, .. } => coordinate,
        ButtonRef::Meta { coordinate, .. } => coordinate,
    }
}

/// Meta buttons behave as switches.
pub open spec fn ref_button_type(r: ButtonRef) -> ButtonType {
    match r {
        ButtonRef::Standard { button_type, .. } => button_type,
        ButtonRef::Meta { .. } => ButtonType::Switch,
    }
}

impl ButtonRef {
    pub fn location(&self) -> (l: ButtonGridLocation)
        ensures
            l == ref_location(*self),
    {
        match self {
            ButtonRef::Standard { .. } => ButtonGridLocation::Main,
            ButtonRef::Meta { location, .. } => *location,
        }
    }

    pub fn coordinate(&self) -> (c: ButtonCoordinate)
        ensures
            c == ref_coordinate(*self),
    {
        match self {
            ButtonRef::Standard { coordinate, .. } => *coordinate,
            ButtonRef::Meta { coordinate, .. } => *coordinate,
        }
    }

    pub fn button_type(&self) -> (t: ButtonType)
        ensures
            t == ref_button_type(*self),
    {
        match self {
            ButtonRef::Standard { button_type, .. } => *button_type,
            ButtonRef::Meta { .. } => ButtonType::Switch,
        }
    }
}

impl PartialEq for ButtonRef {
    fn eq(&self, other: &Self) -> (r: bool) {
        match (self, other) {
            (
                ButtonRef::Standard { group: g1, button_type: t1, index: i1, coordinate: c1 },
                ButtonRef::Standard { group: g2, button_type: t2, index: i2, coordinate: c2 },
            ) => *g1 == *g2 && *t1 == *t2 && *i1 == *i2 && *c1 == *c2,
            (
                ButtonRef::Meta { location: l1, coordinate: c1 },
                ButtonRef::Meta { location: l2, coordinate: c2 },
            ) => *l1 == *l2 && *c1 == *c2,
            _ => false,
        }
    }
}

impl vstd::std_specs::cmp::PartialEqSpecImpl for ButtonRef {
    open spec fn obeys_eq_spec() -> bool {
        true
    }

    open spec fn eq_spec(&self, other: &ButtonRef) -> bool {
        *self == *other
    }
}

/// `ButtonRef`'s `==` is equality of its fields.
pub proof fn lemma_button_ref_concrete_eq()
    ensures
        obeys_concrete_eq::<ButtonRef>(),
{
    reveal(obeys_concrete_eq);
}

/// The reference to the `i`-th button of a group.
pub open spec fn group_ref<A>(group: ButtonGroup<A>, i: int) -> ButtonRef {
    ButtonRef::Standard {
        group: group.id,
        button_type: group.button_type,
        index: i as usize,
        coordinate: group.buttons@[i].coordinate,
    }
}

/// The coordinates of a group's buttons, in order.
pub open spec fn group_coordinates<A>(group: ButtonGroup<A>) -> Seq<ButtonCoordinate> {
    group.buttons@.map_values(|b: ButtonMapping<A>| b.coordinate)
}

/// A group holds only main-grid buttons; it finds the first of its buttons at a coordinate.
pub open spec fn find_button_spec<A>(group: ButtonGroup<A>, location: ButtonGridLocation, coordinate: ButtonCoordinate) -> Option<int> {
    if location == ButtonGridLocation::Main {
        first_index_of(group_coordinates(group), coordinate)
    } else {
        None
    }
}

pub open spec fn find_button_ref_spec<A>(group: ButtonGroup<A>, location: ButtonGridLocation, coordinate: ButtonCoordinate) -> Option<ButtonRef> {
    match find_button_spec(group, location, coordinate) {
        Some(i) => Some(group_ref(group, i)),
        None => None,
    }
}

impl<A> ButtonGroup<A> {
    /// A group with the next identifier of the sequence `next_id`.
    pub fn new(next_id: &mut usize, button_type: ButtonType, buttons: Vec<ButtonMapping<A>>) -> (g: ButtonGroup<A>)
        ensures
            g.id.0 == *old(next_id),
            g.button_type == button_type,
            g.buttons@ == buttons@,
            *final(next_id) == (if *old(next_id) == usize::MAX { 0 } else { (*old(next_id) + 1) as usize }),
    {
        ButtonGroup { id: ButtonGroupId::new(next_id), buttons, button_type }
    }

    pub fn id(&self) -> (id: ButtonGroupId)
        ensures
            id == self.id,
    {
        self.id
    }

    /// References to the group's buttons, in order.
    pub fn button_refs(&self) -> (refs: Vec<ButtonRef>)
        ensures
            refs@.len() == self.buttons@.len(),
            forall|i: int| 0 <= i < refs@.len() ==> refs@[i] == group_ref(*self, i),
    {
        let mut refs = Vec::new();
        let mut i: usize = 0;
        while i < self.buttons.len()
            invariant
                i <= self.buttons@.len(),
                refs@.len() == i,
                forall|k: int| 0 <= k < i ==> refs@[k] == group_ref(*self, k),
            decreases self.buttons@.len() - i,
        {
            refs.push(ButtonRef::Standard {
                group: self.id,
                button_type: self.button_type,
                index: i,
                coordinate: self.buttons[i].coordinate,
            });
            i += 1;
        }
        refs
    }

    /// The position of the first button of the group at `coordinate` of the main grid.
    fn find_button_index(&self, location: &ButtonGridLocation, coordinate: &ButtonCoordinate) -> (r: Option<usize>)
        ensures
            r is Some <==> find_button_spec(*self, *location, *coordinate) is Some,
            r matches Some(k) ==> find_button_spec(*self, *location, *coordinate) == Some(k as int)
                && k < self.buttons@.len(),
    {
        if *location == ButtonGridLocation::Main {
            let ghost coords = group_coordinates(*self);
            let mut i: usize = 0;
            while i < self.buttons.len()
                invariant
                    i <= self.buttons@.len(),
                    coords == group_coordinates(*self),
                    *location == ButtonGridLocation::Main,
                    coords.len() == self.buttons@.len(),
                    forall|j: int| 0 <= j < i ==> coords[j] != *coordinate,
                decreases self.buttons@.len() - i,
            {
                if self.buttons[i].coordinate == *coordinate {
                    proof { crate::utils::lemma_first_index_of(coords, *coordinate, i as int); }
                    return Some(i);
                }
                i += 1;
            }
            assert(!exists|k: int| 0 <= k < coords.len() && coords[k] == *coordinate
                && forall|j: int| 0 <= j < k ==> coords[j] != *coordinate);
            None
        } else {
            None
        }
    }

    /// The first button of the group at `coordinate`; groups hold only main-grid buttons.
    pub fn find_button(&self, location: &ButtonGridLocation, coordinate: &ButtonCoordinate) -> (r: Option<&ButtonMapping<A>>)
        ensures
            match find_button_spec(*self, *location, *coordinate) {
                Some(i) => r == Some(&self.buttons@[i]),
                None => r is None,
            },
    {
        let idx = self.find_button_index(location, coordinate);
        match idx {
            Some(i) => {
                assert(find_button_spec(*self, *location, *coordinate) == Some(i as int));
                Some(&self.buttons[i])
            },
            None => None,
        }
    }

    pub fn find_button_ref(&self, location: &ButtonGridLocation, coordinate: &ButtonCoordinate) -> (r: Option<ButtonRef>)
        ensures
            r == find_button_ref_spec(*self, *location, *coordinate),
    {
        match self.find_button_index(location, coordinate) {
            Some(i) => Some(ButtonRef::Standard {
                group: self.id,
                button_type: self.button_type,
                index: i,
                coordinate: self.buttons[i].coordinate,
            }),
            None => None,
        }
    }
}

/// What happened to a pad, or to another pad of its group.
#[derive(Debug, Clone, Copy, PartialEq, Eq, Structural)]
pub enum PadAction {
    Pressed,
    Released,
    SiblingPressed,
    SiblingReleased,
}

/// A button together with how it is lit.
#[derive(Debug, Clone, Copy)]
pub struct Pad {
    pub mapping: ButtonRef,
    pub state: ButtonState,
}

/// How a pad is lit after `action`, given its group's toggle state and the
/// buttons of the group held down (after the action).
/// A flash pad is lit while pressed; a toggle pad follows its group's toggle
/// state; a switch pad lights when pressed, goes dark when another button of its
/// group is pressed, stays lit when released unless buttons are still held, and
/// goes back to inactive once all its group is released.
pub open spec fn pad_step(pad: Pad, action: PadAction, toggle: GroupToggleState, active: Seq<ButtonRef>) -> ButtonState {
    match ref_button_type(pad.mapping) {
        ButtonType::Flash => if action == PadAction::Pressed { ButtonState::Active } else { ButtonState::Inactive },
        ButtonType::Toggle => match toggle {
            GroupToggleState::On(coord) => if coord == ref_coordinate(pad.mapping) { ButtonState::Active } else { ButtonState::Inactive },
            GroupToggleState::Off => ButtonState::Inactive,
        },
        ButtonType::Switch => match action {
            PadAction::Pressed => ButtonState::Active,
            PadAction::SiblingPressed => if !active.contains(pad.mapping) { ButtonState::Deactivated } else { pad.state },
            PadAction::Released => if active.len() == 0 { pad.state } else { ButtonState::Deactivated },
            PadAction::SiblingReleased => if active.len() == 0 { ButtonState::Inactive } else { pad.state },
        },
    }
}

/// A flash button is lit exactly while it is held: the press lights it and
/// anything else that happens leaves it unlit.
pub proof fn lemma_flash_pad(pad: Pad, action: PadAction, toggle: GroupToggleState, active: Seq<ButtonRef>)
    requires
        ref_button_type(pad.mapping) == ButtonType::Flash,
    ensures
        (pad_step(pad, action, toggle, active) == ButtonState::Active) <==> action == PadAction::Pressed,
{
}

/// Once pressed, a switch stays lit: pressing lights it, and releasing it
/// while no button of its group is held leaves it as it was. Releasing it
/// while another button of its group is still held turns it deactivated, and
/// so does a press of another button of its group while it is not held; once
/// every button of the group is released, the others go back to inactive.
pub proof fn lemma_switch_pad(pad: Pad, toggle: GroupToggleState, active: Seq<ButtonRef>)
    requires
        ref_button_type(pad.mapping) == ButtonType::Switch,
    ensures
        pad_step(pad, PadAction::Pressed, toggle, active) == ButtonState::Active,
        active.len() == 0 ==> pad_step(pad, PadAction::Released, toggle, active) == pad.state,
        active.len() > 0 ==> pad_step(pad, PadAction::Released, toggle, active) == ButtonState::Deactivated,
        !active.contains(pad.mapping) ==> pad_step(pad, PadAction::SiblingPressed, toggle, active) == ButtonState::Deactivated,
        active.len() == 0 ==> pad_step(pad, PadAction::SiblingReleased, toggle, active) == ButtonState::Inactive,
{
}

/// A toggle button is lit exactly when its group is toggled on with it.
pub proof fn lemma_toggle_pad(pad: Pad, action: PadAction, toggle: GroupToggleState, active: Seq<ButtonRef>)
    requires
        ref_button_type(pad.mapping) == ButtonType::Toggle,
    ensures
        (pad_step(pad, action, toggle, active) == ButtonState::Active) <==> toggle == GroupToggleState::On(ref_coordinate(pad.mapping)),
{
}

fn contains_ref(refs: &[ButtonRef], r: &ButtonRef) -> (b: bool)
    ensures
        b == refs@.contains(*r),
{
    let mut i: usize = 0;
    while i < refs.len()
        invariant
            i <= refs@.len(),
            forall|j: int| 0 <= j < i ==> refs@[j] != *r,
        decreases refs@.len() - i,
    {
        if refs[i] == *r {
            assert(refs@[i as int] == *r);
            return true;
        }
        i += 1;
    }
    false
}

impl Pad {
    /// A pad starts inactive.
    pub fn new(mapping: ButtonRef) -> (p: Pad)
        ensures
            p.mapping == mapping,
            p.state == ButtonState::Inactive,
    {
        Pad { mapping, state: ButtonState::Inactive }
    }

    pub fn apply_event(&mut self, action: PadAction, group_toggle_state: &GroupToggleState, active_group_buttons: &[ButtonRef])
        ensures
            final(self).mapping == old(self).mapping,
            final(self).state == pad_step(*old(self), action, *group_toggle_state, active_group_buttons@),
    {
        match self.mapping.button_type() {
            ButtonType::Flash => {
                self.state = match action {
                    PadAction::Pressed => ButtonState::Active,
                    _ => ButtonState::Inactive,
                };
            },
            ButtonType::Toggle => match group_toggle_state {
                GroupToggleState::On(coord) => {
                    if *coord == self.mapping.coordinate() {
                        self.state = ButtonState::Active;
                    } else {
                        self.state = ButtonState::Inactive;
                    }
                },
                GroupToggleState::Off => {
                    self.state = ButtonState::Inactive;
                },
            },
            ButtonType::Switch => match action {
                PadAction::Pressed => {
                    self.state = ButtonState::Active;
                },
                PadAction::SiblingPressed => {
                    if !contains_ref(active_group_buttons, &self.mapping) {
                        self.state = ButtonState::Deactivated;
                    }
                },
                PadAction::Released => {
                    if active_group_buttons.len() != 0 {
                        self.state = ButtonState::Deactivated;
                    }
                },
                PadAction::SiblingReleased => {
                    if active_group_buttons.len() == 0 {
                        self.state = ButtonState::Inactive;
                    }
                },
            },
        }
    }
}

/// Every pad of a group after a button of the group (`pressed`) was pressed or
/// released: that pad sees the press or release itself, the others see a sibling's.
pub open spec fn pads_step(pads: Seq<Pad>, pressed: ButtonRef, is_press: bool, toggle: GroupToggleState, active: Seq<ButtonRef>) -> Seq<Pad> {
    Seq::new(pads.len(), |k: int| {
        let action = if pads[k].mapping == pressed {
            if is_press { PadAction::Pressed } else { PadAction::Released }
        } else {
            if is_press { PadAction::SiblingPressed } else { PadAction::SiblingReleased }
        };
        Pad { mapping: pads[k].mapping, state: pad_step(pads[k], action, toggle, active) }
    })
}

/// In a switch group, the pad of a button released while another button of
/// the group is still held is deactivated, and every other pad of the group
/// keeps its state.
pub proof fn lemma_switch_group_release_while_held(pads: Seq<Pad>, released: ButtonRef, toggle: GroupToggleState, active: Seq<ButtonRef>, k: int)
    requires
        0 <= k < pads.len(),
        ref_button_type(pads[k].mapping) == ButtonType::Switch,
        active.len() > 0,
    ensures
        pads[k].mapping == released ==> pads_step(pads, released, false, toggle, active)[k].state == ButtonState::Deactivated,
        pads[k].mapping != released ==> pads_step(pads, released, false, toggle, active)[k].state == pads[k].state,
        pads_step(pads, released, false, toggle, active)[k].mapping == pads[k].mapping,
{
}

/// `s` without the first element equal to `x`, if there is one.
pub open spec fn remove_first<T>(s: Seq<T>, x: T) -> Seq<T> {
    match first_index_of(s, x) {
        Some(i) => s.remove(i),
        None => s,
    }
}

/// How an input changes a group's held buttons and pads: pressing one of its
/// buttons adds it to the held buttons, releasing removes it, and every pad of
/// the group is told; inputs for other buttons leave the group alone.
pub open spec fn pad_group_step<A, F>(group: ButtonGroup<A>, toggle: GroupToggleState, active: Seq<ButtonRef>, pads: Seq<Pad>, event: InputEvent<F>) -> (Seq<ButtonRef>, Seq<Pad>) {
    match event {
        InputEvent::ButtonPressed(location, coordinate) => match find_button_ref_spec(group, location, coordinate) {
            Some(r) => {
                let a = active.push(r);
                (a, pads_step(pads, r, true, toggle, a))
            },
            None => (active, pads),
        },
        InputEvent::ButtonReleased(location, coordinate) => match find_button_ref_spec(group, location, coordinate) {
            Some(r) => {
                let a = remove_first(active, r);
                (a, pads_step(pads, r, false, toggle, a))
            },
            None => (active, pads),
        },
        InputEvent::FaderUpdated(_, _) => (active, pads),
    }
}

/// The pads of one button group while inputs are replayed.
pub struct PadGroup<'a, A> {
    pub group: &'a ButtonGroup<A>,
    pub active_buttons: Vec<ButtonRef>,
    pub toggle_state: GroupToggleState,
    pub pads: Vec<Pad>,
}

/// A group's pads before any input: one inactive pad per button, in order.
pub open spec fn initial_pads<A>(group: ButtonGroup<A>) -> Seq<Pad> {
    Seq::new(group.buttons@.len(), |i: int| Pad { mapping: group_ref(group, i), state: ButtonState::Inactive })
}

fn apply_to_pads(pads: &mut Vec<Pad>, pressed: &ButtonRef, is_press: bool, toggle: &GroupToggleState, active: &Vec<ButtonRef>)
    ensures
        final(pads)@ == pads_step(old(pads)@, *pressed, is_press, *toggle, active@),
{
    let ghost old_pads = pads@;
    let mut k: usize = 0;
    while k < pads.len()
        invariant
            k <= pads@.len(),
            pads@.len() == old_pads.len(),
            forall|j: int| 0 <= j < k ==> pads@[j] == pads_step(old_pads, *pressed, is_press, *toggle, active@)[j],
            forall|j: int| k <= j < pads@.len() ==> pads@[j] == old_pads[j],
        decreases pads@.len() - k,
    {
        let mut pad = pads[k];
        let action = if *pressed == pad.mapping {
            if is_press { PadAction::Pressed } else { PadAction::Released }
        } else {
            if is_press { PadAction::SiblingPressed } else { PadAction::SiblingReleased }
        };
        pad.apply_event(action, toggle, active.as_slice());
        pads.set(k, pad);
        k += 1;
    }
    assert(pads@ =~= pads_step(old_pads, *pressed, is_press, *toggle, active@));
}

impl<'a, A> PadGroup<'a, A> {
    pub fn new(group: &'a ButtonGroup<A>, toggle_state: GroupToggleState) -> (pg: PadGroup<'a, A>)
        ensures
            pg.group == group,
            pg.toggle_state == toggle_state,
            pg.active_buttons@ == Seq::<ButtonRef>::empty(),
            pg.pads@ == initial_pads(*group),
    {
        let refs = group.button_refs();
        let mut pads: Vec<Pad> = Vec::new();
        let mut i: usize = 0;
        while i < refs.len()
            invariant
                i <= refs@.len(),
                refs@.len() == group.buttons@.len(),
                forall|k: int| 0 <= k < refs@.len() ==> refs@[k] == group_ref(*group, k),
                pads@.len() == i,
                forall|k: int| 0 <= k < i ==> pads@[k] == initial_pads(*group)[k],
            decreases refs@.len() - i,
        {
            pads.push(Pad::new(refs[i]));
            i += 1;
        }
        assert(pads@ =~= initial_pads(*group));
        PadGroup { group, toggle_state, pads, active_buttons: Vec::new() }
    }

    pub fn apply_event<F>(&mut self, event: &InputEvent<F>)
        ensures
            final(self).group == old(self).group,
            final(self).toggle_state == old(self).toggle_state,
            (final(self).active_buttons@, final(self).pads@) == pad_group_step(
                *old(self).group, old(self).toggle_state, old(self).active_buttons@, old(self).pads@, *event),
    {
        match event {
            InputEvent::ButtonPressed(location, coordinate) => {
                if let Some(button_ref) = self.group.find_button_ref(location, coordinate) {
                    self.active_buttons.push(button_ref);
                    apply_to_pads(&mut self.pads, &button_ref, true, &self.toggle_state, &self.active_buttons);
                }
            },
            InputEvent::ButtonReleased(location, coordinate) => {
                if let Some(button_ref) = self.group.find_button_ref(location, coordinate) {
                    proof { lemma_button_ref_concrete_eq(); }
                    shift_remove_vec(&mut self.active_buttons, &button_ref);
                    apply_to_pads(&mut self.pads, &button_ref, false, &self.toggle_state, &self.active_buttons);
                }
            },
            InputEvent::FaderUpdated(_, _) => {},
        }
    }
}

/// The toggle state a group starts from: the one recorded for its identifier, else off.
pub open spec fn group_toggle<A>(toggles: Map<usize, GroupToggleState>, group: ButtonGroup<A>) -> GroupToggleState {
    if toggles.contains_key(group.id.0) { toggles[group.id.0] } else { GroupToggleState::Off }
}

/// A meta pad sees only presses and releases of its own button, as a switch
/// with no group around it: once pressed it stays lit.
pub open spec fn meta_pad_step<F>(pad: Pad, event: InputEvent<F>) -> Pad {
    match event {
        InputEvent::ButtonPressed(l, c) =>
            if l == ref_location(pad.mapping) && c == ref_coordinate(pad.mapping) {
                Pad { mapping: pad.mapping, state: pad_step(pad, PadAction::Pressed, GroupToggleState::Off, Seq::empty()) }
            } else {
                pad
            },
        InputEvent::ButtonReleased(l, c) =>
            if l == ref_location(pad.mapping) && c == ref_coordinate(pad.mapping) {
                Pad { mapping: pad.mapping, state: pad_step(pad, PadAction::Released, GroupToggleState::Off, Seq::empty()) }
            } else {
                pad
            },
        InputEvent::FaderUpdated(_, _) => pad,
    }
}

/// The held buttons and pads of every group after replaying `events`.
pub open spec fn replay_groups<A, F>(groups: Seq<ButtonGroup<A>>, toggles: Map<usize, GroupToggleState>, events: Seq<InputEvent<F>>)
    -> Seq<(Seq<ButtonRef>, Seq<Pad>)>
    decreases events.len(),
{
    if events.len() == 0 {
        Seq::new(groups.len(), |k: int| (Seq::<ButtonRef>::empty(), initial_pads(groups[k])))
    } else {
        let prev = replay_groups(groups, toggles, events.drop_last());
        Seq::new(groups.len(), |k: int| pad_group_step(groups[k], group_toggle(toggles, groups[k]), prev[k].0, prev[k].1, events.last()))
    }
}

/// A meta button's pad before any input.
pub open spec fn initial_meta_pad<M>(m: MetaButtonMapping<M>) -> Pad {
    Pad { mapping: ButtonRef::Meta { location: m.location, coordinate: m.coordinate }, state: ButtonState::Inactive }
}

/// The meta buttons' pads after replaying `events`.
pub open spec fn replay_meta<M, F>(metas: Seq<MetaButtonMapping<M>>, events: Seq<InputEvent<F>>) -> Seq<Pad>
    decreases events.len(),
{
    if events.len() == 0 {
        Seq::new(metas.len(), |k: int| initial_meta_pad(metas[k]))
    } else {
        let prev = replay_meta(metas, events.drop_last());
        Seq::new(prev.len(), |k: int| meta_pad_step(prev[k], events.last()))
    }
}

/// All groups' pads, group after group.
pub open spec fn all_group_pads(gs: Seq<(Seq<ButtonRef>, Seq<Pad>)>) -> Seq<Pad>
    decreases gs.len(),
{
    if gs.len() == 0 { Seq::empty() } else { all_group_pads(gs.drop_last()) + gs.last().1 }
}

pub open spec fn pad_entries(pads: Seq<Pad>) -> Seq<(ButtonRef, ButtonState)> {
    pads.map_values(|p: Pad| (p.mapping, p.state))
}

/// How every button of a mapping is lit after replaying `events` from a fresh
/// start, with each group's toggle state taken from `toggles`: the pads of the
/// groups in order, then the meta buttons'.
pub open spec fn pad_states_spec<A, M, C, F>(cm: ControlMapping<A, M, C>, toggles: Map<usize, GroupToggleState>, events: Seq<InputEvent<F>>)
    -> Seq<(ButtonRef, ButtonState)> {
    pad_entries(all_group_pads(replay_groups(cm.button_groups@, toggles, events)) + replay_meta(cm.meta_buttons@, events))
}

fn meta_pad_apply<F>(pad: &mut Pad, event: &InputEvent<F>)
    ensures
        *final(pad) == meta_pad_step(*old(pad), *event),
{
    let no_buttons: Vec<ButtonRef> = Vec::new();
    match event {
        InputEvent::ButtonPressed(location, coordinate) => {
            if *location == pad.mapping.location() && *coordinate == pad.mapping.coordinate() {
                pad.apply_event(PadAction::Pressed, &GroupToggleState::Off, no_buttons.as_slice());
            }
        },
        InputEvent::ButtonReleased(location, coordinate) => {
            if *location == pad.mapping.location() && *coordinate == pad.mapping.coordinate() {
                pad.apply_event(PadAction::Released, &GroupToggleState::Off, no_buttons.as_slice());
            }
        },
        InputEvent::FaderUpdated(_, _) => {},
    }
}

/// Replays input events over a control mapping and gives how each button ends up lit.
pub fn pad_states<'a, A, M, C, F>(
    control_mapping: &'a ControlMapping<A, M, C>,
    group_toggle_states: &HashMap<usize, GroupToggleState>,
    input_events: Vec<InputEvent<F>>,
) -> (r: Vec<(ButtonRef, ButtonState)>)
    ensures
        r@ == pad_states_spec(*control_mapping, group_toggle_states@, input_events@),
{
    let ghost groups = control_mapping.button_groups@;
    let ghost metas = control_mapping.meta_buttons@;
    let ghost toggles = group_toggle_states@;
    let ghost events = input_events@;

    let mut state: Vec<PadGroup<'a, A>> = Vec::new();
    let mut g: usize = 0;
    while g < control_mapping.button_groups.len()
        invariant
            g <= groups.len(),
            groups == control_mapping.button_groups@,
            toggles == group_toggle_states@,
            state@.len() == g,
            forall|k: int| 0 <= k < g ==> {
                &&& *(#[trigger] state@[k]).group == groups[k]
                &&& state@[k].toggle_state == group_toggle(toggles, groups[k])
                &&& (state@[k].active_buttons@, state@[k].pads@) == replay_groups(groups, toggles, events.take(0))[k]
            },
        decreases groups.len() - g,
    {
        let group = &control_mapping.button_groups[g];
        let toggle_state = match group_toggle_states.get(&group.id.0) {
            Some(t) => *t,
            None => GroupToggleState::Off,
        };
        state.push(PadGroup::new(group, toggle_state));
        g += 1;
    }

    let mut meta_pads: Vec<Pad> = Vec::new();
    let mut m: usize = 0;
    while m < control_mapping.meta_buttons.len()
        invariant
            m <= metas.len(),
            metas == control_mapping.meta_buttons@,
            meta_pads@.len() == m,
            forall|k: int| 0 <= k < m ==> meta_pads@[k] == replay_meta(metas, events.take(0))[k],
        decreases metas.len() - m,
    {
        let mb = &control_mapping.meta_buttons[m];
        meta_pads.push(Pad::new(ButtonRef::Meta { location: mb.location, coordinate: mb.coordinate }));
        m += 1;
    }
    assert(meta_pads@ =~= replay_meta(metas, events.take(0)));

    let mut i: usize = 0;
    while i < input_events.len()
        invariant
            i <= events.len(),
            events == input_events@,
            state@.len() == groups.len(),
            forall|k: int| 0 <= k < groups.len() ==> {
                &&& *(#[trigger] state@[k]).group == groups[k]
                &&& state@[k].toggle_state == group_toggle(toggles, groups[k])
                &&& (state@[k].active_buttons@, state@[k].pads@) == replay_groups(groups, toggles, events.take(i as int))[k]
            },
            meta_pads@ == replay_meta(metas, events.take(i as int)),
        decreases events.len() - i,
    {
        let event = &input_events[i];
        proof {
            assert(events.take(i + 1).drop_last() =~= events.take(i as int));
            assert(events.take(i + 1).last() == events[i as int]);
        }

        let ghost prev_state = state@;
        let mut rest = state;
        let mut next: Vec<PadGroup<'a, A>> = Vec::new();
        while rest.len() > 0
            invariant
                next@.len() + rest@.len() == groups.len(),
                prev_state.len() == groups.len(),
                rest@ == prev_state.subrange(next@.len() as int, groups.len() as int),
                forall|k: int| 0 <= k < next@.len() ==> {
                    &&& (#[trigger] next@[k]).group == prev_state[k].group
                    &&& next@[k].toggle_state == prev_state[k].toggle_state
                    &&& (next@[k].active_buttons@, next@[k].pads@) == pad_group_step(
                        *prev_state[k].group, prev_state[k].toggle_state, prev_state[k].active_buttons@, prev_state[k].pads@, *event)
                },
            decreases rest@.len(),
        {
            let mut pg = rest.remove(0);
            pg.apply_event(event);
            next.push(pg);
        }
        state = next;

        let ghost prev_meta = meta_pads@;
        let mut k: usize = 0;
        while k < meta_pads.len()
            invariant
                k <= meta_pads@.len(),
                meta_pads@.len() == prev_meta.len(),
                forall|j: int| 0 <= j < k ==> meta_pads@[j] == meta_pad_step(prev_meta[j], *event),
                forall|j: int| k <= j < meta_pads@.len() ==> meta_pads@[j] == prev_meta[j],
            decreases meta_pads@.len() - k,
        {
            let mut pad = meta_pads[k];
            meta_pad_apply(&mut pad, event);
            meta_pads.set(k, pad);
            k += 1;
        }
        assert(meta_pads@ =~= replay_meta(metas, events.take(i + 1)));
        i += 1;
    }
    assert(events.take(events.len() as int) =~= events);

    let ghost gs = replay_groups(groups, toggles, events);
    let mut out: Vec<(ButtonRef, ButtonState)> = Vec::new();
    let mut g: usize = 0;
    while g < state.len()
        invariant
            g <= state@.len(),
            state@.len() == groups.len(),
            gs.len() == groups.len(),
            forall|k: int| 0 <= k < groups.len() ==> (#[trigger] state@[k]).pads@ == gs[k].1,
            out@ == pad_entries(all_group_pads(gs.take(g as int))),
        decreases state@.len() - g,
    {
        let pads = &state[g].pads;
        let mut j: usize = 0;
        while j < pads.len()
            invariant
                j <= pads@.len(),
                pads@ == gs[g as int].1,
                out@ == pad_entries(all_group_pads(gs.take(g as int)) + pads@.take(j as int)),
            decreases pads@.len() - j,
        {
            out.push((pads[j].mapping, pads[j].state));
            proof {
                assert(all_group_pads(gs.take(g as int)) + pads@.take(j + 1) =~= (all_group_pads(gs.take(g as int)) + pads@.take(j as int)).push(pads@[j as int]));
            }
            j += 1;
        }
        proof {
            assert(gs.take(g + 1).drop_last() =~= gs.take(g as int));
            assert(pads@.take(j as int) =~= pads@);
        }
        g += 1;
    }
    assert(gs.take(gs.len() as int) =~= gs);
    let ghost base = all_group_pads(gs);
    let mut j: usize = 0;
    while j < meta_pads.len()
        invariant
            j <= meta_pads@.len(),
            out@ == pad_entries(base + meta_pads@.take(j as int)),
        decreases meta_pads@.len() - j,
    {
        out.push((meta_pads[j].mapping, meta_pads[j].state));
        proof {
            assert(base + meta_pads@.take(j + 1) =~= (base + meta_pads@.take(j as int)).push(meta_pads@[j as int]));
        }
        j += 1;
    }
    assert(meta_pads@.take(j as int) =~= meta_pads@);
    out
}

/// The state a button was last given in a list of button states.
pub open spec fn last_state_of(states: Seq<(ButtonRef, ButtonState)>, r: ButtonRef) -> Option<ButtonState>
    decreases states.len(),
{
    if states.len() == 0 {
        None
    } else if states.last().0 == r {
        Some(states.last().1)
    } else {
        last_state_of(states.drop_last(), r)
    }
}

/// Among the first `n` current button states, those that differ from the
/// previous ones (or are new), with where each button sits.
pub open spec fn changed_entries(previous: Seq<(ButtonRef, ButtonState)>, current: Seq<(ButtonRef, ButtonState)>, n: nat)
    -> Seq<(ButtonGridLocation, ButtonCoordinate, ButtonState)>
    decreases n,
{
    if n == 0 {
        Seq::empty()
    } else {
        let rest = changed_entries(previous, current, (n - 1) as nat);
        let e = current[n - 1];
        if last_state_of(previous, e.0) == Some(e.1) {
            rest
        } else {
            rest.push((ref_location(e.0), ref_coordinate(e.0), e.1))
        }
    }
}

fn last_state_exec(states: &[(ButtonRef, ButtonState)], r: &ButtonRef) -> (s: Option<ButtonState>)
    ensures
        s == last_state_of(states@, *r),
{
    let mut i: usize = states.len();
    assert(states@.take(i as int) =~= states@);
    while i > 0
        invariant
            i <= states@.len(),
            last_state_of(states@, *r) == last_state_of(states@.take(i as int), *r),
        decreases i,
    {
        let ghost prefix = states@.take(i as int);
        assert(prefix.drop_last() =~= states@.take(i - 1));
        assert(prefix.last() == states@[i - 1]);
        if states[i - 1].0 == *r {
            return Some(states[i - 1].1);
        }
        i -= 1;
    }
    assert(states@.take(0) =~= Seq::<(ButtonRef, ButtonState)>::empty());
    None
}

/// The buttons whose state differs from the previous states, or that had
/// none, in the order of the current states: what has to be shown anew.
pub fn changed_button_states(previous: &[(ButtonRef, ButtonState)], current: &[(ButtonRef, ButtonState)])
    -> (r: Vec<(ButtonGridLocation, ButtonCoordinate, ButtonState)>)
    ensures
        r@ == changed_entries(previous@, current@, current@.len()),
{
    let mut r: Vec<(ButtonGridLocation, ButtonCoordinate, ButtonState)> = Vec::new();
    let mut i: usize = 0;
    while i < current.len()
        invariant
            i <= current@.len(),
            r@ == changed_entries(previous@, current@, i as nat),
        decreases current@.len() - i,
    {
        let (button_ref, state) = current[i];
        let same = match last_state_exec(previous, &button_ref) {
            Some(prev) => prev == state,
            None => false,
        };
        if !same {
            r.push((button_ref.location(), button_ref.coordinate(), state));
        }
        i += 1;
    }
    r
}

} // verus!
