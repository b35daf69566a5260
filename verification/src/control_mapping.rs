//! The full layout of a control surface: its faders, button groups and meta buttons.
use vstd::prelude::*;

use crate::button::{ButtonGroup, ButtonRef, MetaButtonMapping, find_button_spec, group_ref};
use crate::control::{ButtonCoordinate, ButtonGridLocation, FaderId};
use crate::fixture::FixtureGroupId;

verus! {

/// What a fader controls.
#[derive(Debug, Clone, Copy, PartialEq, Eq, Hash, Structural)]
pub enum FaderType {
    MasterDimmer,
    GroupDimmer(FixtureGroupId),
    DimmerEffectIntensity,
    ColorEffectIntensity,
}

/// A fader, what it controls, and the response curve `C` applied to its position.
#[derive(Debug, Clone)]
pub struct FaderControlMapping<C> {
    pub id: FaderId,
    pub fader_type: FaderType,
    pub fader_curve: C,
}

/// A control surface layout. `A` is what main-grid buttons do, `M` what meta
/// buttons do and `C` the faders' response curves.
/// Each fader identifier and each meta-button position occurs once.
#[derive(Debug, Clone)]
pub struct ControlMapping<A, M, C> {
    pub faders: Vec<FaderControlMapping<C>>,
    pub button_groups: Vec<ButtonGroup<A>>,
    pub meta_buttons: Vec<MetaButtonMapping<M>>,
}

/// The key a meta button is found by.
pub open spec fn meta_key<M>(m: MetaButtonMapping<M>) -> (ButtonGridLocation, ButtonCoordinate) {
    (m.location, m.coordinate)
}

/// Two meta buttons sit at the same position.
pub open spec fn same_position<M>(a: MetaButtonMapping<M>, b: MetaButtonMapping<M>) -> bool {
    a.location == b.location && a.coordinate == b.coordinate
}

/// `out` keeps, for each fader identifier that occurs in `input`, the last
/// fader of `input` with that identifier, each identifier once.
pub open spec fn keeps_last_fader<C>(input: Seq<FaderControlMapping<C>>, out: Seq<FaderControlMapping<C>>) -> bool {
    &&& forall|i: int, j: int| #![trigger out[i], out[j]] 0 <= i < j < out.len() ==> out[i].id != out[j].id
    &&& forall|k: int| 0 <= k < input.len() ==> has_fader_id(out, #[trigger] input[k].id)
    &&& forall|j: int| 0 <= j < out.len() ==> is_last_fader(input, #[trigger] out[j])
}

/// Some fader of `s` has identifier `id`.
pub open spec fn has_fader_id<C>(s: Seq<FaderControlMapping<C>>, id: FaderId) -> bool {
    exists|j: int| 0 <= j < s.len() && #[trigger] s[j].id == id
}

/// `f` occurs in `s` after every other fader of `s` with its identifier.
pub open spec fn is_last_fader<C>(s: Seq<FaderControlMapping<C>>, f: FaderControlMapping<C>) -> bool {
    exists|k: int| 0 <= k < s.len() && #[trigger] s[k] == f
        && forall|k2: int| #![trigger s[k2]] k < k2 < s.len() ==> s[k2].id != f.id
}

/// `out` keeps, for each meta-button position that occurs in `input`, the last
/// meta button of `input` at that position, each position once.
pub open spec fn keeps_last_meta<M>(input: Seq<MetaButtonMapping<M>>, out: Seq<MetaButtonMapping<M>>) -> bool {
    &&& forall|i: int, j: int| #![trigger out[i], out[j]] 0 <= i < j < out.len() ==> !same_position(out[i], out[j])
    &&& forall|k: int| 0 <= k < input.len() ==> has_position(out, #[trigger] input[k])
    &&& forall|j: int| 0 <= j < out.len() ==> is_last_meta(input, #[trigger] out[j])
}

/// Some meta button of `s` sits where `m` does.
pub open spec fn has_position<M>(s: Seq<MetaButtonMapping<M>>, m: MetaButtonMapping<M>) -> bool {
    exists|j: int| 0 <= j < s.len() && same_position(#[trigger] s[j], m)
}

/// `m` occurs in `s` after every other meta button of `s` at its position.
pub open spec fn is_last_meta<M>(s: Seq<MetaButtonMapping<M>>, m: MetaButtonMapping<M>) -> bool {
    exists|k: int| 0 <= k < s.len() && #[trigger] s[k] == m
        && forall|k2: int| #![trigger s[k2]] k < k2 < s.len() ==> !same_position(s[k2], m)
}

impl<A, M, C> ControlMapping<A, M, C> {
    /// The mapping's invariant: fader identifiers and meta-button positions are unique.
    pub open spec fn well_formed(&self) -> bool {
        &&& forall|i: int, j: int| 0 <= i < j < self.faders@.len() ==> self.faders@[i].id != self.faders@[j].id
        &&& forall|i: int, j: int| 0 <= i < j < self.meta_buttons@.len()
            ==> !same_position(self.meta_buttons@[i], self.meta_buttons@[j])
    }

    /// Builds a mapping; where two faders share an identifier, or two meta buttons
    /// a position, the later one wins.
    pub fn new(
        faders: Vec<FaderControlMapping<C>>,
        button_groups: Vec<ButtonGroup<A>>,
        meta_buttons: Vec<MetaButtonMapping<M>>,
    ) -> (cm: ControlMapping<A, M, C>)
        ensures
            cm.well_formed(),
            cm.button_groups@ == button_groups@,
            keeps_last_fader(faders@, cm.faders@),
            keeps_last_meta(meta_buttons@, cm.meta_buttons@),
    {
        let faders = dedup_faders(faders);
        let meta_buttons = dedup_meta_buttons(meta_buttons);
        ControlMapping { faders, button_groups, meta_buttons }
    }

    /// The fader with an identifier.
    pub fn find_fader(&self, id: FaderId) -> (r: Option<&FaderControlMapping<C>>)
        ensures
            r matches Some(f) ==> exists|j: int| 0 <= j < self.faders@.len() && self.faders@[j] == *f && f.id == id
                && forall|k: int| 0 <= k < j ==> self.faders@[k].id != id,
            r is None ==> forall|j: int| 0 <= j < self.faders@.len() ==> self.faders@[j].id != id,
    {
        let mut j: usize = 0;
        while j < self.faders.len()
            invariant
                j <= self.faders@.len(),
                forall|k: int| 0 <= k < j ==> self.faders@[k].id != id,
            decreases self.faders@.len() - j,
        {
            if self.faders[j].id == id {
                return Some(&self.faders[j]);
            }
            j += 1;
        }
        None
    }

    /// The meta button at a position.
    pub fn find_meta_button(&self, location: ButtonGridLocation, coordinate: ButtonCoordinate) -> (r: Option<&MetaButtonMapping<M>>)
        ensures
            r matches Some(m) ==> exists|j: int| 0 <= j < self.meta_buttons@.len() && self.meta_buttons@[j] == *m
                && meta_key(*m) == (location, coordinate)
                && forall|k: int| 0 <= k < j ==> meta_key(self.meta_buttons@[k]) != (location, coordinate),
            r is None ==> forall|j: int| 0 <= j < self.meta_buttons@.len()
                ==> meta_key(self.meta_buttons@[j]) != (location, coordinate),
    {
        let mut j: usize = 0;
        while j < self.meta_buttons.len()
            invariant
                j <= self.meta_buttons@.len(),
                forall|k: int| 0 <= k < j ==> meta_key(self.meta_buttons@[k]) != (location, coordinate),
            decreases self.meta_buttons@.len() - j,
        {
            if self.meta_buttons[j].location == location && self.meta_buttons[j].coordinate == coordinate {
                return Some(&self.meta_buttons[j]);
            }
            j += 1;
        }
        None
    }

    /// The button at a position: on the main grid, the first button at that
    /// coordinate in the first group that has one; elsewhere the meta button there.
    pub fn find_button(&self, location: ButtonGridLocation, coordinate: ButtonCoordinate) -> (r: Option<ButtonRef>)
        ensures
            r == find_in_mapping_spec(*self, location, coordinate),
    {
        if location == ButtonGridLocation::Main {
            let mut g: usize = 0;
            while g < self.button_groups.len()
                invariant
                    g <= self.button_groups@.len(),
                    location == ButtonGridLocation::Main,
                    forall|k: int| 0 <= k < g ==> find_button_spec(self.button_groups@[k], location, coordinate) is None,
                decreases self.button_groups@.len() - g,
            {
                let found = self.button_groups[g].find_button_ref(&location, &coordinate);
                if found.is_some() {
                    proof { lemma_first_group(self.button_groups@, location, coordinate, g as int); }
                    return found;
                }
                g += 1;
            }
            proof { lemma_no_group(self.button_groups@, location, coordinate); }
            None
        } else {
            match self.find_meta_button(location, coordinate) {
                Some(m) => Some(ButtonRef::Meta { location: m.location, coordinate: m.coordinate }),
                None => None,
            }
        }
    }
}

/// The index of the first group holding a button at a position, if any.
pub open spec fn first_group_with<A>(groups: Seq<ButtonGroup<A>>, location: ButtonGridLocation, coordinate: ButtonCoordinate) -> Option<int> {
    if exists|g: int| 0 <= g < groups.len() && find_button_spec(groups[g], location, coordinate) is Some
        && forall|k: int| 0 <= k < g ==> find_button_spec(groups[k], location, coordinate) is None {
        Some(choose|g: int| 0 <= g < groups.len() && find_button_spec(groups[g], location, coordinate) is Some
            && forall|k: int| 0 <= k < g ==> find_button_spec(groups[k], location, coordinate) is None)
    } else {
        None
    }
}

pub open spec fn find_in_mapping_spec<A, M, C>(cm: ControlMapping<A, M, C>, location: ButtonGridLocation, coordinate: ButtonCoordinate) -> Option<ButtonRef> {
    if location == ButtonGridLocation::Main {
        match first_group_with(cm.button_groups@, location, coordinate) {
            Some(g) => Some(group_ref(cm.button_groups@[g], find_button_spec(cm.button_groups@[g], location, coordinate).unwrap())),
            None => None,
        }
    } else {
        if exists|j: int| 0 <= j < cm.meta_buttons@.len() && meta_key(cm.meta_buttons@[j]) == (location, coordinate) {
            Some(ButtonRef::Meta { location, coordinate })
        } else {
            None
        }
    }
}

proof fn lemma_first_group<A>(groups: Seq<ButtonGroup<A>>, location: ButtonGridLocation, coordinate: ButtonCoordinate, g: int)
    requires
        0 <= g < groups.len(),
        find_button_spec(groups[g], location, coordinate) is Some,
        forall|k: int| 0 <= k < g ==> find_button_spec(groups[k], location, coordinate) is None,
    ensures
        first_group_with(groups, location, coordinate) == Some(g),
{
    let c = choose|c: int| 0 <= c < groups.len() && find_button_spec(groups[c], location, coordinate) is Some
        && forall|k: int| 0 <= k < c ==> find_button_spec(groups[k], location, coordinate) is None;
    assert(0 <= c < groups.len() && find_button_spec(groups[c], location, coordinate) is Some
        && forall|k: int| 0 <= k < c ==> find_button_spec(groups[k], location, coordinate) is None);
    if c < g {
        assert(find_button_spec(groups[c], location, coordinate) is None);
    } else if g < c {
        assert(find_button_spec(groups[g], location, coordinate) is None);
    }
}

proof fn lemma_no_group<A>(groups: Seq<ButtonGroup<A>>, location: ButtonGridLocation, coordinate: ButtonCoordinate)
    requires
        forall|k: int| 0 <= k < groups.len() ==> find_button_spec(groups[k], location, coordinate) is None,
    ensures
        first_group_with(groups, location, coordinate) is None,
{
}

fn fader_position<C>(out: &Vec<FaderControlMapping<C>>, id: FaderId) -> (r: Option<usize>)
    ensures
        r matches Some(j) ==> j < out@.len() && out@[j as int].id == id,
        r is None ==> !has_fader_id(out@, id),
{
    let mut j: usize = 0;
    while j < out.len()
        invariant
            j <= out@.len(),
            forall|k: int| 0 <= k < j ==> out@[k].id != id,
        decreases out@.len() - j,
    {
        if out[j].id == id {
            return Some(j);
        }
        j += 1;
    }
    None
}

fn dedup_faders<C>(input: Vec<FaderControlMapping<C>>) -> (out: Vec<FaderControlMapping<C>>)
    ensures
        keeps_last_fader(input@, out@),
{
    let ghost orig = input@;
    let _n = input.len();
    let mut input = input;
    let mut out: Vec<FaderControlMapping<C>> = Vec::new();
    // where each element of `out` came from
    let ghost mut src: Seq<int> = Seq::empty();
    let mut consumed: usize = 0;
    while input.len() > 0
        invariant
            orig.len() == consumed + input@.len(),
            orig.len() <= usize::MAX,
            input@ == orig.subrange(consumed as int, orig.len() as int),
            src.len() == out@.len(),
            forall|i: int, j: int| #![trigger out@[i], out@[j]] 0 <= i < j < out@.len() ==> out@[i].id != out@[j].id,
            forall|k: int| 0 <= k < consumed ==> has_fader_id(out@, #[trigger] orig[k].id),
            forall|j: int| #![trigger src[j]] 0 <= j < out@.len() ==> 0 <= src[j] < consumed && orig[src[j]] == out@[j]
                && forall|k2: int| #![trigger orig[k2]] src[j] < k2 < consumed ==> orig[k2].id != out@[j].id,
        decreases input@.len(),
    {
        let f = input.remove(0);
        assert(f == orig[consumed as int]);
        let ghost before = out@;
        let ghost before_src = src;
        match fader_position(&out, f.id) {
            Some(j) => {
                out.set(j, f);
                proof {
                    src = src.update(j as int, consumed as int);
                    assert forall|k: int| 0 <= k <= consumed implies has_fader_id(out@, #[trigger] orig[k].id) by {
                        if k < consumed {
                            assert(has_fader_id(before, orig[k].id));
                            let jj = choose|jj: int| 0 <= jj < before.len() && #[trigger] before[jj].id == orig[k].id;
                            assert(out@[jj].id == orig[k].id);
                        } else {
                            assert(out@[j as int].id == orig[k].id);
                        }
                    }
                    assert forall|jj: int| #![trigger src[jj]] 0 <= jj < out@.len() implies 0 <= src[jj] <= consumed && orig[src[jj]] == out@[jj]
                        && forall|k2: int| #![trigger orig[k2]] src[jj] < k2 <= consumed ==> orig[k2].id != out@[jj].id by {
                        if jj != j as int {
                            assert(before_src[jj] == src[jj]);
                            assert(before[jj].id != before[j as int].id);
                        }
                    }
                }
            },
            None => {
                out.push(f);
                proof {
                    src = src.push(consumed as int);
                    assert forall|k: int| 0 <= k <= consumed implies has_fader_id(out@, #[trigger] orig[k].id) by {
                        if k < consumed {
                            assert(has_fader_id(before, orig[k].id));
                            let jj = choose|jj: int| 0 <= jj < before.len() && #[trigger] before[jj].id == orig[k].id;
                            assert(out@[jj].id == orig[k].id);
                        } else {
                            assert(out@[out@.len() - 1].id == orig[k].id);
                        }
                    }
                    assert forall|jj: int| #![trigger src[jj]] 0 <= jj < out@.len() implies 0 <= src[jj] <= consumed && orig[src[jj]] == out@[jj]
                        && forall|k2: int| #![trigger orig[k2]] src[jj] < k2 <= consumed ==> orig[k2].id != out@[jj].id by {
                        if jj < before.len() {
                            assert(before_src[jj] == src[jj]);
                        }
                    }
                }
            },
        }
        consumed += 1;
    }
    proof {
        assert forall|j: int| 0 <= j < out@.len() implies is_last_fader(orig, #[trigger] out@[j]) by {
            assert(orig[src[j]] == out@[j]);
        }
    }
    out
}

fn meta_position<M>(out: &Vec<MetaButtonMapping<M>>, m: &MetaButtonMapping<M>) -> (r: Option<usize>)
    ensures
        r matches Some(j) ==> j < out@.len() && same_position(out@[j as int], *m),
        r is None ==> !has_position(out@, *m),
{
    let mut j: usize = 0;
    while j < out.len()
        invariant
            j <= out@.len(),
            forall|k: int| 0 <= k < j ==> !same_position(out@[k], *m),
        decreases out@.len() - j,
    {
        if out[j].location == m.location && out[j].coordinate == m.coordinate {
            return Some(j);
        }
        j += 1;
    }
    None
}

fn dedup_meta_buttons<M>(input: Vec<MetaButtonMapping<M>>) -> (out: Vec<MetaButtonMapping<M>>)
    ensures
        keeps_last_meta(input@, out@),
{
    let ghost orig = input@;
    let _n = input.len();
    let mut input = input;
    let mut out: Vec<MetaButtonMapping<M>> = Vec::new();
    let ghost mut src: Seq<int> = Seq::empty();
    let mut consumed: usize = 0;
    while input.len() > 0
        invariant
            orig.len() == consumed + input@.len(),
            orig.len() <= usize::MAX,
            input@ == orig.subrange(consumed as int, orig.len() as int),
            src.len() == out@.len(),
            forall|i: int, j: int| #![trigger out@[i], out@[j]] 0 <= i < j < out@.len() ==> !same_position(out@[i], out@[j]),
            forall|k: int| 0 <= k < consumed ==> has_position(out@, #[trigger] orig[k]),
            forall|j: int| #![trigger src[j]] 0 <= j < out@.len() ==> 0 <= src[j] < consumed && orig[src[j]] == out@[j]
                && forall|k2: int| #![trigger orig[k2]] src[j] < k2 < consumed ==> !same_position(orig[k2], out@[j]),
        decreases input@.len(),
    {
        let m = input.remove(0);
        assert(m == orig[consumed as int]);
        let ghost before = out@;
        let ghost before_src = src;
        match meta_position(&out, &m) {
            Some(j) => {
                out.set(j, m);
                proof {
                    src = src.update(j as int, consumed as int);
                    assert forall|k: int| 0 <= k <= consumed implies has_position(out@, #[trigger] orig[k]) by {
                        if k < consumed {
                            assert(has_position(before, orig[k]));
                            let jj = choose|jj: int| 0 <= jj < before.len() && same_position(#[trigger] before[jj], orig[k]);
                            assert(same_position(out@[jj], orig[k]));
                        } else {
                            assert(same_position(out@[j as int], orig[k]));
                        }
                    }
                    assert forall|jj: int| #![trigger src[jj]] 0 <= jj < out@.len() implies 0 <= src[jj] <= consumed && orig[src[jj]] == out@[jj]
                        && forall|k2: int| #![trigger orig[k2]] src[jj] < k2 <= consumed ==> !same_position(orig[k2], out@[jj]) by {
                        if jj != j as int {
                            assert(before_src[jj] == src[jj]);
                            assert(!same_position(before[jj], before[j as int]));
                        }
                    }
                }
            },
            None => {
                out.push(m);
                proof {
                    src = src.push(consumed as int);
                    assert forall|k: int| 0 <= k <= consumed implies has_position(out@, #[trigger] orig[k]) by {
                        if k < consumed {
                            assert(has_position(before, orig[k]));
                            let jj = choose|jj: int| 0 <= jj < before.len() && same_position(#[trigger] before[jj], orig[k]);
                            assert(same_position(out@[jj], orig[k]));
                        } else {
                            assert(same_position(out@[out@.len() - 1], orig[k]));
                        }
                    }
                    assert forall|jj: int| #![trigger src[jj]] 0 <= jj < out@.len() implies 0 <= src[jj] <= consumed && orig[src[jj]] == out@[jj]
                        && forall|k2: int| #![trigger orig[k2]] src[jj] < k2 <= consumed ==> !same_position(orig[k2], out@[jj]) by {
                        if jj < before.len() {
                            assert(before_src[jj] == src[jj]);
                        }
                    }
                }
            },
        }
        consumed += 1;
    }
    proof {
        assert forall|j: int| 0 <= j < out@.len() implies is_last_meta(orig, #[trigger] out@[j]) by {
            assert(orig[src[j]] == out@[j]);
        }
    }
    out
}

} // verus!
