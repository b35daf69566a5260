//! Assembling a fixture profile from the flat list of channels a profile file
//! describes: channels are gathered into beams by their beam identifier, and the
//! global dimmer, pan and tilt channels are picked out.
use vstd::prelude::*;

use indexmap::IndexMap;
use rustc_hash::FxHasher;
use std::hash::BuildHasherDefault;

use crate::fixture::{
    empty_beam, BeamId, FixtureBeamProfile, FixtureEffectType, FixtureParameter, FixtureProfile,
    FixtureProfileChannel,
};

verus! {

#[verifier::external_type_specification]
#[verifier::external_body]
#[verifier::reject_recursive_types(K)]
#[verifier::reject_recursive_types(V)]
#[verifier::reject_recursive_types(S)]
pub struct ExIndexMap<K, V, S>(IndexMap<K, V, S>);

#[verifier::external_type_specification]
#[verifier::external_body]
#[verifier::reject_recursive_types(H)]
pub struct ExBuildHasherDefault<H>(BuildHasherDefault<H>);

#[verifier::external_type_specification]
#[verifier::external_body]
pub struct ExFxHasher(FxHasher);

/// The key a beam is filed under: the channels without a beam identifier come
/// first (0), then beam `b` as `b + 1`.
pub open spec fn beam_key(beam: Option<BeamId>) -> u128 {
    match beam {
        None => 0,
        Some(b) => (b.0 + 1) as u128,
    }
}

/// The entries of a beam map, in the map's order.
pub uninterp spec fn beam_map_entries(m: IndexMap<u128, FixtureBeamProfile, BuildHasherDefault<FxHasher>>) -> Seq<(u128, FixtureBeamProfile)>;

/// No key occurs twice.
pub open spec fn keys_unique(s: Seq<(u128, FixtureBeamProfile)>) -> bool {
    forall|i: int, j: int| #![trigger s[i], s[j]] 0 <= i < j < s.len() ==> s[i].0 != s[j].0
}

/// The entries after inserting `value` under `key`: an existing key keeps its
/// place and takes the new value, a new key goes last.
pub open spec fn entries_insert(s: Seq<(u128, FixtureBeamProfile)>, key: u128, value: FixtureBeamProfile) -> Seq<(u128, FixtureBeamProfile)> {
    if exists|i: int| 0 <= i < s.len() && s[i].0 == key {
        let i = choose|i: int| 0 <= i < s.len() && s[i].0 == key;
        s.update(i, (key, value))
    } else {
        s.push((key, value))
    }
}

/// The value under `key`, if any.
pub open spec fn entries_get(s: Seq<(u128, FixtureBeamProfile)>, key: u128) -> Option<FixtureBeamProfile> {
    if exists|i: int| 0 <= i < s.len() && s[i].0 == key {
        let i = choose|i: int| 0 <= i < s.len() && s[i].0 == key;
        Some(s[i].1)
    } else {
        None
    }
}

/// An empty map (`IndexMap::default`).
#[verifier::external_body]
fn beam_map_new() -> (m: IndexMap<u128, FixtureBeamProfile, BuildHasherDefault<FxHasher>>)
    ensures
        beam_map_entries(m) == Seq::<(u128, FixtureBeamProfile)>::empty(),
{
    IndexMap::default()
}

/// `IndexMap::insert`: an existing key keeps its place and takes the new value;
/// a new key is added last. Keys stay unique.
#[verifier::external_body]
fn beam_map_insert(m: &mut IndexMap<u128, FixtureBeamProfile, BuildHasherDefault<FxHasher>>, key: u128, value: FixtureBeamProfile)
    ensures
        beam_map_entries(*final(m)) == entries_insert(beam_map_entries(*old(m)), key, value),
        keys_unique(beam_map_entries(*final(m))),
{
    m.insert(key, value);
}

/// `IndexMap::get`: the value under a key, copied out.
#[verifier::external_body]
fn beam_map_get(m: &IndexMap<u128, FixtureBeamProfile, BuildHasherDefault<FxHasher>>, key: u128) -> (r: Option<FixtureBeamProfile>)
    ensures
        r == entries_get(beam_map_entries(*m), key),
{
    m.get(&key).copied()
}

/// `IndexMap::sort_keys`: the same entries, in increasing order of key.
#[verifier::external_body]
fn beam_map_sort_keys(m: &mut IndexMap<u128, FixtureBeamProfile, BuildHasherDefault<FxHasher>>)
    ensures
        beam_map_entries(*final(m)).len() == beam_map_entries(*old(m)).len(),
        forall|e: (u128, FixtureBeamProfile)| beam_map_entries(*final(m)).contains(e) <==> beam_map_entries(*old(m)).contains(e),
        forall|i: int, j: int| 0 <= i < j < beam_map_entries(*final(m)).len()
            ==> beam_map_entries(*final(m))[i].0 < beam_map_entries(*final(m))[j].0,
{
    m.sort_keys();
}

/// `IndexMap::len`.
#[verifier::external_body]
fn beam_map_len(m: &IndexMap<u128, FixtureBeamProfile, BuildHasherDefault<FxHasher>>) -> (n: usize)
    ensures
        n == beam_map_entries(*m).len(),
{
    m.len()
}

/// `IndexMap::get_index`: the entry at a position, copied out.
#[verifier::external_body]
fn beam_map_get_index(m: &IndexMap<u128, FixtureBeamProfile, BuildHasherDefault<FxHasher>>, index: usize) -> (r: Option<(u128, FixtureBeamProfile)>)
    ensures
        index < beam_map_entries(*m).len() ==> r == Some(beam_map_entries(*m)[index as int]),
        index >= beam_map_entries(*m).len() ==> r is None,
{
    m.get_index(index).map(|(k, v)| (*k, *v))
}

/// The parameters that a beam has a slot for.
pub open spec fn is_beam_parameter(p: FixtureParameter) -> bool {
    p == FixtureParameter::Dimmer || p == FixtureParameter::Red || p == FixtureParameter::Green
        || p == FixtureParameter::Blue || p == FixtureParameter::CoolWhite
}

/// A beam with `ch` put into the slot for its parameter; other parameters leave it alone.
pub open spec fn assign_channel(b: FixtureBeamProfile, ch: FixtureProfileChannel) -> FixtureBeamProfile {
    match ch.parameter {
        FixtureParameter::Dimmer => FixtureBeamProfile { dimmer_channel: Some(ch), ..b },
        FixtureParameter::Red => FixtureBeamProfile { red_channel: Some(ch), ..b },
        FixtureParameter::Green => FixtureBeamProfile { green_channel: Some(ch), ..b },
        FixtureParameter::Blue => FixtureBeamProfile { blue_channel: Some(ch), ..b },
        FixtureParameter::CoolWhite => FixtureBeamProfile { cool_white_channel: Some(ch), ..b },
        _ => b,
    }
}

/// The slot for `p` in a beam is filled.
pub open spec fn slot_filled(b: FixtureBeamProfile, p: FixtureParameter) -> bool {
    match p {
        FixtureParameter::Dimmer => b.dimmer_channel is Some,
        FixtureParameter::Red => b.red_channel is Some,
        FixtureParameter::Green => b.green_channel is Some,
        FixtureParameter::Blue => b.blue_channel is Some,
        FixtureParameter::CoolWhite => b.cool_white_channel is Some,
        _ => false,
    }
}

/// The beam that the channels filed under `key` make up, in order.
pub open spec fn beam_of(chs: Seq<FixtureProfileChannel>, key: u128) -> FixtureBeamProfile
    decreases chs.len(),
{
    if chs.len() == 0 {
        empty_beam()
    } else {
        let b = beam_of(chs.drop_last(), key);
        if beam_key(chs.last().beam) == key { assign_channel(b, chs.last()) } else { b }
    }
}

/// Some channel is filed under `key`.
pub open spec fn has_key(chs: Seq<FixtureProfileChannel>, key: u128) -> bool {
    exists|i: int| 0 <= i < chs.len() && beam_key(chs[i].beam) == key
}

/// No two channels of the same beam drive the same beam parameter.
pub open spec fn channels_fit(chs: Seq<FixtureProfileChannel>) -> bool {
    forall|i: int, j: int| #![trigger chs[i], chs[j]] 0 <= i < j < chs.len()
        && beam_key(chs[i].beam) == beam_key(chs[j].beam) && is_beam_parameter(chs[j].parameter)
        ==> chs[i].parameter != chs[j].parameter
}

/// The last channel that drives `p`, if any.
pub open spec fn last_with_parameter(chs: Seq<FixtureProfileChannel>, p: FixtureParameter) -> Option<FixtureProfileChannel>
    decreases chs.len(),
{
    if chs.len() == 0 {
        None
    } else if chs.last().parameter == p {
        Some(chs.last())
    } else {
        last_with_parameter(chs.drop_last(), p)
    }
}

/// A beam without its dimmer channel.
pub open spec fn without_dimmer(b: FixtureBeamProfile) -> FixtureBeamProfile {
    FixtureBeamProfile { dimmer_channel: None, ..b }
}

/// Strictly increasing.
pub open spec fn strictly_sorted(ks: Seq<u128>) -> bool {
    forall|i: int, j: int| 0 <= i < j < ks.len() ==> ks[i] < ks[j]
}

/// The profile a profile file describes.
pub struct FixtureProfileData {
    pub slug: String,
    pub label: String,
    pub channel_count: usize,
    pub channels: Vec<FixtureProfileChannel>,
    pub supported_effects: Vec<FixtureEffectType>,
}

/// A profile file can be assembled when it lists as many channels as it says,
/// at least one, and no beam gets two channels for the same parameter.
pub open spec fn profile_data_ok(data: FixtureProfileData) -> bool {
    &&& data.channel_count == data.channels@.len()
    &&& data.channels@.len() > 0
    &&& channels_fit(data.channels@)
}

/// The beams of a profile: when some channel names a beam, the named beams in
/// order of identifier (the unnamed channels' beam is dropped); otherwise the
/// one beam of unnamed channels, without its dimmer, which serves as the
/// fixture's global dimmer.
pub open spec fn profile_beams_ok(chs: Seq<FixtureProfileChannel>, beams: Seq<FixtureBeamProfile>) -> bool {
    if exists|k: u128| k != 0 && has_key(chs, k) {
        exists|ks: Seq<u128>| {
            &&& strictly_sorted(ks)
            &&& (forall|k: u128| ks.contains(k) <==> (k != 0 && has_key(chs, k)))
            &&& beams == ks.map_values(|k: u128| beam_of(chs, k))
        }
    } else {
        beams == seq![without_dimmer(beam_of(chs, 0))]
    }
}

/// Lemma: filling the slots channel by channel, a slot is filled exactly when
/// an earlier channel of the beam drives that parameter.
pub proof fn lemma_slot_filled(chs: Seq<FixtureProfileChannel>, key: u128, p: FixtureParameter)
    ensures
        slot_filled(beam_of(chs, key), p) <==> (is_beam_parameter(p)
            && exists|i: int| 0 <= i < chs.len() && beam_key(chs[i].beam) == key && chs[i].parameter == p),
    decreases chs.len(),
{
    if chs.len() > 0 {
        lemma_slot_filled(chs.drop_last(), key, p);
        if is_beam_parameter(p) && exists|i: int| 0 <= i < chs.len() && beam_key(chs[i].beam) == key && chs[i].parameter == p {
            let i = choose|i: int| 0 <= i < chs.len() && beam_key(chs[i].beam) == key && chs[i].parameter == p;
            if i < chs.len() - 1 {
                assert(chs.drop_last()[i] == chs[i]);
            }
        }
        if exists|i: int| 0 <= i < chs.drop_last().len() && beam_key(chs.drop_last()[i].beam) == key && chs.drop_last()[i].parameter == p {
            let i = choose|i: int| 0 <= i < chs.drop_last().len() && beam_key(chs.drop_last()[i].beam) == key && chs.drop_last()[i].parameter == p;
            assert(chs[i] == chs.drop_last()[i]);
        }
    }
}

/// Lemma: a key no channel is filed under has the empty beam.
pub proof fn lemma_beam_of_absent(chs: Seq<FixtureProfileChannel>, key: u128)
    requires
        !has_key(chs, key),
    ensures
        beam_of(chs, key) == empty_beam(),
    decreases chs.len(),
{
    if chs.len() > 0 {
        assert(!has_key(chs.drop_last(), key)) by {
            if has_key(chs.drop_last(), key) {
                let i = choose|i: int| 0 <= i < chs.drop_last().len() && beam_key(chs.drop_last()[i].beam) == key;
                assert(chs[i] == chs.drop_last()[i]);
            }
        }
        lemma_beam_of_absent(chs.drop_last(), key);
        assert(beam_key(chs[chs.len() - 1].beam) != key);
    }
}

fn param_matches(a: FixtureParameter, b: FixtureParameter) -> (r: bool)
    ensures
        r == (a == b),
{
    a == b
}

fn is_beam_parameter_exec(p: FixtureParameter) -> (r: bool)
    ensures
        r == is_beam_parameter(p),
{
    match p {
        FixtureParameter::Dimmer | FixtureParameter::Red | FixtureParameter::Green | FixtureParameter::Blue | FixtureParameter::CoolWhite => true,
        _ => false,
    }
}

fn beam_key_exec(beam: Option<BeamId>) -> (k: u128)
    ensures
        k == beam_key(beam),
{
    match beam {
        None => 0,
        Some(b) => b.0 as u128 + 1,
    }
}

impl FixtureProfileData {
    /// Whether the profile can be assembled (see `profile_data_ok`).
    pub fn is_well_formed(&self) -> (r: bool)
        ensures
            r == profile_data_ok(*self),
    {
        if self.channel_count != self.channels.len() || self.channels.len() == 0 {
            return false;
        }
        let chs = &self.channels;
        let mut j: usize = 0;
        while j < chs.len()
            invariant
                j <= chs@.len(),
                chs@ == self.channels@,
                forall|a: int, b: int| #![trigger chs@[a], chs@[b]] 0 <= a < b < j
                    && beam_key(chs@[a].beam) == beam_key(chs@[b].beam) && is_beam_parameter(chs@[b].parameter)
                    ==> chs@[a].parameter != chs@[b].parameter,
            decreases chs@.len() - j,
        {
            if is_beam_parameter_exec(chs[j].parameter) {
                let mut i: usize = 0;
                while i < j
                    invariant
                        i <= j < chs@.len(),
                        chs@ == self.channels@,
                        is_beam_parameter(chs@[j as int].parameter),
                        forall|a: int| #![trigger chs@[a]] 0 <= a < i
                            && beam_key(chs@[a].beam) == beam_key(chs@[j as int].beam)
                            ==> chs@[a].parameter != chs@[j as int].parameter,
                    decreases j - i,
                {
                    if beam_key_exec(chs[i].beam) == beam_key_exec(chs[j].beam) && param_matches(chs[i].parameter, chs[j].parameter) {
                        assert(!channels_fit(chs@) && chs@[i as int] == chs@[i as int] && chs@[j as int] == chs@[j as int]);
                        return false;
                    }
                    i += 1;
                }
            }
            j += 1;
        }
        true
    }
}

fn assign_exec(b: FixtureBeamProfile, ch: FixtureProfileChannel) -> (r: FixtureBeamProfile)
    ensures
        r == assign_channel(b, ch),
{
    let mut b = b;
    match ch.parameter {
        FixtureParameter::Dimmer => { b.dimmer_channel = Some(ch); },
        FixtureParameter::Red => { b.red_channel = Some(ch); },
        FixtureParameter::Green => { b.green_channel = Some(ch); },
        FixtureParameter::Blue => { b.blue_channel = Some(ch); },
        FixtureParameter::CoolWhite => { b.cool_white_channel = Some(ch); },
        _ => {},
    }
    b
}

/// The last channel of `chs` driving `p`.
fn last_with_parameter_exec(chs: &Vec<FixtureProfileChannel>, p: FixtureParameter) -> (r: Option<FixtureProfileChannel>)
    ensures
        r == last_with_parameter(chs@, p),
{
    let mut r: Option<FixtureProfileChannel> = None;
    let mut i: usize = 0;
    while i < chs.len()
        invariant
            i <= chs@.len(),
            r == last_with_parameter(chs@.take(i as int), p),
        decreases chs@.len() - i,
    {
        proof { assert(chs@.take(i + 1).drop_last() =~= chs@.take(i as int)); }
        if param_matches(chs[i].parameter, p) {
            r = Some(chs[i]);
        }
        i += 1;
    }
    assert(chs@.take(i as int) =~= chs@);
    r
}

/// Some entry has key `k`.
pub open spec fn entries_have(s: Seq<(u128, FixtureBeamProfile)>, k: u128) -> bool {
    exists|j: int| 0 <= j < s.len() && #[trigger] s[j].0 == k
}

/// Lemma: adding one channel changes only the beam it is filed under.
proof fn lemma_beam_of_step(chs: Seq<FixtureProfileChannel>, i: int, k: u128)
    requires
        0 <= i < chs.len(),
    ensures
        beam_of(chs.take(i + 1), k) == (if beam_key(chs[i].beam) == k { assign_channel(beam_of(chs.take(i), k), chs[i]) } else { beam_of(chs.take(i), k) }),
        has_key(chs.take(i + 1), k) <==> (has_key(chs.take(i), k) || beam_key(chs[i].beam) == k),
{
    let t0 = chs.take(i);
    let t1 = chs.take(i + 1);
    assert(t1.drop_last() =~= t0);
    if has_key(t0, k) {
        let j = choose|j: int| 0 <= j < t0.len() && beam_key(t0[j].beam) == k;
        assert(t1[j] == t0[j]);
    }
    if has_key(t1, k) && beam_key(chs[i].beam) != k {
        let j = choose|j: int| 0 <= j < t1.len() && beam_key(t1[j].beam) == k;
        assert(t0[j] == t1[j]);
    }
    if beam_key(chs[i].beam) == k {
        assert(t1[i] == chs[i]);
    }
}

/// Gathers a profile file's channels into a fixture profile. Each channel goes
/// into the beam it names (unnamed channels into one default beam), in the slot
/// for its parameter; the beams are ordered by identifier; the default beam's
/// dimmer becomes the fixture's global dimmer, and the default beam itself is
/// kept only when no channel names a beam. Pan and tilt are the last channels
/// driving them.
pub fn build_fixture_profile(data: FixtureProfileData) -> (p: FixtureProfile)
    requires
        profile_data_ok(data),
    ensures
        p.slug@ == data.slug@,
        p.label@ == data.label@,
        p.channel_count == data.channel_count,
        p.supported_effects@ == data.supported_effects@,
        p.pan_channel == last_with_parameter(data.channels@, FixtureParameter::Pan),
        p.tilt_channel == last_with_parameter(data.channels@, FixtureParameter::Tilt),
        p.dimmer_channel == (if has_key(data.channels@, 0) { beam_of(data.channels@, 0).dimmer_channel } else { None }),
        profile_beams_ok(data.channels@, p.beams@),
{
    let ghost chs = data.channels@;
    let pan_channel = last_with_parameter_exec(&data.channels, FixtureParameter::Pan);
    let tilt_channel = last_with_parameter_exec(&data.channels, FixtureParameter::Tilt);

    let mut beams = beam_map_new();
    let mut i: usize = 0;
    while i < data.channels.len()
        invariant
            i <= chs.len(),
            chs == data.channels@,
            channels_fit(chs),
            keys_unique(beam_map_entries(beams)),
            forall|j: int| 0 <= j < beam_map_entries(beams).len()
                ==> (#[trigger] beam_map_entries(beams)[j]).1 == beam_of(chs.take(i as int), beam_map_entries(beams)[j].0),
            forall|k: u128| entries_have(beam_map_entries(beams), k) <==> has_key(chs.take(i as int), k),
        decreases chs.len() - i,
    {
        let ch = data.channels[i];
        let key = beam_key_exec(ch.beam);
        let ghost before = beam_map_entries(beams);
        let beam = match beam_map_get(&beams, key) {
            Some(b) => b,
            None => FixtureBeamProfile::default(),
        };
        proof {
            if entries_have(before, key) {
                let j = choose|j: int| 0 <= j < before.len() && before[j].0 == key;
                assert(before[j].1 == beam_of(chs.take(i as int), key));
            } else {
                lemma_beam_of_absent(chs.take(i as int), key);
            }
            assert(beam == beam_of(chs.take(i as int), key));
        }
        beam_map_insert(&mut beams, key, assign_exec(beam, ch));
        proof {
            let after = beam_map_entries(beams);
            assert forall|k: u128| true implies #[trigger] beam_of(chs.take(i + 1), k) == (if beam_key(chs[i as int].beam) == k { assign_channel(beam_of(chs.take(i as int), k), chs[i as int]) } else { beam_of(chs.take(i as int), k) })
                && (has_key(chs.take(i + 1), k) <==> (has_key(chs.take(i as int), k) || beam_key(chs[i as int].beam) == k)) by {
                lemma_beam_of_step(chs, i as int, k);
            }
            if entries_have(before, key) {
                let j0 = choose|j: int| 0 <= j < before.len() && before[j].0 == key;
                assert(after == before.update(j0, (key, assign_channel(beam, ch))));
                assert forall|j: int| 0 <= j < after.len()
                    implies (#[trigger] after[j]).1 == beam_of(chs.take(i + 1), after[j].0) by {
                    assert(beam_of(chs.take(i + 1), after[j].0) == beam_of(chs.take(i + 1), after[j].0));
                    if j != j0 {
                        assert(before[j].0 != key);
                    }
                }
                assert forall|k: u128| entries_have(after, k) <==> has_key(chs.take(i + 1), k) by {
                    assert(beam_of(chs.take(i + 1), k) == beam_of(chs.take(i + 1), k));
                    if entries_have(before, k) {
                        let j = choose|j: int| 0 <= j < before.len() && before[j].0 == k;
                        assert(after[j].0 == k);
                    }
                    if entries_have(after, k) {
                        let j = choose|j: int| 0 <= j < after.len() && after[j].0 == k;
                        assert(before[j].0 == k || j == j0);
                    }
                }
            } else {
                assert(after == before.push((key, assign_channel(beam, ch))));
                assert forall|j: int| 0 <= j < after.len()
                    implies (#[trigger] after[j]).1 == beam_of(chs.take(i + 1), after[j].0) by {
                    assert(beam_of(chs.take(i + 1), after[j].0) == beam_of(chs.take(i + 1), after[j].0));
                    if j < before.len() {
                        assert(after[j] == before[j]);
                        assert(before[j].0 != key);
                    }
                }
                assert forall|k: u128| entries_have(after, k) <==> has_key(chs.take(i + 1), k) by {
                    assert(beam_of(chs.take(i + 1), k) == beam_of(chs.take(i + 1), k));
                    if entries_have(before, k) {
                        let j = choose|j: int| 0 <= j < before.len() && before[j].0 == k;
                        assert(after[j].0 == k);
                    }
                    if k == key {
                        assert(after[before.len() as int].0 == k);
                    }
                    if entries_have(after, k) {
                        let j = choose|j: int| 0 <= j < after.len() && after[j].0 == k;
                        if j < before.len() {
                            assert(before[j].0 == k);
                        }
                    }
                }
            }
        }
        i += 1;
    }
    assert(chs.take(chs.len() as int) =~= chs);

    let ghost unsorted = beam_map_entries(beams);
    beam_map_sort_keys(&mut beams);
    let ghost sorted = beam_map_entries(beams);
    proof {
        assert forall|j: int| 0 <= j < sorted.len() implies (#[trigger] sorted[j]).1 == beam_of(chs, sorted[j].0) by {
            assert(sorted.contains(sorted[j]));
            assert(unsorted.contains(sorted[j]));
            let j2 = choose|j2: int| 0 <= j2 < unsorted.len() && unsorted[j2] == sorted[j];
            assert(unsorted[j2].1 == beam_of(chs, unsorted[j2].0));
        }
        assert forall|k: u128| entries_have(sorted, k) <==> has_key(chs, k) by {
            if entries_have(sorted, k) {
                let j = choose|j: int| 0 <= j < sorted.len() && sorted[j].0 == k;
                assert(sorted.contains(sorted[j]));
                assert(unsorted.contains(sorted[j]));
                let j2 = choose|j2: int| 0 <= j2 < unsorted.len() && unsorted[j2] == sorted[j];
                assert(unsorted[j2].0 == k);
            }
            if entries_have(unsorted, k) {
                let j = choose|j: int| 0 <= j < unsorted.len() && unsorted[j].0 == k;
                assert(unsorted.contains(unsorted[j]));
                assert(sorted.contains(unsorted[j]));
                let j2 = choose|j2: int| 0 <= j2 < sorted.len() && sorted[j2] == unsorted[j];
                assert(sorted[j2].0 == k);
            }
        }
    }

    // Pluck out the default beam's dimmer channel: it is the fixture's global dimmer.
    let dimmer_channel = match beam_map_get(&beams, 0) {
        Some(default_beam) => {
            let mut without_dimmer = default_beam;
            without_dimmer.dimmer_channel = None;
            beam_map_insert(&mut beams, 0, without_dimmer);
            default_beam.dimmer_channel
        },
        None => None,
    };
    let ghost stripped = beam_map_entries(beams);
    proof {
        if entries_have(sorted, 0) {
            let j0 = choose|j: int| 0 <= j < sorted.len() && sorted[j].0 == 0u128;
            assert(sorted[j0].1 == beam_of(chs, 0));
            assert(stripped == sorted.update(j0, (0u128, without_dimmer(beam_of(chs, 0)))));
        } else {
            assert(stripped == sorted);
        }
        assert(dimmer_channel == (if has_key(chs, 0) { beam_of(chs, 0).dimmer_channel } else { None }));
    }

    // Keep the named beams, or the default beam when no beam is named.
    let n = beam_map_len(&beams);
    let mut named: Vec<FixtureBeamProfile> = Vec::new();
    let mut unnamed: Vec<FixtureBeamProfile> = Vec::new();
    let ghost mut ks: Seq<u128> = Seq::empty();
    let ghost mut pos: Seq<int> = Seq::empty();
    let mut idx: usize = 0;
    while idx < n
        invariant
            n == stripped.len(),
            stripped == beam_map_entries(beams),
            stripped.len() == sorted.len(),
            forall|j: int| 0 <= j < stripped.len() ==> (#[trigger] stripped[j]).0 == sorted[j].0,
            forall|j: int| 0 <= j < stripped.len() && stripped[j].0 != 0 ==> (#[trigger] stripped[j]).1 == beam_of(chs, stripped[j].0),
            forall|j: int| 0 <= j < stripped.len() && stripped[j].0 == 0
                ==> (#[trigger] stripped[j]).1 == without_dimmer(beam_of(chs, 0)),
            forall|a: int, b: int| 0 <= a < b < sorted.len() ==> sorted[a].0 < sorted[b].0,
            idx <= n,
            ks.len() == pos.len(),
            named@ == ks.map_values(|k: u128| beam_of(chs, k)),
            forall|a: int| 0 <= a < ks.len() ==> 0 <= #[trigger] pos[a] < idx && stripped[pos[a]].0 == ks[a] && ks[a] != 0,
            forall|a: int, b: int| 0 <= a < b < ks.len() ==> ks[a] < ks[b],
            forall|j: int| 0 <= j < idx && stripped[j].0 != 0 ==> ks.contains(#[trigger] stripped[j].0),
            unnamed@ == (if exists|j: int| 0 <= j < idx && stripped[j].0 == 0 {
                seq![without_dimmer(beam_of(chs, 0))] } else { Seq::empty() }),
        decreases n - idx,
    {
        let entry = beam_map_get_index(&beams, idx);
        let (key, beam) = entry.unwrap();
        if key == 0 {
            proof {
                assert forall|j: int| 0 <= j < idx implies stripped[j].0 != 0 by {
                    assert(sorted[j].0 < sorted[idx as int].0);
                }
            }
            unnamed.push(beam);
            proof {
                assert(unnamed@ =~= seq![without_dimmer(beam_of(chs, 0))]);
            }
        } else {
            named.push(beam);
            proof {
                let ghost old_ks = ks;
                let ghost old_pos = pos;
                if ks.len() > 0 {
                    let p = pos[ks.len() - 1];
                    assert(sorted[p].0 < sorted[idx as int].0);
                }
                ks = ks.push(key);
                pos = pos.push(idx as int);
                assert(named@ =~= ks.map_values(|k: u128| beam_of(chs, k)));
                assert forall|a: int| 0 <= a < ks.len() implies 0 <= #[trigger] pos[a] < idx + 1 && stripped[pos[a]].0 == ks[a] && ks[a] != 0 by {
                    if a < old_ks.len() {
                        assert(pos[a] == old_pos[a]);
                        assert(ks[a] == old_ks[a]);
                    }
                }
                assert forall|j: int| 0 <= j < idx + 1 && stripped[j].0 != 0 implies ks.contains(#[trigger] stripped[j].0) by {
                    if j < idx {
                        let a = choose|a: int| 0 <= a < old_ks.len() && old_ks[a] == stripped[j].0;
                        assert(ks[a] == old_ks[a]);
                    } else {
                        assert(ks[ks.len() - 1] == key);
                    }
                }
            }
        }
        idx += 1;
    }
    proof {
        assert forall|k: u128| ks.contains(k) <==> (k != 0 && has_key(chs, k)) by {
            if ks.contains(k) {
                let a = choose|a: int| 0 <= a < ks.len() && ks[a] == k;
                assert(stripped[pos[a]].0 == k);
                assert(sorted[pos[a]].0 == k);
                assert(entries_have(sorted, k));
            }
            if k != 0 && has_key(chs, k) {
                assert(entries_have(sorted, k));
                let j = choose|j: int| 0 <= j < sorted.len() && sorted[j].0 == k;
                assert(stripped[j].0 == k);
            }
        }
    }
    let beams_out = if named.len() > 0 {
        proof {
            assert(ks.contains(ks[0]));
            assert(exists|k: u128| k != 0 && has_key(chs, k));
            assert(strictly_sorted(ks));
            assert(named@ == ks.map_values(|k: u128| beam_of(chs, k)));
        }
        named
    } else {
        proof {
            assert(!exists|k: u128| k != 0 && has_key(chs, k)) by {
                if exists|k: u128| k != 0 && has_key(chs, k) {
                    let k = choose|k: u128| k != 0 && has_key(chs, k);
                    assert(ks.contains(k));
                }
            }
            let k0 = beam_key(chs[0].beam);
            assert(has_key(chs, k0));
            assert(k0 == 0);
            assert(entries_have(sorted, 0));
            let j = choose|j: int| 0 <= j < sorted.len() && sorted[j].0 == 0u128;
            assert(stripped[j].0 == 0);
        }
        unnamed
    };

    FixtureProfile {
        slug: data.slug,
        label: data.label,
        channel_count: data.channel_count,
        supported_effects: data.supported_effects,
        beams: beams_out,
        dimmer_channel,
        pan_channel,
        tilt_channel,
    }
}

} // verus!
