//! Fixtures: their profiles (which DMX channel carries which parameter), and
//! how they are grouped, placed and addressed.
use vstd::prelude::*;

verus! {

/// Identifies a fixture. The number is a random (version 4) UUID.
#[derive(Debug, Copy, Clone, PartialEq, Eq, Hash, PartialOrd, Structural)]
pub struct FixtureId(pub u128);

/// Whether the 128 bits, read as a big-endian UUID, carry version 4 (the
/// version nibble, bits 76 to 79, is 4) and the RFC 4122 variant (bits 62 and
/// 63 are `10`).
pub open spec fn is_v4_uuid_bits(bits: u128) -> bool {
    &&& (bits >> 76u128) & 0xfu128 == 4u128
    &&& (bits >> 62u128) & 0x3u128 == 2u128
}

/// The 128 bits of a freshly generated random UUID: `uuid::Uuid::new_v4`
/// read back by `as_u128`. `new_v4` fills sixteen bytes from the operating
/// system's generator, then sets the variant to RFC 4122 and the version to 4;
/// `as_u128` reads the bytes big-endian. The contract states those fixed bits;
/// the other bits are random and nothing is said of them.
#[verifier::external_body]
fn random_uuid_bits() -> (bits: u128)
    ensures
        is_v4_uuid_bits(bits),
{
    uuid::Uuid::new_v4().as_u128()
}

impl FixtureId {
    /// A new random identifier: a version-4 UUID.
    pub fn new() -> (id: FixtureId)
        ensures
            is_v4_uuid_bits(id.0),
    {
        FixtureId(random_uuid_bits())
    }
}

/// Identifies a group of fixtures.
#[derive(Debug, Copy, Clone, PartialEq, Eq, Hash, PartialOrd, Structural)]
pub struct FixtureGroupId(pub usize);

impl FixtureGroupId {
    pub fn new(id: usize) -> (g: FixtureGroupId)
        ensures
            g.0 == id,
    {
        FixtureGroupId(id)
    }
}

/// Where a fixture stands, on a grid.
#[derive(Debug, Clone, Copy, PartialEq, Eq, Hash, PartialOrd, Structural)]
pub struct FixtureLocation {
    pub x: isize,
    pub y: isize,
}

impl FixtureLocation {
    pub fn new(x: isize, y: isize) -> (l: FixtureLocation)
        ensures
            l.x == x,
            l.y == y,
    {
        FixtureLocation { x, y }
    }
}

/// Identifies one of the beams of a fixture.
#[derive(Debug, Copy, Clone, PartialEq, Eq, Hash, PartialOrd, Ord, Structural)]
pub struct BeamId(pub usize);

impl BeamId {
    pub fn new(id: usize) -> (b: BeamId)
        ensures
            b.0 == id,
    {
        BeamId(id)
    }
}

/// The kinds of effect a fixture can take part in.
#[derive(Debug, Clone, Copy, PartialEq, Eq, Hash, Structural)]
pub enum FixtureEffectType {
    Color,
    Dimmer,
    Pixel,
    Position,
}

impl FixtureEffectType {
    /// Every kind of effect.
    pub fn all() -> (v: Vec<FixtureEffectType>)
        ensures
            v@ == seq![FixtureEffectType::Color, FixtureEffectType::Dimmer, FixtureEffectType::Pixel, FixtureEffectType::Position],
    {
        vec![
            FixtureEffectType::Color,
            FixtureEffectType::Dimmer,
            FixtureEffectType::Pixel,
            FixtureEffectType::Position,
        ]
    }
}

/// What a DMX channel of a fixture controls.
#[derive(Debug, Clone, Copy, PartialEq, Eq, Hash, Structural)]
pub enum FixtureParameter {
    Dimmer,
    Red,
    Green,
    Blue,
    CoolWhite,
    Pan,
    Tilt,
    Unused,
}

/// One channel of a fixture profile: what it controls, its 1-based number
/// within the fixture, the beam it belongs to (if the fixture has several) and
/// the range of DMX values it uses.
#[derive(Debug, Clone, Copy, PartialEq, Eq, Structural)]
pub struct FixtureProfileChannel {
    pub parameter: FixtureParameter,
    pub channel: usize,
    pub beam: Option<BeamId>,
    pub min_value: u8,
    pub max_value: u8,
}

impl FixtureProfileChannel {
    /// The value range used when a profile does not give one.
    pub fn default_min_value() -> (v: u8)
        ensures
            v == 0,
    {
        0
    }

    pub fn default_max_value() -> (v: u8)
        ensures
            v == 255,
    {
        255
    }

    /// The channel's 0-based offset within the fixture.
    pub fn channel_index(&self) -> (i: usize)
        requires
            self.channel >= 1,
        ensures
            i == self.channel - 1,
    {
        self.channel - 1
    }
}

/// The channels that drive one beam of a fixture.
#[derive(Debug, Clone, Copy, PartialEq, Eq, Structural)]
pub struct FixtureBeamProfile {
    pub dimmer_channel: Option<FixtureProfileChannel>,
    pub red_channel: Option<FixtureProfileChannel>,
    pub green_channel: Option<FixtureProfileChannel>,
    pub blue_channel: Option<FixtureProfileChannel>,
    pub cool_white_channel: Option<FixtureProfileChannel>,
}

impl Default for FixtureBeamProfile {
    fn default() -> (b: FixtureBeamProfile)
        ensures
            b == empty_beam(),
    {
        FixtureBeamProfile {
            dimmer_channel: None,
            red_channel: None,
            green_channel: None,
            blue_channel: None,
            cool_white_channel: None,
        }
    }
}

/// A beam with no channels.
pub open spec fn empty_beam() -> FixtureBeamProfile {
    FixtureBeamProfile {
        dimmer_channel: None,
        red_channel: None,
        green_channel: None,
        blue_channel: None,
        cool_white_channel: None,
    }
}

pub open spec fn beam_is_dimmable(b: FixtureBeamProfile) -> bool {
    b.dimmer_channel is Some
}

pub open spec fn beam_is_colorable(b: FixtureBeamProfile) -> bool {
    b.red_channel is Some && b.green_channel is Some && b.blue_channel is Some
}

impl FixtureBeamProfile {
    pub fn is_dimmable(&self) -> (r: bool)
        ensures
            r == beam_is_dimmable(*self),
    {
        self.dimmer_channel.is_some()
    }

    /// A beam takes colours when it has red, green and blue channels.
    pub fn is_colorable(&self) -> (r: bool)
        ensures
            r == beam_is_colorable(*self),
    {
        self.red_channel.is_some() && self.green_channel.is_some() && self.blue_channel.is_some()
    }

    /// The red, green and blue channels, when the beam has all three.
    pub fn color_channels(&self) -> (r: Option<(FixtureProfileChannel, FixtureProfileChannel, FixtureProfileChannel)>)
        ensures
            beam_is_colorable(*self) ==> r == Some((self.red_channel.unwrap(), self.green_channel.unwrap(), self.blue_channel.unwrap())),
            !beam_is_colorable(*self) ==> r is None,
    {
        match (self.red_channel, self.green_channel, self.blue_channel) {
            (Some(red_channel), Some(green_channel), Some(blue_channel)) => Some((red_channel, green_channel, blue_channel)),
            _ => None,
        }
    }
}

/// A kind of fixture: how many DMX channels it takes, its beams, which effects
/// it supports and its global dimmer, pan and tilt channels.
#[derive(Debug, Clone)]
pub struct FixtureProfile {
    pub slug: String,
    pub label: String,
    pub channel_count: usize,
    pub supported_effects: Vec<FixtureEffectType>,
    pub beams: Vec<FixtureBeamProfile>,
    pub dimmer_channel: Option<FixtureProfileChannel>,
    pub pan_channel: Option<FixtureProfileChannel>,
    pub tilt_channel: Option<FixtureProfileChannel>,
}

impl FixtureProfile {
    pub fn beam_count(&self) -> (n: usize)
        ensures
            n == self.beams@.len(),
    {
        self.beams.len()
    }

    /// Some beam has a dimmer channel.
    pub fn is_dimmable(&self) -> (r: bool)
        ensures
            r == exists|i: int| 0 <= i < self.beams@.len() && beam_is_dimmable(#[trigger] self.beams@[i]),
    {
        let mut i: usize = 0;
        while i < self.beams.len()
            invariant
                i <= self.beams@.len(),
                forall|j: int| 0 <= j < i ==> !beam_is_dimmable(#[trigger] self.beams@[j]),
            decreases self.beams@.len() - i,
        {
            if self.beams[i].is_dimmable() {
                return true;
            }
            i += 1;
        }
        false
    }

    /// Some beam takes colours.
    pub fn is_colorable(&self) -> (r: bool)
        ensures
            r == exists|i: int| 0 <= i < self.beams@.len() && beam_is_colorable(#[trigger] self.beams@[i]),
    {
        let mut i: usize = 0;
        while i < self.beams.len()
            invariant
                i <= self.beams@.len(),
                forall|j: int| 0 <= j < i ==> !beam_is_colorable(#[trigger] self.beams@[j]),
            decreases self.beams@.len() - i,
        {
            if self.beams[i].is_colorable() {
                return true;
            }
            i += 1;
        }
        false
    }

    /// The fixture can be moved: it has both pan and tilt channels.
    pub fn is_positionable(&self) -> (r: bool)
        ensures
            r == (self.pan_channel is Some && self.tilt_channel is Some),
    {
        self.pan_channel.is_some() && self.tilt_channel.is_some()
    }
}

/// A fixture in a project: its profile, DMX address, group, location and the
/// effects enabled for it.
#[derive(Debug, Clone)]
pub struct FixtureParams {
    pub id: FixtureId,
    pub profile: FixtureProfile,
    pub universe: usize,
    pub start_channel: usize,
    pub group_id: Option<FixtureGroupId>,
    pub location: Option<FixtureLocation>,
    pub enabled_effects: Vec<FixtureEffectType>,
}

/// Two profiles are equal: every field is, strings and lists by their contents.
pub open spec fn same_profile(a: FixtureProfile, b: FixtureProfile) -> bool {
    &&& a.slug@ == b.slug@
    &&& a.label@ == b.label@
    &&& a.channel_count == b.channel_count
    &&& a.supported_effects@ == b.supported_effects@
    &&& a.beams@ == b.beams@
    &&& a.dimmer_channel == b.dimmer_channel
    &&& a.pan_channel == b.pan_channel
    &&& a.tilt_channel == b.tilt_channel
}

/// Two fixtures are equal: every field is, the profile and the list of
/// enabled effects by their contents.
pub open spec fn same_fixture(a: FixtureParams, b: FixtureParams) -> bool {
    &&& a.id == b.id
    &&& same_profile(a.profile, b.profile)
    &&& a.universe == b.universe
    &&& a.start_channel == b.start_channel
    &&& a.group_id == b.group_id
    &&& a.location == b.location
    &&& a.enabled_effects@ == b.enabled_effects@
}

fn same_effects(a: &Vec<FixtureEffectType>, b: &Vec<FixtureEffectType>) -> (r: bool)
    ensures
        r == (a@ == b@),
{
    if a.len() != b.len() {
        return false;
    }
    let mut i: usize = 0;
    while i < a.len()
        invariant
            a@.len() == b@.len(),
            i <= a@.len(),
            forall|j: int| 0 <= j < i ==> a@[j] == b@[j],
        decreases a@.len() - i,
    {
        if a[i] != b[i] {
            return false;
        }
        i += 1;
    }
    assert(a@ =~= b@);
    true
}

fn same_beams(a: &Vec<FixtureBeamProfile>, b: &Vec<FixtureBeamProfile>) -> (r: bool)
    ensures
        r == (a@ == b@),
{
    if a.len() != b.len() {
        return false;
    }
    let mut i: usize = 0;
    while i < a.len()
        invariant
            a@.len() == b@.len(),
            i <= a@.len(),
            forall|j: int| 0 <= j < i ==> a@[j] == b@[j],
        decreases a@.len() - i,
    {
        if a[i] != b[i] {
            return false;
        }
        i += 1;
    }
    assert(a@ =~= b@);
    true
}

impl FixtureProfile {
    /// Whether two profiles are equal, field by field.
    pub fn same_as(&self, other: &FixtureProfile) -> (r: bool)
        ensures
            r == same_profile(*self, *other),
    {
        self.slug == other.slug
            && self.label == other.label
            && self.channel_count == other.channel_count
            && same_effects(&self.supported_effects, &other.supported_effects)
            && same_beams(&self.beams, &other.beams)
            && self.dimmer_channel == other.dimmer_channel
            && self.pan_channel == other.pan_channel
            && self.tilt_channel == other.tilt_channel
    }
}

impl FixtureParams {
    /// Whether two fixtures are equal, field by field.
    pub fn same_as(&self, other: &FixtureParams) -> (r: bool)
        ensures
            r == same_fixture(*self, *other),
    {
        self.id == other.id
            && self.profile.same_as(&other.profile)
            && self.universe == other.universe
            && self.start_channel == other.start_channel
            && self.group_id == other.group_id
            && self.location == other.location
            && same_effects(&self.enabled_effects, &other.enabled_effects)
    }
}

fn contains_effect(effects: &Vec<FixtureEffectType>, e: FixtureEffectType) -> (r: bool)
    ensures
        r == effects@.contains(e),
{
    let mut i: usize = 0;
    while i < effects.len()
        invariant
            i <= effects@.len(),
            forall|j: int| 0 <= j < i ==> effects@[j] != e,
        decreases effects@.len() - i,
    {
        if effects[i] == e {
            assert(effects@[i as int] == e);
            return true;
        }
        i += 1;
    }
    false
}

/// An effect is enabled for a fixture when its profile supports it and the
/// project enables it.
pub open spec fn effect_enabled(params: FixtureParams, e: FixtureEffectType) -> bool {
    params.profile.supported_effects@.contains(e) && params.enabled_effects@.contains(e)
}

impl FixtureParams {
    /// The effects that are both supported and enabled, in the profile's order.
    pub fn enabled_effects(&self) -> (r: Vec<FixtureEffectType>)
        ensures
            r@ == self.profile.supported_effects@.filter(|e: FixtureEffectType| self.enabled_effects@.contains(e)),
    {
        let supported = &self.profile.supported_effects;
        let ghost pred = |e: FixtureEffectType| self.enabled_effects@.contains(e);
        let mut r: Vec<FixtureEffectType> = Vec::new();
        let mut i: usize = 0;
        while i < supported.len()
            invariant
                i <= supported@.len(),
                pred == (|e: FixtureEffectType| self.enabled_effects@.contains(e)),
                r@ == supported@.take(i as int).filter(pred),
            decreases supported@.len() - i,
        {
            proof {
                reveal_with_fuel(Seq::filter, 1);
                assert(supported@.take(i + 1).drop_last() =~= supported@.take(i as int));
            }
            if contains_effect(&self.enabled_effects, supported[i]) {
                r.push(supported[i]);
            }
            i += 1;
        }
        assert(supported@.take(i as int) =~= supported@);
        r
    }

    fn effect_enabled(&self, e: FixtureEffectType) -> (r: bool)
        ensures
            r == effect_enabled(*self, e),
    {
        contains_effect(&self.profile.supported_effects, e) && contains_effect(&self.enabled_effects, e)
    }

    pub fn dimmer_effects_enabled(&self) -> (r: bool)
        ensures
            r == effect_enabled(*self, FixtureEffectType::Dimmer),
    {
        self.effect_enabled(FixtureEffectType::Dimmer)
    }

    pub fn color_effects_enabled(&self) -> (r: bool)
        ensures
            r == effect_enabled(*self, FixtureEffectType::Color),
    {
        self.effect_enabled(FixtureEffectType::Color)
    }

    pub fn pixel_effects_enabled(&self) -> (r: bool)
        ensures
            r == effect_enabled(*self, FixtureEffectType::Pixel),
    {
        self.effect_enabled(FixtureEffectType::Pixel)
    }

    pub fn position_effects_enabled(&self) -> (r: bool)
        ensures
            r == effect_enabled(*self, FixtureEffectType::Position),
    {
        self.effect_enabled(FixtureEffectType::Position)
    }
}

/// Whether `e` is among the effects `enabled_effects` gives: exactly when the
/// fixture's profile supports it and the project enables it.
pub proof fn lemma_enabled_effects_membership(params: FixtureParams, e: FixtureEffectType)
    ensures
        params.profile.supported_effects@.filter(|x: FixtureEffectType| params.enabled_effects@.contains(x)).contains(e)
            <==> effect_enabled(params, e),
{
    let s = params.profile.supported_effects@;
    let pred = |x: FixtureEffectType| params.enabled_effects@.contains(x);
    if s.filter(pred).contains(e) {
        s.lemma_filter_contains_rev(pred, e);
        let i = choose|i: int| 0 <= i < s.filter(pred).len() && s.filter(pred)[i] == e;
        s.lemma_filter_pred(pred, i);
    }
    if effect_enabled(params, e) {
        let i = choose|i: int| 0 <= i < s.len() && s[i] == e;
        s.lemma_filter_contains(pred, i);
    }
}

} // verus!
