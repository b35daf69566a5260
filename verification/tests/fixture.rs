use roller::fixture::{
    BeamId, FixtureBeamProfile, FixtureEffectType, FixtureGroupId, FixtureId, FixtureLocation,
    FixtureParameter, FixtureParams, FixtureProfile, FixtureProfileChannel,
};
use roller::profile::{build_fixture_profile, FixtureProfileData};

fn channel(parameter: FixtureParameter, channel: usize, beam: Option<usize>) -> FixtureProfileChannel {
    FixtureProfileChannel {
        parameter,
        channel,
        beam: beam.map(BeamId::new),
        min_value: FixtureProfileChannel::default_min_value(),
        max_value: FixtureProfileChannel::default_max_value(),
    }
}

fn data(channels: Vec<FixtureProfileChannel>, effects: Vec<FixtureEffectType>) -> FixtureProfileData {
    FixtureProfileData {
        slug: "par".to_string(),
        label: "Par".to_string(),
        channel_count: channels.len(),
        channels,
        supported_effects: effects,
    }
}

#[test]
fn channel_values_and_index() {
    assert_eq!(FixtureProfileChannel::default_min_value(), 0);
    assert_eq!(FixtureProfileChannel::default_max_value(), 255);
    assert_eq!(channel(FixtureParameter::Red, 3, None).channel_index(), 2);
}

#[test]
fn all_effect_types() {
    assert_eq!(
        FixtureEffectType::all(),
        vec![
            FixtureEffectType::Color,
            FixtureEffectType::Dimmer,
            FixtureEffectType::Pixel,
            FixtureEffectType::Position,
        ]
    );
}

#[test]
fn ids_and_locations() {
    assert_eq!(FixtureGroupId::new(4), FixtureGroupId(4));
    assert_eq!(BeamId::new(2), BeamId(2));
    let l = FixtureLocation::new(-1, 3);
    assert_eq!((l.x, l.y), (-1, 3));
    assert_ne!(FixtureId::new(), FixtureId::new());
}

#[test]
fn fixture_ids_are_version_4_uuids() {
    for _ in 0..16 {
        let id = FixtureId::new();
        assert_eq!((id.0 >> 76) & 0xf, 4);
        assert_eq!((id.0 >> 62) & 0x3, 2);
    }
}

#[test]
fn single_beam_profile_keeps_global_dimmer() {
    let d = data(
        vec![
            channel(FixtureParameter::Dimmer, 1, None),
            channel(FixtureParameter::Red, 2, None),
            channel(FixtureParameter::Green, 3, None),
            channel(FixtureParameter::Blue, 4, None),
        ],
        vec![FixtureEffectType::Color, FixtureEffectType::Dimmer],
    );
    assert!(d.is_well_formed());
    let p = build_fixture_profile(d);
    assert_eq!(p.slug, "par");
    assert_eq!(p.channel_count, 4);
    assert_eq!(p.dimmer_channel, Some(channel(FixtureParameter::Dimmer, 1, None)));
    assert_eq!(p.beams.len(), 1);
    assert_eq!(p.beams[0].dimmer_channel, None);
    assert_eq!(p.beams[0].red_channel, Some(channel(FixtureParameter::Red, 2, None)));
    assert!(p.is_colorable());
    assert!(!p.is_dimmable());
    assert!(!p.is_positionable());
    assert_eq!(p.beam_count(), 1);
}

#[test]
fn beams_are_ordered_by_identifier() {
    let d = data(
        vec![
            channel(FixtureParameter::Dimmer, 1, None),
            channel(FixtureParameter::Dimmer, 2, Some(3)),
            channel(FixtureParameter::Dimmer, 3, Some(1)),
            channel(FixtureParameter::Pan, 4, None),
            channel(FixtureParameter::Tilt, 5, None),
            channel(FixtureParameter::Pan, 6, None),
        ],
        vec![FixtureEffectType::Dimmer, FixtureEffectType::Position],
    );
    let p = build_fixture_profile(d);
    assert_eq!(p.beams.len(), 2);
    assert_eq!(p.beams[0].dimmer_channel, Some(channel(FixtureParameter::Dimmer, 3, Some(1))));
    assert_eq!(p.beams[1].dimmer_channel, Some(channel(FixtureParameter::Dimmer, 2, Some(3))));
    assert_eq!(p.dimmer_channel, Some(channel(FixtureParameter::Dimmer, 1, None)));
    assert_eq!(p.pan_channel, Some(channel(FixtureParameter::Pan, 6, None)));
    assert_eq!(p.tilt_channel, Some(channel(FixtureParameter::Tilt, 5, None)));
    assert!(p.is_dimmable());
    assert!(p.is_positionable());
}

#[test]
fn malformed_profiles_are_refused() {
    let mut d = data(vec![channel(FixtureParameter::Red, 1, None)], vec![]);
    d.channel_count = 2;
    assert!(!d.is_well_formed());
    let empty = data(vec![], vec![]);
    assert!(!empty.is_well_formed());
    let twice = data(
        vec![channel(FixtureParameter::Red, 1, Some(0)), channel(FixtureParameter::Red, 2, Some(0))],
        vec![],
    );
    assert!(!twice.is_well_formed());
}

#[test]
fn beam_colour_channels() {
    let b = FixtureBeamProfile {
        dimmer_channel: None,
        red_channel: Some(channel(FixtureParameter::Red, 1, None)),
        green_channel: Some(channel(FixtureParameter::Green, 2, None)),
        blue_channel: Some(channel(FixtureParameter::Blue, 3, None)),
        cool_white_channel: None,
    };
    assert!(b.is_colorable());
    assert!(!b.is_dimmable());
    assert!(b.color_channels().is_some());
    assert_eq!(FixtureBeamProfile::default().color_channels(), None);
}

fn profile(effects: Vec<FixtureEffectType>) -> FixtureProfile {
    build_fixture_profile(data(vec![channel(FixtureParameter::Dimmer, 1, Some(0))], effects))
}

#[test]
fn enabled_effects_need_support_and_enabling() {
    let params = FixtureParams {
        id: FixtureId(1),
        profile: profile(vec![FixtureEffectType::Dimmer, FixtureEffectType::Pixel, FixtureEffectType::Color]),
        universe: 1,
        start_channel: 1,
        group_id: None,
        location: None,
        enabled_effects: vec![FixtureEffectType::Color, FixtureEffectType::Dimmer, FixtureEffectType::Position],
    };
    assert_eq!(params.enabled_effects(), vec![FixtureEffectType::Dimmer, FixtureEffectType::Color]);
    assert!(params.dimmer_effects_enabled());
    assert!(params.color_effects_enabled());
    assert!(!params.pixel_effects_enabled());
    assert!(!params.position_effects_enabled());
}

#[test]
fn fixtures_compare_field_by_field() {
    let a = FixtureParams {
        id: FixtureId(1),
        profile: profile(vec![FixtureEffectType::Dimmer]),
        universe: 1,
        start_channel: 1,
        group_id: Some(FixtureGroupId(1)),
        location: None,
        enabled_effects: vec![FixtureEffectType::Dimmer],
    };
    let mut b = a.clone();
    assert!(a.same_as(&b));
    b.start_channel = 2;
    assert!(!a.same_as(&b));
}
