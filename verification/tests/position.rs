use roller::fixture::{
    FixtureEffectType, FixtureId, FixtureParameter, FixtureParams, FixtureProfileChannel,
};
use roller::position::{moving_fixture_index, BasePositionMode};
use roller::profile::{build_fixture_profile, FixtureProfileData};

fn fixture(id: u128, moving: bool) -> FixtureParams {
    let channel = |parameter, channel| FixtureProfileChannel { parameter, channel, beam: None, min_value: 0, max_value: 255 };
    let mut channels = vec![channel(FixtureParameter::Dimmer, 1)];
    if moving {
        channels.push(channel(FixtureParameter::Pan, 2));
        channels.push(channel(FixtureParameter::Tilt, 3));
    }
    let profile = build_fixture_profile(FixtureProfileData {
        slug: "head".to_string(),
        label: "Head".to_string(),
        channel_count: channels.len(),
        channels,
        supported_effects: vec![FixtureEffectType::Position],
    });
    FixtureParams {
        id: FixtureId(id),
        profile,
        universe: 1,
        start_channel: 1,
        group_id: None,
        location: None,
        enabled_effects: vec![FixtureEffectType::Position],
    }
}

#[test]
fn moving_heads_are_counted_in_order() {
    let fixtures = vec![fixture(1, true), fixture(2, false), fixture(3, true), fixture(4, true)];
    assert_eq!(moving_fixture_index(&fixtures[0], &fixtures), 0);
    assert_eq!(moving_fixture_index(&fixtures[2], &fixtures), 1);
    assert_eq!(moving_fixture_index(&fixtures[3], &fixtures), 2);
    assert_eq!(moving_fixture_index(&fixtures[1], &fixtures), 0);
    assert_eq!(moving_fixture_index(&fixture(5, true), &fixtures), 0);
}

#[test]
fn every_other_head_mirrors() {
    let fixtures = vec![fixture(1, true), fixture(2, false), fixture(3, true), fixture(4, true)];
    let mirror = BasePositionMode::MirrorPan;
    assert!(!mirror.pan_mirrored(&fixtures[0], &fixtures));
    assert!(mirror.pan_mirrored(&fixtures[2], &fixtures));
    assert!(!mirror.pan_mirrored(&fixtures[3], &fixtures));
    assert!(!BasePositionMode::Default.pan_mirrored(&fixtures[2], &fixtures));
}
