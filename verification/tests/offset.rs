use roller::effect::EffectDirection;
use roller::fixture::{
    BeamId, FixtureEffectType, FixtureGroupId, FixtureId, FixtureLocation, FixtureParameter,
    FixtureParams, FixtureProfileChannel,
};
use roller::offset::{ClockOffset, ClockOffsetMode};
use roller::profile::{build_fixture_profile, FixtureProfileData};

fn fixture(id: u128, group: Option<usize>, location: Option<(isize, isize)>) -> FixtureParams {
    let channel = FixtureProfileChannel {
        parameter: FixtureParameter::Dimmer,
        channel: 1,
        beam: Some(BeamId::new(0)),
        min_value: 0,
        max_value: 255,
    };
    let profile = build_fixture_profile(FixtureProfileData {
        slug: "dim".to_string(),
        label: "Dimmer".to_string(),
        channel_count: 1,
        channels: vec![channel],
        supported_effects: vec![FixtureEffectType::Dimmer],
    });
    FixtureParams {
        id: FixtureId(id),
        profile,
        universe: 1,
        start_channel: 1,
        group_id: group.map(FixtureGroupId::new),
        location: location.map(|(x, y)| FixtureLocation::new(x, y)),
        enabled_effects: vec![FixtureEffectType::Dimmer],
    }
}

fn row() -> Vec<FixtureParams> {
    vec![
        fixture(1, Some(1), Some((2, 0))),
        fixture(2, Some(2), Some((0, 5))),
        fixture(3, Some(3), Some((1, 0))),
        fixture(4, None, None),
        fixture(5, Some(1), Some((3, 5))),
        fixture(6, Some(2), Some((2, 9))),
    ]
}

#[test]
fn new_seed_is_a_shuffle_of_0_to_31() {
    let c = ClockOffset::new(ClockOffsetMode::Random, 0.5f64);
    assert_eq!(c.mode, ClockOffsetMode::Random);
    assert_eq!(c.offset, 0.5);
    let mut sorted = c.seed;
    sorted.sort();
    let expected: Vec<u8> = (0..32).collect();
    assert_eq!(sorted.to_vec(), expected);
    assert_ne!(c.seed.to_vec(), expected);
}

#[test]
fn group_id_mode() {
    let fixtures = row();
    let c = ClockOffset::new(ClockOffsetMode::GroupId, ());
    assert_eq!(c.offset_multiple(&fixtures[0], &fixtures), 0);
    assert_eq!(c.offset_multiple(&fixtures[2], &fixtures), 2);
    assert_eq!(c.offset_multiple(&fixtures[3], &fixtures), 0);
    let outside = fixture(9, Some(0), None);
    assert_eq!(c.offset_multiple(&outside, &fixtures), -1);
}

#[test]
fn fixture_index_mode() {
    let fixtures = row();
    let c = ClockOffset::new(ClockOffsetMode::FixtureIndex, ());
    assert_eq!(c.offset_multiple(&fixtures[0], &fixtures), 0);
    assert_eq!(c.offset_multiple(&fixtures[4], &fixtures), 4);
    assert_eq!(c.offset_multiple(&fixture(6, Some(2), Some((2, 9))), &fixtures), 5);
}

#[test]
fn random_mode_uses_the_seed() {
    let fixtures = row();
    let c = ClockOffset::new(ClockOffsetMode::Random, ());
    assert_eq!(c.offset_multiple(&fixtures[3], &fixtures), c.seed[3] as i128);
    let m = c.offset_multiple(&fixtures[5], &fixtures);
    assert!((0..32).contains(&m));
}

#[test]
fn left_to_right_counts_from_the_right() {
    let fixtures = row();
    let c = ClockOffset::new(ClockOffsetMode::Location(EffectDirection::LeftToRight), ());
    // distinct x coordinates: 0, 1, 2, 3
    assert_eq!(c.offset_multiple(&fixtures[4], &fixtures), 0);
    assert_eq!(c.offset_multiple(&fixtures[0], &fixtures), 1);
    assert_eq!(c.offset_multiple(&fixtures[5], &fixtures), 1);
    assert_eq!(c.offset_multiple(&fixtures[1], &fixtures), 3);
    assert_eq!(c.offset_multiple(&fixtures[3], &fixtures), 0);
}

#[test]
fn bottom_to_top_uses_heights() {
    let fixtures = row();
    let c = ClockOffset::new(ClockOffsetMode::Location(EffectDirection::BottomToTop), ());
    // distinct y coordinates: 0, 5, 9
    assert_eq!(c.offset_multiple(&fixtures[0], &fixtures), 2);
    assert_eq!(c.offset_multiple(&fixtures[1], &fixtures), 1);
    assert_eq!(c.offset_multiple(&fixtures[5], &fixtures), 0);
}

#[test]
fn center_modes_pair_the_ends() {
    let fixtures = row();
    let from = ClockOffset::new(ClockOffsetMode::Location(EffectDirection::FromCenter), ());
    let to = ClockOffset::new(ClockOffsetMode::Location(EffectDirection::ToCenter), ());
    // distinct x coordinates 0, 1, 2, 3 pair up as (0, 3) and (1, 2)
    assert_eq!(from.offset_multiple(&fixtures[1], &fixtures), 0);
    assert_eq!(from.offset_multiple(&fixtures[4], &fixtures), 0);
    assert_eq!(from.offset_multiple(&fixtures[2], &fixtures), 1);
    assert_eq!(from.offset_multiple(&fixtures[0], &fixtures), 1);
    assert_eq!(to.offset_multiple(&fixtures[1], &fixtures), 1);
    assert_eq!(to.offset_multiple(&fixtures[2], &fixtures), 0);
}

#[test]
fn center_modes_with_an_odd_row() {
    let fixtures = vec![
        fixture(1, None, Some((0, 0))),
        fixture(2, None, Some((1, 0))),
        fixture(3, None, Some((2, 0))),
    ];
    let from = ClockOffset::new(ClockOffsetMode::Location(EffectDirection::FromCenter), ());
    let to = ClockOffset::new(ClockOffsetMode::Location(EffectDirection::ToCenter), ());
    assert_eq!(from.offset_multiple(&fixtures[0], &fixtures), 0);
    assert_eq!(from.offset_multiple(&fixtures[1], &fixtures), 1);
    assert_eq!(from.offset_multiple(&fixtures[2], &fixtures), 0);
    assert_eq!(to.offset_multiple(&fixtures[0], &fixtures), 1);
    assert_eq!(to.offset_multiple(&fixtures[1], &fixtures), 0);
}

#[test]
fn offsets_are_defined_only_for_listed_fixtures() {
    let fixtures = row();
    let outside = fixture(9, Some(1), Some((7, 7)));
    let index = ClockOffset::new(ClockOffsetMode::FixtureIndex, ());
    assert!(index.offset_defined(&fixtures[2], &fixtures));
    assert!(!index.offset_defined(&outside, &fixtures));
    assert_eq!(index.try_offset_multiple(&outside, &fixtures), None);
    assert_eq!(index.try_offset_multiple(&fixtures[2], &fixtures), Some(2));
    let group = ClockOffset::new(ClockOffsetMode::GroupId, ());
    assert_eq!(group.try_offset_multiple(&outside, &fixtures), Some(0));
    let location = ClockOffset::new(ClockOffsetMode::Location(EffectDirection::LeftToRight), ());
    assert_eq!(location.try_offset_multiple(&outside, &fixtures), None);
    let elsewhere = fixture(9, None, Some((3, 100)));
    assert_eq!(location.try_offset_multiple(&elsewhere, &fixtures), Some(0));
}
