use roller::dmx::{fold_fixture_dmx_data, write_dmx, FixtureDmx, UNIVERSE_SIZE};

#[test]
fn write_places_values_from_the_start_channel() {
    let mut frame = [0u8; 8];
    write_dmx(&[7, 8, 9], 3, &mut frame);
    assert_eq!(frame, [0, 0, 7, 8, 9, 0, 0, 0]);
    write_dmx(&[1], 1, &mut frame);
    assert_eq!(frame, [1, 0, 7, 8, 9, 0, 0, 0]);
}

#[test]
fn fold_builds_one_frame_per_universe() {
    let fixtures = vec![
        FixtureDmx { universe: 1, start_channel: 1, channels: vec![10, 11] },
        FixtureDmx { universe: 2, start_channel: 512, channels: vec![99] },
        FixtureDmx { universe: 1, start_channel: 2, channels: vec![20, 21] },
    ];
    let frames = fold_fixture_dmx_data(&fixtures);
    assert_eq!(frames.len(), 2);
    let one = frames[&1];
    assert_eq!(&one[0..4], &[10, 20, 21, 0]);
    assert!(one[4..].iter().all(|v| *v == 0));
    let two = frames[&2];
    assert_eq!(two[UNIVERSE_SIZE - 1], 99);
    assert!(two[..UNIVERSE_SIZE - 1].iter().all(|v| *v == 0));
    assert!(!frames.contains_key(&3));
}

#[test]
fn no_fixtures_no_frames() {
    assert!(fold_fixture_dmx_data(&[]).is_empty());
}
