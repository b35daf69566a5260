use roller::button::{ButtonGroup, ButtonGroupId, ButtonMapping, ButtonRef, ButtonType, MetaButtonMapping};
use roller::control::{ButtonCoordinate, ButtonGridLocation, FaderId};
use roller::control_mapping::{ControlMapping, FaderControlMapping, FaderType};
use roller::fixture::FixtureGroupId;

fn fader(id: usize, t: FaderType, curve: &'static str) -> FaderControlMapping<&'static str> {
    FaderControlMapping { id: FaderId::new(id), fader_type: t, fader_curve: curve }
}

fn meta(column: usize, action: u8) -> MetaButtonMapping<u8> {
    MetaButtonMapping {
        location: ButtonGridLocation::MetaBottom,
        coordinate: ButtonCoordinate::new(column, 0),
        on_action: action,
        off_action: None,
    }
}

#[test]
fn later_faders_and_meta_buttons_win() {
    let cm: ControlMapping<(), u8, &str> = ControlMapping::new(
        vec![
            fader(0, FaderType::MasterDimmer, "first"),
            fader(1, FaderType::GroupDimmer(FixtureGroupId::new(2)), "group"),
            fader(0, FaderType::DimmerEffectIntensity, "second"),
        ],
        vec![],
        vec![meta(0, 1), meta(1, 2), meta(0, 3)],
    );
    assert_eq!(cm.faders.len(), 2);
    assert_eq!(cm.find_fader(FaderId::new(0)).unwrap().fader_curve, "second");
    assert_eq!(cm.find_fader(FaderId::new(1)).unwrap().fader_type, FaderType::GroupDimmer(FixtureGroupId::new(2)));
    assert!(cm.find_fader(FaderId::new(9)).is_none());
    assert_eq!(cm.meta_buttons.len(), 2);
    let m = cm.find_meta_button(ButtonGridLocation::MetaBottom, ButtonCoordinate::new(0, 0)).unwrap();
    assert_eq!(m.on_action, 3);
    assert!(cm.find_meta_button(ButtonGridLocation::MetaRight, ButtonCoordinate::new(0, 0)).is_none());
}

#[test]
fn find_button_searches_groups_then_meta_buttons() {
    let mut next = 0usize;
    let first = ButtonGroup::new(
        &mut next,
        ButtonType::Toggle,
        vec![ButtonMapping { label: "a".to_string(), coordinate: ButtonCoordinate::new(0, 0), on_action: 1u8 }],
    );
    let second = ButtonGroup::new(
        &mut next,
        ButtonType::Flash,
        vec![
            ButtonMapping { label: "b".to_string(), coordinate: ButtonCoordinate::new(1, 0), on_action: 2u8 },
            ButtonMapping { label: "c".to_string(), coordinate: ButtonCoordinate::new(0, 0), on_action: 3u8 },
        ],
    );
    let cm: ControlMapping<u8, u8, ()> = ControlMapping::new(vec![], vec![first, second], vec![meta(4, 7)]);
    assert_eq!(
        cm.find_button(ButtonGridLocation::Main, ButtonCoordinate::new(0, 0)),
        Some(ButtonRef::Standard {
            group: ButtonGroupId(0),
            button_type: ButtonType::Toggle,
            index: 0,
            coordinate: ButtonCoordinate::new(0, 0),
        })
    );
    assert_eq!(
        cm.find_button(ButtonGridLocation::Main, ButtonCoordinate::new(1, 0)),
        Some(ButtonRef::Standard {
            group: ButtonGroupId(1),
            button_type: ButtonType::Flash,
            index: 0,
            coordinate: ButtonCoordinate::new(1, 0),
        })
    );
    assert_eq!(
        cm.find_button(ButtonGridLocation::MetaBottom, ButtonCoordinate::new(4, 0)),
        Some(ButtonRef::Meta { location: ButtonGridLocation::MetaBottom, coordinate: ButtonCoordinate::new(4, 0) })
    );
    assert_eq!(cm.find_button(ButtonGridLocation::Main, ButtonCoordinate::new(5, 5)), None);
}
