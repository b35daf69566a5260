use roller::color::Color;
use roller::control::{ButtonCoordinate, ButtonGridLocation, ButtonState, FaderId};
use roller::effect::{EffectDirection, Steps};
use roller::position::BasePositionMode;
use roller::utils::{clamp, shift_remove_vec};

#[test]
fn css_names() {
    assert_eq!(ButtonGridLocation::Main.css_name(), "main");
    assert_eq!(ButtonGridLocation::MetaRight.css_name(), "meta-right");
    assert_eq!(ButtonGridLocation::MetaBottom.css_name(), "meta-bottom");
}

#[test]
fn css_classes() {
    assert_eq!(ButtonState::Active.css_class(), "button--active");
    assert_eq!(ButtonState::Inactive.css_class(), "button--inactive");
    assert_eq!(ButtonState::Deactivated.css_class(), "button--deactivated");
    assert_eq!(ButtonState::Unused.css_class(), "button--unused");
    assert_eq!(ButtonState::default(), ButtonState::Unused);
}

#[test]
fn constructors_keep_their_fields() {
    let c = ButtonCoordinate::new(2, 5);
    assert_eq!(c.column_idx, 2);
    assert_eq!(c.row_idx, 5);
    assert_eq!(FaderId::new(3), FaderId(3));
    assert_eq!(BasePositionMode::default(), BasePositionMode::Default);
    assert_ne!(Color::Red, Color::Violet);
    assert_ne!(EffectDirection::ToCenter, EffectDirection::FromCenter);
}

#[test]
fn steps_keep_their_order() {
    let s = Steps::new(vec![3, 1, 2]);
    assert_eq!(s.steps(), &[3, 1, 2]);
}

#[test]
fn clamp_limits_to_range() {
    assert_eq!(clamp(5, 0, 3), 3);
    assert_eq!(clamp(-1, 0, 3), 0);
    assert_eq!(clamp(2, 0, 3), 2);
    assert_eq!(clamp(0, 0, 3), 0);
    assert_eq!(clamp(0.5f64, 0.0, 1.0), 0.5);
    assert_eq!(clamp(1.5f64, 0.0, 1.0), 1.0);
}

#[test]
fn shift_remove_keeps_order() {
    let mut v = vec![1, 2, 3, 2];
    assert_eq!(shift_remove_vec(&mut v, &2), Some(2));
    assert_eq!(v, vec![1, 3, 2]);
    assert_eq!(shift_remove_vec(&mut v, &7), None);
    assert_eq!(v, vec![1, 3, 2]);
}

#[test]
fn coordinates_print_column_then_row() {
    assert_eq!(ButtonCoordinate::new(2, 5).to_string(), "(2, 5)");
    assert_eq!(ButtonCoordinate::new(0, 0).to_string(), "(0, 0)");
    assert_eq!(ButtonCoordinate::new(10, 123).to_string(), "(10, 123)");
}

#[test]
fn clamp_is_idempotent_and_stays_in_range() {
    for x in -5i64..10 {
        let r = clamp(x, 0, 3);
        assert!(0 <= r && r <= 3);
        assert_eq!(clamp(r, 0, 3), r);
        if (0..=3).contains(&x) {
            assert_eq!(r, x);
        }
    }
    assert_eq!(clamp(7, 4, 4), 4);
}
