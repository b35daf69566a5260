use roller::clock::{TapEffect, TappedTempo, TempoSource, MAX_TAP_GAP_NANOS};

const MS: u64 = 1_000_000;

#[test]
fn fourth_tap_sets_the_tempo() {
    let mut source = TempoSource::new();
    assert_eq!(source.tap(0), TapEffect::Nothing);
    assert_eq!(source.tap(500 * MS), TapEffect::Nothing);
    assert_eq!(source.tap(1000 * MS), TapEffect::Nothing);
    assert_eq!(
        source.tap(1500 * MS),
        TapEffect::SetTempo(TappedTempo { first_tap: 0, last_tap: 1500 * MS, beats: 3 })
    );
    assert_eq!(
        source.tap(2000 * MS),
        TapEffect::SetTempo(TappedTempo { first_tap: 0, last_tap: 2000 * MS, beats: 4 })
    );
}

#[test]
fn a_long_pause_starts_a_new_series() {
    let mut source = TempoSource::new();
    for i in 0..4u64 {
        source.tap(i * 400 * MS);
    }
    let late = 1200 * MS + MAX_TAP_GAP_NANOS + 1;
    assert_eq!(source.tap(late), TapEffect::Nothing);
    assert_eq!(source, TempoSource::Taps(vec![late]));
}

#[test]
fn a_pause_of_exactly_one_second_keeps_the_series() {
    let mut source = TempoSource::new();
    source.tap(0);
    source.tap(MAX_TAP_GAP_NANOS);
    assert_eq!(source, TempoSource::Taps(vec![0, MAX_TAP_GAP_NANOS]));
}

#[test]
fn an_outside_clock_only_restarts_on_taps() {
    let mut source = TempoSource::new();
    source.tap(0);
    source.follow_external();
    assert_eq!(source, TempoSource::External);
    assert_eq!(source.tap(5), TapEffect::Restart);
    assert_eq!(source, TempoSource::External);
}
