//! The decisions of the beat clock: where its tempo comes from, and what a tap
//! on the tempo button does. Times are whole nanoseconds on a monotonic clock;
//! turning them into a tempo in beats per minute is left to the caller.
use vstd::prelude::*;

verus! {

/// A pause between taps longer than this (one second, in nanoseconds) starts
/// a new series of taps.
pub const MAX_TAP_GAP_NANOS: u64 = 1_000_000_000;

/// The number of taps from which a series sets the tempo.
pub const MIN_TEMPO_TAPS: usize = 4;

/// Where the tempo comes from.
#[derive(Debug, Clone, PartialEq, Eq)]
pub enum TempoSource {
    /// Tapped by hand; holds the times of the current series of taps, oldest
    /// first.
    Taps(Vec<u64>),
    /// Set by an outside clock.
    External,
}

/// The model of a tempo source: the times of the current series of taps, or
/// `None` for an outside clock.
pub open spec fn tempo_source_view(s: TempoSource) -> Option<Seq<u64>> {
    match s {
        TempoSource::Taps(taps) => Some(taps@),
        TempoSource::External => None,
    }
}

/// A tempo measured from a series of taps: the first and the last tap of the
/// series, and the number of beats between them.
#[derive(Debug, Clone, Copy, PartialEq, Eq, Structural)]
pub struct TappedTempo {
    pub first_tap: u64,
    pub last_tap: u64,
    pub beats: usize,
}

/// What a tap does to the clock.
#[derive(Debug, Clone, Copy, PartialEq, Eq, Structural)]
pub enum TapEffect {
    /// Nothing yet: the series is too short to measure.
    Nothing,
    /// The beat starts again at the tap; the tempo stays.
    Restart,
    /// The beat starts again at the tap, with the tempo measured from the
    /// series.
    SetTempo(TappedTempo),
}

/// The series of taps that a tap at `now` continues: the series so far, unless
/// the last tap of it came more than `MAX_TAP_GAP_NANOS` before `now` (a tap
/// earlier than the last one counts as no pause).
pub open spec fn series_before(taps: Seq<u64>, now: u64) -> Seq<u64> {
    if taps.len() > 0 && now > taps.last() && now - taps.last() > MAX_TAP_GAP_NANOS {
        Seq::empty()
    } else {
        taps
    }
}

/// What a tap at `now` does when the taps so far are `taps`: the new series
/// holds `now` last; from `MIN_TEMPO_TAPS` taps on it sets the tempo from its
/// first tap to `now`, one beat per pause between taps.
pub open spec fn tap_effect(taps: Seq<u64>, now: u64) -> TapEffect {
    let series = series_before(taps, now).push(now);
    if series.len() >= MIN_TEMPO_TAPS {
        TapEffect::SetTempo(TappedTempo { first_tap: series[0], last_tap: now, beats: (series.len() - 1) as usize })
    } else {
        TapEffect::Nothing
    }
}

impl TempoSource {
    /// A clock whose tempo is tapped, with no taps yet.
    pub fn new() -> (s: TempoSource)
        ensures
            tempo_source_view(s) == Some(Seq::<u64>::empty()),
    {
        TempoSource::Taps(Vec::new())
    }

    /// A tap of the tempo button at `now`. With a tapped tempo the tap joins
    /// the current series (or starts a new one after a pause of more than a
    /// second) and may set the tempo; with an outside clock it only restarts
    /// the beat.
    pub fn tap(&mut self, now: u64) -> (e: TapEffect)
        ensures
            match tempo_source_view(*old(self)) {
                Some(taps) => {
                    &&& tempo_source_view(*final(self)) == Some(series_before(taps, now).push(now))
                    &&& e == tap_effect(taps, now)
                },
                None => {
                    &&& tempo_source_view(*final(self)) == None::<Seq<u64>>
                    &&& e == TapEffect::Restart
                },
            },
    {
        match self {
            TempoSource::Taps(taps) => {
                let n = taps.len();
                if n > 0 {
                    let last = taps[n - 1];
                    if now > last && now - last > MAX_TAP_GAP_NANOS {
                        taps.clear();
                    }
                }
                taps.push(now);
                let len = taps.len();
                if len >= MIN_TEMPO_TAPS {
                    TapEffect::SetTempo(TappedTempo { first_tap: taps[0], last_tap: now, beats: len - 1 })
                } else {
                    TapEffect::Nothing
                }
            },
            TempoSource::External => TapEffect::Restart,
        }
    }

    /// The outside clock reported a tempo: from now on it sets the tempo, and
    /// any series of taps is forgotten.
    pub fn follow_external(&mut self)
        ensures
            tempo_source_view(*final(self)) == None::<Seq<u64>>,
    {
        *self = TempoSource::External;
    }
}

/// The tempo is set from the fourth tap of a series on, measured from its first
/// tap: when the series holds `t0, t1` a tap at `t2` within a second of `t1`
/// sets nothing yet, and when it holds `t0, t1, t2` a tap at `t3` within a
/// second of `t2` sets the tempo from `t0` to `t3` over three beats.
pub proof fn lemma_four_taps_set_tempo(t0: u64, t1: u64, t2: u64, t3: u64)
    requires
        t0 <= t1 <= t2 <= t3,
        t1 - t0 <= MAX_TAP_GAP_NANOS,
        t2 - t1 <= MAX_TAP_GAP_NANOS,
        t3 - t2 <= MAX_TAP_GAP_NANOS,
    ensures
        series_before(seq![t0, t1, t2], t3).push(t3) == seq![t0, t1, t2, t3],
        tap_effect(seq![t0, t1, t2], t3) == TapEffect::SetTempo(TappedTempo { first_tap: t0, last_tap: t3, beats: 3 }),
        tap_effect(seq![t0, t1], t2) == TapEffect::Nothing,
{
    assert(seq![t0, t1, t2].push(t3) =~= seq![t0, t1, t2, t3]);
}

/// A pause of more than a second forgets the series: whatever came before, a
/// tap after such a pause starts a series of its own and sets no tempo.
pub proof fn lemma_pause_starts_new_series(taps: Seq<u64>, now: u64)
    requires
        taps.len() > 0,
        now > taps.last(),
        now - taps.last() > MAX_TAP_GAP_NANOS,
    ensures
        series_before(taps, now).push(now) == seq![now],
        tap_effect(taps, now) == TapEffect::Nothing,
{
    assert(Seq::<u64>::empty().push(now) =~= seq![now]);
}

} // verus!
