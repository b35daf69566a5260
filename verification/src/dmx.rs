//! DMX frames: each universe carries 512 channels, and each fixture takes a
//! run of consecutive channels of its universe, from its start channel on.
use vstd::prelude::*;

use std::collections::HashMap;

verus! {

broadcast use vstd::std_specs::hash::group_hash_axioms;

/// The number of channels in a DMX universe.
pub const UNIVERSE_SIZE: usize = 512;

/// A frame with `values` written over `frame` from offset `start` on.
pub open spec fn written(frame: Seq<u8>, start: int, values: Seq<u8>) -> Seq<u8> {
    frame.take(start) + values + frame.skip(start + values.len())
}

/// Writes the channel values of a fixture into the frame of its universe; its
/// first value goes to channel `start_channel`, counted from 1.
pub fn write_dmx(channels: &[u8], start_channel: usize, dmx: &mut [u8])
    requires
        start_channel >= 1,
        start_channel - 1 + channels@.len() <= old(dmx)@.len(),
    ensures
        final(dmx)@ == written(old(dmx)@, start_channel - 1, channels@),
{
    let start = start_channel - 1;
    let n = dmx.len();
    let mut i: usize = 0;
    while i < channels.len()
        invariant
            n == old(dmx)@.len(),
            start + channels@.len() <= n,
            i <= channels@.len(),
            dmx@.len() == old(dmx)@.len(),
            forall|j: int| 0 <= j < start ==> dmx@[j] == old(dmx)@[j],
            forall|j: int| 0 <= j < i ==> dmx@[start + j] == channels@[j],
            forall|j: int| start + i <= j < dmx@.len() ==> dmx@[j] == old(dmx)@[j],
        decreases channels@.len() - i,
    {
        dmx[start + i] = channels[i];
        i += 1;
    }
    assert(dmx@ =~= written(old(dmx)@, start as int, channels@));
}

/// The channel values a fixture sends, and where they go: its universe and
/// its first channel, counted from 1.
#[derive(Debug, Clone)]
pub struct FixtureDmx {
    pub universe: usize,
    pub start_channel: usize,
    pub channels: Vec<u8>,
}

/// The fixture's channels fit in its universe.
pub open spec fn fits_universe(f: FixtureDmx) -> bool {
    f.start_channel >= 1 && f.start_channel - 1 + f.channels@.len() <= UNIVERSE_SIZE
}

/// A universe with every channel at zero.
pub open spec fn blank_frame() -> Seq<u8> {
    Seq::new(UNIVERSE_SIZE as nat, |i: int| 0u8)
}

/// The frame of universe `u` once every fixture of the list has been
/// written, in order: later fixtures overwrite earlier ones where they overlap.
pub open spec fn universe_frame(fixtures: Seq<FixtureDmx>, u: usize) -> Seq<u8>
    decreases fixtures.len(),
{
    if fixtures.len() == 0 {
        blank_frame()
    } else {
        let before = universe_frame(fixtures.drop_last(), u);
        let f = fixtures.last();
        if f.universe == u {
            written(before, f.start_channel - 1, f.channels@)
        } else {
            before
        }
    }
}

/// Some fixture of the list is in universe `u`.
pub open spec fn has_universe(fixtures: Seq<FixtureDmx>, u: usize) -> bool {
    exists|i: int| 0 <= i < fixtures.len() && (#[trigger] fixtures[i]).universe == u
}

/// The frame of each universe that some fixture is in, with every fixture
/// written into it in turn.
pub fn fold_fixture_dmx_data(fixtures: &[FixtureDmx]) -> (frames: HashMap<usize, [u8; 512]>)
    requires
        forall|i: int| 0 <= i < fixtures@.len() ==> fits_universe(#[trigger] fixtures@[i]),
    ensures
        forall|u: usize| #[trigger] frames@.contains_key(u) <==> has_universe(fixtures@, u),
        forall|u: usize| #[trigger] frames@.contains_key(u) ==> frames@[u]@ == universe_frame(fixtures@, u),
{
    let mut frames: HashMap<usize, [u8; 512]> = HashMap::new();
    let mut i: usize = 0;
    while i < fixtures.len()
        invariant
            i <= fixtures@.len(),
            forall|k: int| 0 <= k < fixtures@.len() ==> fits_universe(#[trigger] fixtures@[k]),
            forall|u: usize| #[trigger] frames@.contains_key(u) <==> has_universe(fixtures@.take(i as int), u),
            forall|u: usize| #[trigger] frames@.contains_key(u) ==> frames@[u]@ == universe_frame(fixtures@.take(i as int), u),
        decreases fixtures@.len() - i,
    {
        let f = &fixtures[i];
        assert(fits_universe(fixtures@[i as int]));
        let ghost before = fixtures@.take(i as int);
        let ghost after = fixtures@.take(i + 1);
        assert(after.drop_last() =~= before);
        assert(after.last() == fixtures@[i as int]);
        let mut frame: [u8; 512] = match frames.remove(&f.universe) {
            Some(frame) => frame,
            None => {
                let blank = [0u8; 512];
                proof {
                    assert(!has_universe(before, f.universe));
                    assert(blank@ =~= blank_frame());
                    assert(universe_frame(before, f.universe) == blank_frame()) by {
                        lemma_universe_frame_absent(before, f.universe);
                    }
                }
                blank
            },
        };
        write_dmx(f.channels.as_slice(), f.start_channel, &mut frame);
        frames.insert(f.universe, frame);
        proof {
            assert forall|u: usize| #[trigger] frames@.contains_key(u) <==> has_universe(after, u) by {
                if has_universe(before, u) {
                    let k = choose|k: int| 0 <= k < before.len() && (#[trigger] before[k]).universe == u;
                    assert(after[k] == before[k]);
                }
                if has_universe(after, u) && u != f.universe {
                    let k = choose|k: int| 0 <= k < after.len() && (#[trigger] after[k]).universe == u;
                    assert(k < i);
                    assert(before[k] == after[k]);
                }
                assert(after[i as int].universe == f.universe);
            }
        }
        i += 1;
    }
    assert(fixtures@.take(i as int) =~= fixtures@);
    frames
}

/// A universe that no fixture is in stays blank.
proof fn lemma_universe_frame_absent(fixtures: Seq<FixtureDmx>, u: usize)
    requires
        !has_universe(fixtures, u),
    ensures
        universe_frame(fixtures, u) == blank_frame(),
    decreases fixtures.len(),
{
    if fixtures.len() > 0 {
        assert(fixtures.last().universe != u) by {
            assert(fixtures[fixtures.len() - 1].universe != u);
        }
        assert(!has_universe(fixtures.drop_last(), u)) by {
            if has_universe(fixtures.drop_last(), u) {
                let k = choose|k: int| 0 <= k < fixtures.drop_last().len() && (#[trigger] fixtures.drop_last()[k]).universe == u;
                assert(fixtures[k].universe == u);
            }
        }
        lemma_universe_frame_absent(fixtures.drop_last(), u);
    }
}

/// The last fixture written shows in its universe exactly as it sent: its
/// `k`-th value is on channel `start_channel + k`; and fixtures of other
/// universes do not touch that frame.
pub proof fn lemma_fixture_channels_in_frame(fixtures: Seq<FixtureDmx>, k: int, u: usize)
    requires
        fixtures.len() > 0,
        forall|i: int| 0 <= i < fixtures.len() ==> fits_universe(#[trigger] fixtures[i]),
        0 <= k < fixtures.last().channels@.len(),
    ensures
        universe_frame(fixtures, fixtures.last().universe)[fixtures.last().start_channel - 1 + k]
            == fixtures.last().channels@[k],
        u != fixtures.last().universe ==> universe_frame(fixtures, u) == universe_frame(fixtures.drop_last(), u),
{
    let before = fixtures.drop_last();
    assert forall|i: int| 0 <= i < before.len() implies fits_universe(#[trigger] before[i]) by {
        assert(before[i] == fixtures[i]);
    }
    lemma_universe_frame_len(before, fixtures.last().universe);
    assert(fits_universe(fixtures[fixtures.len() - 1]));
}

/// Every universe's frame has 512 channels.
proof fn lemma_universe_frame_len(fixtures: Seq<FixtureDmx>, u: usize)
    requires
        forall|i: int| 0 <= i < fixtures.len() ==> fits_universe(#[trigger] fixtures[i]),
    ensures
        universe_frame(fixtures, u).len() == UNIVERSE_SIZE,
    decreases fixtures.len(),
{
    if fixtures.len() > 0 {
        let before = fixtures.drop_last();
        assert forall|i: int| 0 <= i < before.len() implies fits_universe(#[trigger] before[i]) by {
            assert(before[i] == fixtures[i]);
        }
        lemma_universe_frame_len(before, u);
        assert(fits_universe(fixtures[fixtures.len() - 1]));
    }
}

} // verus!
