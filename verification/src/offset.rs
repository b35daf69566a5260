//! Clock offsets: an effect runs on every fixture, each one shifted in time by
//! a whole number of offsets, so that the effect travels across the rig. This
//! module decides, for each fixture, by how many offsets it is shifted.
use vstd::prelude::*;

use itertools::Itertools;
use rand::seq::SliceRandom;

use crate::effect::EffectDirection;
use crate::fixture::{same_fixture, FixtureLocation, FixtureParams};

verus! {

/// What decides how far a fixture is shifted.
#[derive(Debug, Clone, Copy, PartialEq, Eq, Hash, Structural)]
pub enum ClockOffsetMode {
    /// The fixture's group number, less one.
    GroupId,
    /// The fixture's place in the list of fixtures.
    FixtureIndex,
    /// A random but fixed number below 32 for each place in the list.
    Random,
    /// Where the fixture stands, in the given direction.
    Location(EffectDirection),
}

/// A clock offset: how far apart in time neighbouring fixtures run (`offset`,
/// which the library carries but never reads), how neighbours are ranked
/// (`mode`), and the shuffled numbers used by [`ClockOffsetMode::Random`].
#[derive(Debug, Clone, PartialEq, Eq, Hash)]
pub struct ClockOffset<B> {
    pub mode: ClockOffsetMode,
    pub offset: B,
    pub seed: [u8; 32],
}

/// The numbers 0 to 31, in order.
pub open spec fn ordered_seed() -> Seq<u8> {
    Seq::new(32, |i: int| i as u8)
}

/// `rand`'s `SliceRandom::shuffle`, driven by the thread's random generator:
/// puts the numbers in a random order, keeping each of them.
#[verifier::external_body]
fn shuffle_seed(seed: &mut [u8; 32])
    ensures
        final(seed)@.to_multiset() == old(seed)@.to_multiset(),
{
    seed.shuffle(&mut rand::thread_rng());
}

impl<B> ClockOffset<B> {
    /// A clock offset whose random ranks are the numbers 0 to 31 in a random
    /// order.
    pub fn new(mode: ClockOffsetMode, offset: B) -> (c: ClockOffset<B>)
        ensures
            c.mode == mode,
            c.offset == offset,
            c.seed@.to_multiset() == ordered_seed().to_multiset(),
    {
        let mut seed: [u8; 32] = [0u8; 32];
        let mut i: usize = 0;
        while i < 32
            invariant
                i <= 32,
                seed@.len() == 32,
                forall|j: int| 0 <= j < i ==> seed@[j] == j as u8,
            decreases 32 - i,
        {
            seed[i] = i as u8;
            i += 1;
        }
        assert(seed@ =~= ordered_seed());
        shuffle_seed(&mut seed);
        ClockOffset { mode, offset, seed }
    }
}

/// Some fixture of the list equals `fixture`.
pub open spec fn has_fixture(fixtures: Seq<FixtureParams>, fixture: FixtureParams) -> bool {
    exists|i: int| 0 <= i < fixtures.len() && same_fixture(#[trigger] fixtures[i], fixture)
}

/// `i` is the first place in the list that holds a fixture equal to `fixture`.
pub open spec fn is_first_place(fixtures: Seq<FixtureParams>, fixture: FixtureParams, i: int) -> bool {
    &&& 0 <= i < fixtures.len()
    &&& same_fixture(fixtures[i], fixture)
    &&& forall|j: int| 0 <= j < i ==> !same_fixture(#[trigger] fixtures[j], fixture)
}

/// The first place in the list of a fixture equal to `fixture`.
pub open spec fn fixture_place(fixtures: Seq<FixtureParams>, fixture: FixtureParams) -> int {
    choose|i: int| is_first_place(fixtures, fixture, i)
}

/// The first place is unique.
pub proof fn lemma_fixture_place(fixtures: Seq<FixtureParams>, fixture: FixtureParams, i: int)
    requires
        is_first_place(fixtures, fixture, i),
    ensures
        fixture_place(fixtures, fixture) == i,
{
    let k = fixture_place(fixtures, fixture);
    assert(is_first_place(fixtures, fixture, k));
    if k < i {
        assert(!same_fixture(fixtures[k], fixture));
    } else if i < k {
        assert(!same_fixture(fixtures[i], fixture));
    }
}

/// The place in `fixtures` of the first fixture equal to `fixture`.
fn find_fixture(fixture: &FixtureParams, fixtures: &[FixtureParams]) -> (i: usize)
    requires
        has_fixture(fixtures@, *fixture),
    ensures
        i == fixture_place(fixtures@, *fixture),
        is_first_place(fixtures@, *fixture, i as int),
{
    let mut i: usize = 0;
    while i < fixtures.len()
        invariant
            i <= fixtures@.len(),
            has_fixture(fixtures@, *fixture),
            forall|j: int| 0 <= j < i ==> !same_fixture(#[trigger] fixtures@[j], *fixture),
        decreases fixtures@.len() - i,
    {
        if fixtures[i].same_as(fixture) {
            proof { lemma_fixture_place(fixtures@, *fixture, i as int); }
            return i;
        }
        i += 1;
    }
    assert(false);
    0
}

/// The coordinate of a location across the rig (`x`) or up it (`y`).
pub open spec fn coordinate(l: FixtureLocation, across: bool) -> isize {
    if across {
        l.x
    } else {
        l.y
    }
}

/// The coordinates of the fixtures that have a location, in list order.
pub open spec fn location_coords(fixtures: Seq<FixtureParams>, across: bool) -> Seq<isize>
    decreases fixtures.len(),
{
    if fixtures.len() == 0 {
        Seq::empty()
    } else {
        let rest = location_coords(fixtures.drop_last(), across);
        match fixtures.last().location {
            Some(l) => rest.push(coordinate(l, across)),
            None => rest,
        }
    }
}

/// How many of the coordinates are below `c`.
pub open spec fn rank_below(coords: Set<isize>, c: isize) -> nat {
    coords.filter(|v: isize| v < c).len()
}

/// Each element is below the next.
pub open spec fn strictly_increasing(s: Seq<isize>) -> bool {
    forall|i: int, j: int| 0 <= i < j < s.len() ==> s[i] < s[j]
}

/// Coordinates are read across the rig, but for effects that go bottom to top.
pub open spec fn reads_across(direction: EffectDirection) -> bool {
    direction != EffectDirection::BottomToTop
}

pub open spec fn min_int(a: int, b: int) -> int {
    if a <= b {
        a
    } else {
        b
    }
}

/// The place of a fixture in a row, for an effect that runs in `direction`,
/// where the row holds `n` distinct coordinates and `q` of them are below the
/// fixture's. Left to right and bottom to top count from the far end; from
/// the centre counts from the nearer end; to the centre counts from the
/// middle, so that both ends come last.
pub open spec fn row_place(direction: EffectDirection, n: int, q: int) -> int {
    match direction {
        EffectDirection::LeftToRight => n - 1 - q,
        EffectDirection::BottomToTop => n - 1 - q,
        EffectDirection::FromCenter => min_int(q, n - 1 - q),
        EffectDirection::ToCenter => (n + 1) / 2 - 1 - min_int(q, n - 1 - q),
    }
}

/// Whether the number of offsets for `fixture` is defined: the fixture must be
/// in the list to be ranked by its place in it, and its coordinate must be
/// among those of the listed fixtures to be ranked by location.
pub open spec fn offset_defined(mode: ClockOffsetMode, fixture: FixtureParams, fixtures: Seq<FixtureParams>) -> bool {
    match mode {
        ClockOffsetMode::GroupId => true,
        ClockOffsetMode::FixtureIndex => has_fixture(fixtures, fixture),
        ClockOffsetMode::Random => has_fixture(fixtures, fixture),
        ClockOffsetMode::Location(direction) => match fixture.location {
            Some(l) => location_coords(fixtures, reads_across(direction)).contains(coordinate(l, reads_across(direction))),
            None => true,
        },
    }
}

/// By how many offsets `fixture` is shifted: its group number less one (none
/// for a fixture outside any group); its place in the list; the random rank
/// of that place; or its place in the row of distinct coordinates of the
/// listed fixtures (none for a fixture without a location).
pub open spec fn offset_multiple_spec(
    mode: ClockOffsetMode,
    seed: Seq<u8>,
    fixture: FixtureParams,
    fixtures: Seq<FixtureParams>,
) -> int {
    match mode {
        ClockOffsetMode::GroupId => match fixture.group_id {
            Some(g) => g.0 - 1,
            None => 0,
        },
        ClockOffsetMode::FixtureIndex => fixture_place(fixtures, fixture),
        ClockOffsetMode::Random => seed[fixture_place(fixtures, fixture) % 32] as int,
        ClockOffsetMode::Location(direction) => match fixture.location {
            Some(l) => {
                let coords = location_coords(fixtures, reads_across(direction)).to_set();
                row_place(direction, coords.len() as int, rank_below(coords, coordinate(l, reads_across(direction))) as int)
            },
            None => 0,
        },
    }
}

fn collect_coords(fixtures: &[FixtureParams], across: bool) -> (v: Vec<isize>)
    ensures
        v@ == location_coords(fixtures@, across),
{
    let mut v: Vec<isize> = Vec::new();
    let mut i: usize = 0;
    while i < fixtures.len()
        invariant
            i <= fixtures@.len(),
            v@ == location_coords(fixtures@.take(i as int), across),
        decreases fixtures@.len() - i,
    {
        assert(fixtures@.take(i + 1).drop_last() =~= fixtures@.take(i as int));
        match fixtures[i].location {
            Some(l) => {
                if across {
                    v.push(l.x);
                } else {
                    v.push(l.y);
                }
            },
            None => {},
        }
        i += 1;
    }
    assert(fixtures@.take(i as int) =~= fixtures@);
    v
}

/// `itertools`' `unique`: the values, each once, in the order they first come.
#[verifier::external_body]
fn unique_coords(v: Vec<isize>) -> (r: Vec<isize>)
    ensures
        r@.no_duplicates(),
        r@.to_set() == v@.to_set(),
{
    v.into_iter().unique().collect()
}

/// `itertools`' `sorted`: the values in ascending order.
#[verifier::external_body]
fn sorted_coords(v: Vec<isize>) -> (r: Vec<isize>)
    ensures
        forall|i: int, j: int| 0 <= i <= j < r@.len() ==> r@[i] <= r@[j],
        r@.to_multiset() == v@.to_multiset(),
{
    v.into_iter().sorted().collect()
}

/// The distinct values, in ascending order.
fn distinct_sorted(v: Vec<isize>) -> (s: Vec<isize>)
    ensures
        strictly_increasing(s@),
        s@.to_set() == v@.to_set(),
{
    let u = unique_coords(v);
    let s = sorted_coords(u);
    proof {
        broadcast use vstd::multiset::group_multiset_axioms;
        broadcast use vstd::seq_lib::group_to_multiset_ensures;
        u@.lemma_multiset_has_no_duplicates();
        assert forall|x: isize| s@.to_multiset().contains(x) implies s@.to_multiset().count(x) == 1 by {
            assert(u@.to_multiset().contains(x));
        }
        s@.lemma_multiset_has_no_duplicates_conv();
        assert forall|x: isize| s@.to_set().contains(x) <==> u@.to_set().contains(x) by {
            assert(s@.contains(x) <==> s@.to_multiset().count(x) > 0);
            assert(u@.contains(x) <==> u@.to_multiset().count(x) > 0);
        }
        assert(s@.to_set() =~= u@.to_set());
        assert forall|i: int, j: int| 0 <= i < j < s@.len() implies s@[i] < s@[j] by {
            assert(s@[i] <= s@[j]);
            assert(s@[i] != s@[j]);
        }
    }
    s
}

/// In a strictly increasing sequence, the values below the one at `q` are
/// those before it, so there are `q` of them; and the values are distinct.
proof fn lemma_rank(s: Seq<isize>, q: int)
    requires
        strictly_increasing(s),
        0 <= q < s.len(),
    ensures
        rank_below(s.to_set(), s[q]) == q,
        s.to_set().len() == s.len(),
{
    assert(s.no_duplicates()) by {
        assert forall|i: int, j: int| 0 <= i < s.len() && 0 <= j < s.len() && i != j implies s[i] != s[j] by {
            if i < j {
                assert(s[i] < s[j]);
            } else {
                assert(s[j] < s[i]);
            }
        }
    }
    s.unique_seq_to_set();
    let below = s.to_set().filter(|v: isize| v < s[q]);
    let before = s.take(q);
    assert(before.no_duplicates());
    before.unique_seq_to_set();
    assert forall|v: isize| below.contains(v) <==> before.to_set().contains(v) by {
        if below.contains(v) {
            assert(s.contains(v));
            let i = choose|i: int| 0 <= i < s.len() && s[i] == v;
            if i >= q {
                if i > q {
                    assert(s[q] < s[i]);
                }
            }
            assert(before[i] == v);
            assert(before.contains(v));
        }
        if before.to_set().contains(v) {
            assert(before.contains(v));
            let i = choose|i: int| 0 <= i < before.len() && before[i] == v;
            assert(s[i] == v);
            assert(s[i] < s[q]);
            assert(s.contains(v));
        }
    }
    assert(below =~= before.to_set());
}

/// The place of `c` in the strictly increasing `s`.
fn rank_of(s: &Vec<isize>, c: isize) -> (q: usize)
    requires
        strictly_increasing(s@),
        s@.contains(c),
    ensures
        q < s@.len(),
        s@[q as int] == c,
        q == rank_below(s@.to_set(), c),
        s@.to_set().len() == s@.len(),
{
    let mut q: usize = 0;
    while q < s.len()
        invariant
            q <= s@.len(),
            strictly_increasing(s@),
            s@.contains(c),
            forall|j: int| 0 <= j < q ==> s@[j] != c,
        decreases s@.len() - q,
    {
        if s[q] == c {
            proof { lemma_rank(s@, q as int); }
            return q;
        }
        q += 1;
    }
    assert(false);
    0
}

impl<B> ClockOffset<B> {
    /// By how many offsets `fixture`, one of `fixtures`, is shifted in time.
    pub fn offset_multiple(&self, fixture: &FixtureParams, fixtures: &[FixtureParams]) -> (m: i128)
        requires
            offset_defined(self.mode, *fixture, fixtures@),
        ensures
            m == offset_multiple_spec(self.mode, self.seed@, *fixture, fixtures@),
    {
        match self.mode {
            ClockOffsetMode::GroupId => match fixture.group_id {
                Some(g) => g.0 as i128 - 1,
                None => 0,
            },
            ClockOffsetMode::FixtureIndex => find_fixture(fixture, fixtures) as i128,
            ClockOffsetMode::Random => {
                let i = find_fixture(fixture, fixtures);
                self.seed[i % 32] as i128
            },
            ClockOffsetMode::Location(direction) => match fixture.location {
                Some(l) => {
                    let across = direction != EffectDirection::BottomToTop;
                    let c = if across { l.x } else { l.y };
                    let coords = collect_coords(fixtures, across);
                    let row = distinct_sorted(coords);
                    proof {
                        assert(location_coords(fixtures@, across).to_set().contains(c));
                        assert(row@.to_set().contains(c));
                    }
                    let q = rank_of(&row, c);
                    let n = row.len();
                    let nearest = if q <= n - 1 - q { q } else { n - 1 - q };
                    let place = match direction {
                        EffectDirection::LeftToRight => n - 1 - q,
                        EffectDirection::BottomToTop => n - 1 - q,
                        EffectDirection::FromCenter => nearest,
                        EffectDirection::ToCenter => n - n / 2 - 1 - nearest,
                    };
                    place as i128
                },
                None => 0,
            },
        }
    }
}

/// A fixture's place in a row is one of the row's places: from 0 to one less
/// than the number of distinct coordinates, and, for the effects that run to
/// or from the centre, below half of that number, rounded up.
pub proof fn lemma_row_place_bounds(direction: EffectDirection, n: int, q: int)
    requires
        0 <= q < n,
    ensures
        0 <= row_place(direction, n, q) < n,
        (direction == EffectDirection::ToCenter || direction == EffectDirection::FromCenter)
            ==> row_place(direction, n, q) < (n + 1) / 2,
{
}

/// For a clock offset made by `new`, the random rank of every place is one of
/// the numbers 0 to 31.
pub proof fn lemma_random_rank_below_32<B>(c: ClockOffset<B>, i: int)
    requires
        c.seed@.to_multiset() == ordered_seed().to_multiset(),
    ensures
        0 <= c.seed@[i % 32] < 32,
{
    broadcast use vstd::seq_lib::group_to_multiset_ensures;
    let k = i % 32;
    assert(c.seed@.contains(c.seed@[k]));
    assert(c.seed@.to_multiset().count(c.seed@[k]) > 0);
    assert(ordered_seed().to_multiset().count(c.seed@[k]) > 0);
    assert(ordered_seed().contains(c.seed@[k]));
    let j = choose|j: int| 0 <= j < ordered_seed().len() && ordered_seed()[j] == c.seed@[k];
    assert(ordered_seed()[j] == j as u8);
}

fn contains_fixture(fixture: &FixtureParams, fixtures: &[FixtureParams]) -> (r: bool)
    ensures
        r == has_fixture(fixtures@, *fixture),
{
    let mut i: usize = 0;
    while i < fixtures.len()
        invariant
            i <= fixtures@.len(),
            forall|j: int| 0 <= j < i ==> !same_fixture(#[trigger] fixtures@[j], *fixture),
        decreases fixtures@.len() - i,
    {
        if fixtures[i].same_as(fixture) {
            return true;
        }
        i += 1;
    }
    false
}

fn contains_coord(coords: &Vec<isize>, c: isize) -> (r: bool)
    ensures
        r == coords@.contains(c),
{
    let mut i: usize = 0;
    while i < coords.len()
        invariant
            i <= coords@.len(),
            forall|j: int| 0 <= j < i ==> coords@[j] != c,
        decreases coords@.len() - i,
    {
        if coords[i] == c {
            assert(coords@[i as int] == c);
            return true;
        }
        i += 1;
    }
    false
}

impl<B> ClockOffset<B> {
    /// Whether the number of offsets of `fixture` is defined (see
    /// `offset_defined`).
    pub fn offset_defined(&self, fixture: &FixtureParams, fixtures: &[FixtureParams]) -> (r: bool)
        ensures
            r == offset_defined(self.mode, *fixture, fixtures@),
    {
        match self.mode {
            ClockOffsetMode::GroupId => true,
            ClockOffsetMode::FixtureIndex => contains_fixture(fixture, fixtures),
            ClockOffsetMode::Random => contains_fixture(fixture, fixtures),
            ClockOffsetMode::Location(direction) => match fixture.location {
                Some(l) => {
                    let across = direction != EffectDirection::BottomToTop;
                    let coords = collect_coords(fixtures, across);
                    contains_coord(&coords, if across { l.x } else { l.y })
                },
                None => true,
            },
        }
    }

    /// By how many offsets `fixture` is shifted, when that is defined.
    pub fn try_offset_multiple(&self, fixture: &FixtureParams, fixtures: &[FixtureParams]) -> (m: Option<i128>)
        ensures
            offset_defined(self.mode, *fixture, fixtures@) ==> m == Some(offset_multiple_spec(self.mode, self.seed@, *fixture, fixtures@) as i128),
            !offset_defined(self.mode, *fixture, fixtures@) ==> m is None,
    {
        if self.offset_defined(fixture, fixtures) {
            Some(self.offset_multiple(fixture, fixtures))
        } else {
            None
        }
    }
}

} // verus!
