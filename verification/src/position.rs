//! How the base position of moving heads is applied across fixtures.
use vstd::prelude::*;

use crate::fixture::{same_fixture, FixtureParams};

verus! {

/// Whether every moving head takes the base position as it is, or every
/// other one mirrors its pan.
#[derive(Debug, Copy, Clone, PartialEq, Eq, Hash, PartialOrd, Ord, Structural)]
pub enum BasePositionMode {
    Default,
    MirrorPan,
}

impl Default for BasePositionMode {
    fn default() -> (m: BasePositionMode)
        ensures
            m == BasePositionMode::Default,
    {
        BasePositionMode::Default
    }
}

/// A fixture is a moving head when its profile has pan and tilt channels.
pub open spec fn is_moving(p: FixtureParams) -> bool {
    p.profile.pan_channel is Some && p.profile.tilt_channel is Some
}

/// The number of moving heads among the first `n` fixtures.
pub open spec fn moving_before(fixtures: Seq<FixtureParams>, n: nat) -> nat
    decreases n,
{
    if n == 0 {
        0
    } else if is_moving(fixtures[n - 1]) {
        moving_before(fixtures, (n - 1) as nat) + 1
    } else {
        moving_before(fixtures, (n - 1) as nat)
    }
}

/// `j` is the first place of a moving head equal to `fixture`.
pub open spec fn is_first_moving(fixtures: Seq<FixtureParams>, fixture: FixtureParams, j: int) -> bool {
    &&& 0 <= j < fixtures.len()
    &&& is_moving(fixtures[j]) && same_fixture(fixtures[j], fixture)
    &&& forall|k: int| 0 <= k < j ==> !(is_moving(#[trigger] fixtures[k]) && same_fixture(fixtures[k], fixture))
}

/// The place of `fixture` among the moving heads of the list; 0 when it is not
/// one of them.
pub open spec fn moving_index(fixtures: Seq<FixtureParams>, fixture: FixtureParams) -> nat {
    if exists|j: int| is_first_moving(fixtures, fixture, j) {
        moving_before(fixtures, (choose|j: int| is_first_moving(fixtures, fixture, j)) as nat)
    } else {
        0
    }
}

/// Whether `fixture` turns its pan the other way: in mirror mode, every other
/// moving head, counting from the first, does.
pub open spec fn pan_mirrored_spec(mode: BasePositionMode, fixture: FixtureParams, fixtures: Seq<FixtureParams>) -> bool {
    mode == BasePositionMode::MirrorPan && moving_index(fixtures, fixture) % 2 == 1
}

proof fn lemma_first_moving_unique(fixtures: Seq<FixtureParams>, fixture: FixtureParams, j: int)
    requires
        is_first_moving(fixtures, fixture, j),
    ensures
        (choose|i: int| is_first_moving(fixtures, fixture, i)) == j,
{
    let i = choose|i: int| is_first_moving(fixtures, fixture, i);
    assert(is_first_moving(fixtures, fixture, i));
    if i < j {
        assert(!(is_moving(fixtures[i]) && same_fixture(fixtures[i], fixture)));
    } else if j < i {
        assert(!(is_moving(fixtures[j]) && same_fixture(fixtures[j], fixture)));
    }
}

/// The place of `fixture` among the moving heads of `fixtures`, or 0.
pub fn moving_fixture_index(fixture: &FixtureParams, fixtures: &[FixtureParams]) -> (i: usize)
    ensures
        i == moving_index(fixtures@, *fixture),
{
    let mut count: usize = 0;
    let mut j: usize = 0;
    while j < fixtures.len()
        invariant
            j <= fixtures@.len(),
            count == moving_before(fixtures@, j as nat),
            count <= j,
            forall|k: int| 0 <= k < j ==> !(is_moving(#[trigger] fixtures@[k]) && same_fixture(fixtures@[k], *fixture)),
        decreases fixtures@.len() - j,
    {
        let moving = fixtures[j].profile.is_positionable();
        if moving && fixtures[j].same_as(fixture) {
            proof { lemma_first_moving_unique(fixtures@, *fixture, j as int); }
            return count;
        }
        if moving {
            count += 1;
        }
        j += 1;
    }
    assert(!exists|j: int| is_first_moving(fixtures@, *fixture, j));
    0
}

impl BasePositionMode {
    /// Whether `fixture` mirrors the base position's pan.
    pub fn pan_mirrored(&self, fixture: &FixtureParams, fixtures: &[FixtureParams]) -> (r: bool)
        ensures
            r == pan_mirrored_spec(*self, *fixture, fixtures@),
    {
        match self {
            BasePositionMode::Default => false,
            BasePositionMode::MirrorPan => moving_fixture_index(fixture, fixtures) % 2 == 1,
        }
    }
}

} // verus!
