//! How far a light path is followed, and how it ends.

use vstd::prelude::*;
use crate::utility::interval::Interval;
use crate::utility::scalar::Scalar;
use crate::utility::scalar::INFINITY_BITS;

verus! {

/// The pattern of `0.001`: how far along a ray a surface must lie to count.
pub const SHADOW_BIAS_BITS: u64 = 0x3F50_624D_D2F1_A9FC;

/// What a ray found in the scene.
#[derive(Clone, Copy, Debug, PartialEq, Eq, Structural)]
pub enum Encounter {
    /// The ray left the scene without meeting a surface.
    Missed,
    /// The ray met a surface that swallowed it.
    Absorbed,
    /// The ray met a surface that sent it on.
    Scattered,
}

/// How a path ends.
#[derive(Clone, Copy, Debug, PartialEq, Eq, Structural)]
pub enum Outcome {
    /// No light comes along the path.
    Black,
    /// The path leaves the scene and gathers the light of the sky, dimmed
    /// by every surface it met on the way.
    Sky,
}

/// The course of one light path: how many bounces it may still take, and
/// how it ended once it has.
///
/// The radiance along a ray is the light of its path's end, times the
/// attenuation of every bounce before it. The path says when to stop
/// following the ray and which end was reached; the light itself is for
/// whoever follows the ray to gather.
#[derive(Clone, Copy, Debug, PartialEq, Eq, Structural)]
pub struct Path {
    pub budget: u32,
    pub outcome: Option<Outcome>,
}

impl Path {
    /// A path that may take `max_depth` bounces. With none to take it has
    /// ended before it began, in black.
    pub open spec fn spec_new(max_depth: u32) -> Path {
        Path {
            budget: max_depth,
            outcome: if max_depth == 0 {
                Some(Outcome::Black)
            } else {
                None
            },
        }
    }

    /// The path after its ray found `encounter`. A miss ends it in the sky
    /// and a swallowed ray in black; a scattered ray costs one bounce, and
    /// the path ends in black when that was the last. A path that has ended
    /// stays as it is.
    pub open spec fn spec_advance(self, encounter: Encounter) -> Path {
        if self.outcome is Some {
            self
        } else {
            match encounter {
                Encounter::Missed => Path { budget: self.budget, outcome: Some(Outcome::Sky) },
                Encounter::Absorbed => Path { budget: self.budget, outcome: Some(Outcome::Black) },
                Encounter::Scattered => if self.budget <= 1 {
                    Path { budget: 0, outcome: Some(Outcome::Black) }
                } else {
                    Path { budget: (self.budget - 1) as u32, outcome: None }
                },
            }
        }
    }

    /// The path after its ray found each of `encounters` in turn.
    pub open spec fn spec_follow(self, encounters: Seq<Encounter>) -> Path
        decreases encounters.len(),
    {
        if encounters.len() == 0 {
            self
        } else {
            self.spec_follow(encounters.drop_last()).spec_advance(encounters.last())
        }
    }

    /// The part of a ray on which surfaces are looked for: everything
    /// beyond `0.001`. The gap keeps a ray that leaves a surface from
    /// meeting that surface again where rounding put its origin just
    /// underneath.
    pub open spec fn spec_range() -> Interval {
        Interval { min: Scalar { bits: SHADOW_BIAS_BITS }, max: Scalar { bits: INFINITY_BITS } }
    }

    /// The part of a ray on which surfaces are looked for.
    #[verifier::when_used_as_spec(spec_range)]
    pub fn range() -> (ray_t: Interval)
        ensures
            ray_t == Path::spec_range(),
    {
        Interval::new(Scalar::from_bits(SHADOW_BIAS_BITS), Scalar::infinity())
    }

    /// A fresh path that may take `max_depth` bounces.
    #[verifier::when_used_as_spec(spec_new)]
    pub fn new(max_depth: u32) -> (p: Path)
        ensures
            p == Path::spec_new(max_depth),
    {
        Path {
            budget: max_depth,
            outcome: if max_depth == 0 {
                Some(Outcome::Black)
            } else {
                None
            },
        }
    }

    /// How the path ended, or `None` while its ray is still to be followed.
    pub fn outcome(&self) -> (o: Option<Outcome>)
        ensures
            o == self.outcome,
    {
        self.outcome
    }

    /// Takes note of what the path's ray found.
    pub fn advance(&mut self, encounter: Encounter)
        ensures
            *final(self) == old(self).spec_advance(encounter),
    {
        if self.outcome.is_some() {
            return ;
        }
        match encounter {
            Encounter::Missed => {
                self.outcome = Some(Outcome::Sky);
            },
            Encounter::Absorbed => {
                self.outcome = Some(Outcome::Black);
            },
            Encounter::Scattered => {
                if self.budget <= 1 {
                    self.budget = 0;
                    self.outcome = Some(Outcome::Black);
                } else {
                    self.budget = self.budget - 1;
                }
            },
        }
    }
}

/// A path with no bounces to take is black, whatever its ray would find.
pub proof fn lemma_no_budget_is_black(encounters: Seq<Encounter>)
    ensures
        Path::spec_new(0).outcome == Some(Outcome::Black),
        Path::spec_new(0).spec_follow(encounters).outcome == Some(Outcome::Black),
    decreases encounters.len(),
{
    if encounters.len() > 0 {
        lemma_no_budget_is_black(encounters.drop_last());
    }
}

/// While a path runs, every encounter so far was a bounce and each cost one
/// of the bounces it had.
pub proof fn lemma_running_path_has_bounced(max_depth: u32, encounters: Seq<Encounter>)
    requires
        Path::spec_new(max_depth).spec_follow(encounters).outcome is None,
    ensures
        encounters.len() < max_depth,
        Path::spec_new(max_depth).spec_follow(encounters).budget == max_depth - encounters.len(),
        forall|k: int| 0 <= k < encounters.len() ==> encounters[k] == Encounter::Scattered,
    decreases encounters.len(),
{
    if encounters.len() > 0 {
        let before = encounters.drop_last();
        assert(Path::spec_new(max_depth).spec_follow(before).outcome is None);
        lemma_running_path_has_bounced(max_depth, before);
        assert forall|k: int| 0 <= k < encounters.len() implies encounters[k]
            == Encounter::Scattered by {
            if k < before.len() {
                assert(encounters[k] == before[k]);
            }
        }
    }
}

/// A path ends within as many encounters as it has bounces to take.
pub proof fn lemma_path_ends_within_budget(max_depth: u32, encounters: Seq<Encounter>)
    requires
        encounters.len() >= max_depth,
    ensures
        Path::spec_new(max_depth).spec_follow(encounters).outcome is Some,
{
    if Path::spec_new(max_depth).spec_follow(encounters).outcome is None {
        lemma_running_path_has_bounced(max_depth, encounters);
    }
}

/// A ray that meets nothing sees the sky: a path with a bounce to take that
/// misses at once ends in the sky, and nothing after that changes it.
pub proof fn lemma_first_miss_is_sky(max_depth: u32, encounters: Seq<Encounter>)
    requires
        max_depth > 0,
        encounters.len() > 0,
        encounters[0] == Encounter::Missed,
    ensures
        Path::spec_new(max_depth).spec_follow(encounters).outcome == Some(Outcome::Sky),
    decreases encounters.len(),
{
    let before = encounters.drop_last();
    if before.len() == 0 {
        assert(Path::spec_new(max_depth).spec_follow(before) == Path::spec_new(max_depth));
    } else {
        assert(before[0] == encounters[0]);
        lemma_first_miss_is_sky(max_depth, before);
    }
}

/// A path ends in the sky only by a miss: one that ended so has missed, and
/// one that ended in black has been swallowed or has run out of bounces.
pub proof fn lemma_sky_needs_a_miss(max_depth: u32, encounters: Seq<Encounter>)
    requires
        Path::spec_new(max_depth).spec_follow(encounters).outcome == Some(Outcome::Sky),
    ensures
        exists|k: int| 0 <= k < encounters.len() && encounters[k] == Encounter::Missed,
    decreases encounters.len(),
{
    if encounters.len() > 0 {
        let before = encounters.drop_last();
        let earlier = Path::spec_new(max_depth).spec_follow(before);
        if earlier.outcome is Some {
            lemma_sky_needs_a_miss(max_depth, before);
            let k = choose|k: int| 0 <= k < before.len() && before[k] == Encounter::Missed;
            assert(encounters[k] == Encounter::Missed);
        } else {
            assert(encounters[encounters.len() - 1] == Encounter::Missed);
        }
    }
}

} // verus!
