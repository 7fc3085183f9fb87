//! Scenes: many shapes, and the closest of their intersections with a ray.

use vstd::prelude::*;
use crate::hittable::sphere::lemma_hit_under_lowered_bound;
use crate::hittable::sphere::Roots;
use crate::hittable::Hittable;
use crate::utility::interval::Interval;
use crate::utility::scalar::Scalar;

verus! {

/// A scene: shapes in the order in which they were added.
#[derive(Debug)]
pub struct HittableList {
    pub objects: Vec<Hittable>,
}

/// The closest intersection of a ray with a scene: which shape, by its
/// place in the scene, and at which parameter of the ray.
#[derive(Clone, Copy, Debug, PartialEq, Eq, Structural)]
pub struct Hit {
    pub index: usize,
    pub t: Scalar,
}

/// Whether shape `j` is in the running: the ray meets it, at a parameter
/// strictly inside `ray_t`.
pub open spec fn in_range(distances: Seq<Option<Scalar>>, ray_t: Interval, j: int) -> bool {
    &&& 0 <= j < distances.len()
    &&& distances[j] matches Some(t)
    &&& ray_t.spec_surrounds(t)
}

/// Whether `hit` is what a ray sees of a scene, where `distances[j]` is the
/// parameter at which the ray meets shape `j`, if it meets it at all.
///
/// A ray sees nothing when no shape is in the running. Otherwise it sees the
/// shape that none in the running beats, and of several at the same distance
/// the one added to the scene first.
pub open spec fn closest(distances: Seq<Option<Scalar>>, ray_t: Interval, hit: Option<Hit>) -> bool {
    match hit {
        None => forall|j: int| !in_range(distances, ray_t, j),
        Some(h) => {
            &&& in_range(distances, ray_t, h.index as int)
            &&& distances[h.index as int] == Some(h.t)
            &&& forall|j: int| #[trigger]
                in_range(distances, ray_t, j) ==> !distances[j]->0.spec_lt(h.t)
            &&& forall|j: int|
                j < h.index && #[trigger] in_range(distances, ray_t, j) ==> h.t.spec_lt(
                    distances[j]->0,
                )
        },
    }
}

/// What a ray sees when each shape is asked in turn where the ray meets it,
/// and asked only about the part of the ray short of the closest hit so
/// far: the upper bound starts at that of `ray_t` and comes down with
/// every hit.
pub open spec fn scan(roots: Seq<Roots>, ray_t: Interval) -> Option<Hit>
    decreases roots.len(),
{
    if roots.len() == 0 {
        None
    } else {
        let before = scan(roots.drop_last(), ray_t);
        let closest_so_far = match before {
            Some(h) => h.t,
            None => ray_t.max,
        };
        match roots.last().spec_hit(Interval { min: ray_t.min, max: closest_so_far }) {
            Some(t) => Some(Hit { index: (roots.len() - 1) as usize, t }),
            None => before,
        }
    }
}

/// Where a ray bound to `ray_t` meets each of many shapes, one by one.
pub open spec fn distances_of(roots: Seq<Roots>, ray_t: Interval) -> Seq<Option<Scalar>> {
    Seq::new(roots.len(), |j: int| roots[j].spec_hit(ray_t))
}

impl HittableList {
    /// The empty scene.
    pub fn new() -> (list: HittableList)
        ensures
            list.objects@.len() == 0,
    {
        HittableList { objects: Vec::new() }
    }

    /// Empties the scene.
    pub fn clear(&mut self)
        ensures
            final(self).objects@.len() == 0,
    {
        self.objects.clear();
    }

    /// Adds a shape behind those already in the scene.
    pub fn add(&mut self, object: Hittable)
        ensures
            final(self).objects@ == old(self).objects@.push(object),
    {
        self.objects.push(object);
    }

    /// The number of shapes in the scene.
    pub fn len(&self) -> (n: usize)
        ensures
            n == self.objects@.len(),
    {
        self.objects.len()
    }

    /// The shape at place `index` of the scene.
    pub fn get(&self, index: usize) -> (object: &Hittable)
        requires
            index < self.objects@.len(),
        ensures
            *object == self.objects@[index as int],
    {
        &self.objects[index]
    }

    /// What a ray whose parameter is bound to `ray_t` sees of the scene,
    /// given for each shape, in scene order, where the ray meets it.
    ///
    /// The scan keeps the distance of the closest hit so far as its upper
    /// bound, so a later shape is taken only if it is strictly closer.
    pub fn hit(&self, distances: &Vec<Option<Scalar>>, ray_t: Interval) -> (hit: Option<Hit>)
        requires
            distances@.len() == self.objects@.len(),
        ensures
            closest(distances@, ray_t, hit),
            hit matches Some(h) ==> h.index < self.objects@.len(),
    {
        let mut ret: Option<Hit> = None;
        let mut closest_so_far = ray_t.max;
        let n = distances.len();
        let mut i: usize = 0;
        while i < n
            invariant
                i <= n,
                n == distances@.len(),
                closest(distances@.take(i as int), ray_t, ret),
                closest_so_far == match ret {
                    Some(h) => h.t,
                    None => ray_t.max,
                },
            decreases n - i,
        {
            let ghost before = distances@.take(i as int);
            let ghost after = distances@.take(i + 1);
            let ghost prev = ret;
            match distances[i] {
                Some(t) => {
                    if Interval::new(ray_t.min, closest_so_far).surrounds(t) {
                        closest_so_far = t;
                        ret = Some(Hit { index: i, t });
                    }
                },
                None => {},
            }
            proof {
                assert forall|j: int| 0 <= j < i implies in_range(after, ray_t, j) == in_range(
                    before,
                    ray_t,
                    j,
                ) by {
                    assert(after[j] == before[j]);
                }
                assert(after[i as int] == distances@[i as int]);
                match ret {
                    None => {
                        assert forall|j: int| !in_range(after, ray_t, j) by {
                            if 0 <= j < i {
                                assert(!in_range(before, ray_t, j));
                            }
                        }
                    },
                    Some(h) => {
                        assert forall|j: int| #[trigger]
                            in_range(after, ray_t, j) implies !after[j]->0.spec_lt(h.t) by {
                            if j < i {
                                assert(in_range(before, ray_t, j));
                            }
                        }
                        assert forall|j: int|
                            j < h.index && #[trigger] in_range(after, ray_t, j) implies h.t.spec_lt(
                            after[j]->0,
                        ) by {
                            if j < i {
                                assert(in_range(before, ray_t, j));
                            }
                        }
                    },
                }
            }
            i += 1;
        }
        proof {
            assert(distances@.take(n as int) == distances@);
        }
        ret
    }
}

impl Default for HittableList {
    /// The empty scene.
    fn default() -> (list: HittableList)
        ensures
            list.objects@.len() == 0,
    {
        HittableList::new()
    }
}

/// A ray sees nothing of a scene in which every shape misses.
pub proof fn lemma_sees_nothing_when_all_miss(
    distances: Seq<Option<Scalar>>,
    ray_t: Interval,
    hit: Option<Hit>,
)
    requires
        closest(distances, ray_t, hit),
        forall|j: int| !in_range(distances, ray_t, j),
    ensures
        hit is None,
{
}

/// When exactly one shape is in the running, the ray sees that shape, at
/// the distance at which it meets it.
pub proof fn lemma_sees_the_single_hit(
    distances: Seq<Option<Scalar>>,
    ray_t: Interval,
    hit: Option<Hit>,
    k: int,
)
    requires
        closest(distances, ray_t, hit),
        in_range(distances, ray_t, k),
        forall|j: int| j != k ==> !in_range(distances, ray_t, j),
    ensures
        hit == Some(Hit { index: k as usize, t: distances[k]->0 }),
{
    assert(!(hit is None));
    let h = hit->0;
    assert(in_range(distances, ray_t, h.index as int));
}

/// When two shapes are equally close and nothing else is in the running,
/// the ray sees one of the two, at their common distance: the one added to
/// the scene first.
pub proof fn lemma_tie_goes_to_the_first(
    distances: Seq<Option<Scalar>>,
    ray_t: Interval,
    hit: Option<Hit>,
    a: int,
    b: int,
)
    requires
        closest(distances, ray_t, hit),
        a < b,
        in_range(distances, ray_t, a),
        in_range(distances, ray_t, b),
        distances[a]->0.spec_same(distances[b]->0),
        forall|j: int| j != a && j != b ==> !in_range(distances, ray_t, j),
    ensures
        hit == Some(Hit { index: a as usize, t: distances[a]->0 }),
{
    assert(!(hit is None));
    let h = hit->0;
    assert(in_range(distances, ray_t, h.index as int));
    if h.index == b {
        assert(in_range(distances, ray_t, a));
        assert(h.t.spec_lt(distances[a]->0));
    }
}

/// Asking each shape in turn with a shrinking bound finds what a ray sees:
/// the closest of the hits that the shapes have within the full bounds.
pub proof fn lemma_scan_sees_the_closest(roots: Seq<Roots>, ray_t: Interval)
    requires
        roots.len() <= usize::MAX,
        forall|j: int| 0 <= j < roots.len() ==> (#[trigger] roots[j]).in_order(),
    ensures
        closest(distances_of(roots, ray_t), ray_t, scan(roots, ray_t)),
    decreases roots.len(),
{
    let all = distances_of(roots, ray_t);
    if roots.len() > 0 {
        let n = roots.len() - 1;
        let earlier = roots.drop_last();
        let before = scan(earlier, ray_t);
        let seen = scan(roots, ray_t);
        let part = distances_of(earlier, ray_t);
        assert forall|j: int| 0 <= j < earlier.len() implies (#[trigger] earlier[j]).in_order() by {
            assert(earlier[j] == roots[j]);
        }
        lemma_scan_sees_the_closest(earlier, ray_t);
        assert forall|j: int| j != n implies in_range(all, ray_t, j) == in_range(part, ray_t, j) by {
            if 0 <= j < n {
                assert(all[j] == part[j]);
            }
        }
        let closest_so_far = match before {
            Some(h) => h.t,
            None => ray_t.max,
        };
        let last = roots.last();
        assert(all[n] == last.spec_hit(ray_t));
        if closest_so_far.spec_le(ray_t.max) {
            lemma_hit_under_lowered_bound(last, ray_t, closest_so_far);
        } else {
            assert(before is None);
            assert(ray_t.max.nan());
        }
        match seen {
            None => {
                assert forall|j: int| !in_range(all, ray_t, j) by {
                    if j != n {
                        assert(!in_range(part, ray_t, j));
                    }
                }
            },
            Some(h) => {
                assert forall|j: int| #[trigger]
                    in_range(all, ray_t, j) implies !all[j]->0.spec_lt(h.t) by {
                    if j != n {
                        assert(in_range(part, ray_t, j));
                    }
                }
                assert forall|j: int|
                    j < h.index && #[trigger] in_range(all, ray_t, j) implies h.t.spec_lt(
                    all[j]->0,
                ) by {
                    if j != n {
                        assert(in_range(part, ray_t, j));
                    }
                }
            },
        }
    }
}

/// What a ray sees is settled by the distances alone: two answers that both
/// fit are the same answer.
pub proof fn lemma_closest_is_unique(
    distances: Seq<Option<Scalar>>,
    ray_t: Interval,
    first: Option<Hit>,
    second: Option<Hit>,
)
    requires
        closest(distances, ray_t, first),
        closest(distances, ray_t, second),
    ensures
        first == second,
{
    match (first, second) {
        (Some(f), Some(s)) => {
            assert(in_range(distances, ray_t, f.index as int));
            assert(in_range(distances, ray_t, s.index as int));
            if f.index < s.index {
                assert(s.t.spec_lt(f.t));
                assert(!distances[s.index as int]->0.spec_lt(f.t));
            } else if s.index < f.index {
                assert(f.t.spec_lt(s.t));
                assert(!distances[f.index as int]->0.spec_lt(s.t));
            }
        },
        (Some(f), None) => {
            assert(in_range(distances, ray_t, f.index as int));
        },
        (None, Some(s)) => {
            assert(in_range(distances, ray_t, s.index as int));
        },
        (None, None) => {},
    }
}

} // verus!
