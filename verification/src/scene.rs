//! The scene: an ordered collection of spheres, and the search for the
//! nearest intersection among them.

use crate::hitrecord::Roots;
use crate::scalar::Scalar;
use crate::sphere::Sphere;
use vstd::prelude::*;

verus! {

/// The spheres of a scene, in the order in which they were added.
pub struct Scene {
    pub list: Vec<Sphere>,
}

/// The nearest intersection of a ray with a scene: which primitive, and at
/// which ray parameter.
#[derive(Clone, Copy, Debug)]
pub struct Nearest {
    pub index: usize,
    pub t: Scalar,
}

/// A result of the search as the specification speaks of it: the index as
/// a mathematical integer, beside the ray parameter.
pub open spec fn found(r: Option<Nearest>) -> Option<(int, Scalar)> {
    match r {
        Some(n) => Some((n.index as int, n.t)),
        None => None,
    }
}

/// The upper end of the interval once `best` has been found: the ray
/// parameter of that hit, or the caller's `t_max` while there is none.
pub open spec fn bound_after(best: Option<(int, Scalar)>, t_max: Scalar) -> Scalar {
    match best {
        Some((_, t)) => t,
        None => t_max,
    }
}

/// The linear scan over the primitives. Each one is tested in the interval
/// that ends at the nearest hit found before it, so a later primitive takes
/// over only with a strictly smaller ray parameter.
pub open spec fn scan(roots: Seq<Roots>, t_min: Scalar, t_max: Scalar) -> Option<(int, Scalar)>
    decreases roots.len(),
{
    if roots.len() == 0 {
        None
    } else {
        let before = scan(roots.drop_last(), t_min, t_max);
        match roots.last().chosen(t_min, bound_after(before, t_max)) {
            Some(t) => Some((roots.len() - 1, t)),
            None => before,
        }
    }
}

/// What it means for `found` to be the nearest hit in the open interval
/// from `t_min` to `t_max`, with ties going to the primitive added first:
/// no primitive hits at a smaller ray parameter, and every primitive before
/// the winner hits, if at all, at a strictly larger one.
pub open spec fn is_nearest(
    roots: Seq<Roots>,
    t_min: Scalar,
    t_max: Scalar,
    found: Option<(int, Scalar)>,
) -> bool {
    match found {
        None => forall|k: int|
            0 <= k < roots.len() ==> (#[trigger] roots[k]).chosen(t_min, t_max) is None,
        Some((i, t)) => {
            &&& 0 <= i < roots.len()
            &&& roots[i].chosen(t_min, t_max) == Some(t)
            &&& forall|k: int|
                0 <= k < roots.len() ==> ((#[trigger] roots[k]).chosen(t_min, t_max) matches Some(u)
                    ==> !u.lt(t) && (k < i ==> t.lt(u)))
        },
    }
}

impl Scene {
    /// Every sphere of the scene is valid.
    pub open spec fn valid(&self) -> bool {
        forall|k: int| 0 <= k < self.list@.len() ==> (#[trigger] self.list@[k]).valid()
    }

    /// A scene without primitives.
    pub fn new_empty() -> (scene: Scene)
        ensures
            scene.list@ == Seq::<Sphere>::empty(),
            scene.valid(),
    {
        Scene { list: Vec::new() }
    }

    /// Appends a primitive; those already present keep their places.
    pub fn add(&mut self, object: Sphere)
        ensures
            final(self).list@ == old(self).list@.push(object),
            old(self).valid() && object.valid() ==> final(self).valid(),
    {
        self.list.push(object);
    }

    /// Finds the nearest intersection in the open interval from `t_min` to
    /// `t_max`. `roots` holds, for each primitive in order, the solved
    /// quadratic of the ray against it.
    pub fn hit(&self, roots: &Vec<Roots>, t_min: Scalar, t_max: Scalar) -> (r: Option<Nearest>)
        requires
            roots@.len() == self.list@.len(),
        ensures
            found(r) == scan(roots@, t_min, t_max),
            r matches Some(n) ==> n.index < self.list@.len(),
            (forall|k: int| 0 <= k < roots@.len() ==> (#[trigger] roots@[k]).ordered())
                ==> is_nearest(roots@, t_min, t_max, found(r)),
    {
        proof {
            if forall|k: int| 0 <= k < roots@.len() ==> (#[trigger] roots@[k]).ordered() {
                lemma_scan_is_nearest(roots@, t_min, t_max);
            }
        }
        let mut rec: Option<Nearest> = None;
        let mut closest_so_far: Scalar = t_max;
        let mut k: usize = 0;
        while k < roots.len()
            invariant
                k <= roots@.len(),
                roots@.len() == self.list@.len(),
                closest_so_far == bound_after(found(rec), t_max),
                found(rec) == scan(roots@.take(k as int), t_min, t_max),
                rec matches Some(n) ==> n.index < k,
            decreases roots@.len() - k,
        {
            proof {
                assert(roots@.take(k + 1).drop_last() == roots@.take(k as int));
                assert(roots@.take(k + 1).last() == roots@[k as int]);
            }
            match roots[k].hit(t_min, closest_so_far) {
                Some(t) => {
                    closest_so_far = t;
                    rec = Some(Nearest { index: k, t });
                },
                None => {},
            }
            k += 1;
        }
        proof {
            assert(roots@.take(k as int) == roots@);
        }
        rec
    }
}

/// A scene without primitives is hit by no ray.
pub proof fn lemma_empty_scene_misses(t_min: Scalar, t_max: Scalar)
    ensures
        scan(Seq::<Roots>::empty(), t_min, t_max) is None,
{
}

/// The scan finds the globally nearest hit, the first-added primitive
/// winning ties, whenever no quadratic has its near root after its far one.
pub proof fn lemma_scan_is_nearest(roots: Seq<Roots>, t_min: Scalar, t_max: Scalar)
    requires
        forall|k: int| 0 <= k < roots.len() ==> (#[trigger] roots[k]).ordered(),
    ensures
        is_nearest(roots, t_min, t_max, scan(roots, t_min, t_max)),
    decreases roots.len(),
{
    if roots.len() > 0 {
        let front = roots.drop_last();
        assert forall|k: int| 0 <= k < front.len() implies (#[trigger] front[k]).ordered() by {
            assert(front[k] == roots[k]);
        }
        lemma_scan_is_nearest(front, t_min, t_max);
        assert(roots.last().ordered());
        assert forall|k: int| 0 <= k < front.len() implies front[k] == roots[k] by {}
    }
}

/// The order of the primitives decides ties and nothing else: two scenes
/// that hold the same quadratics, in whatever order, either both have no
/// hit or have their nearest hits at the same place on the number line.
pub proof fn lemma_order_only_breaks_ties(
    first: Seq<Roots>,
    second: Seq<Roots>,
    t_min: Scalar,
    t_max: Scalar,
)
    requires
        forall|k: int| 0 <= k < first.len() ==> (#[trigger] first[k]).ordered(),
        forall|k: int| 0 <= k < second.len() ==> (#[trigger] second[k]).ordered(),
        forall|k: int| 0 <= k < first.len() ==> second.contains(#[trigger] first[k]),
        forall|k: int| 0 <= k < second.len() ==> first.contains(#[trigger] second[k]),
    ensures
        scan(first, t_min, t_max) is None <==> scan(second, t_min, t_max) is None,
        scan(first, t_min, t_max) is Some ==> scan(first, t_min, t_max).unwrap().1.rank() == scan(
            second,
            t_min,
            t_max,
        ).unwrap().1.rank(),
{
    lemma_scan_is_nearest(first, t_min, t_max);
    lemma_scan_is_nearest(second, t_min, t_max);
    match scan(first, t_min, t_max) {
        Some((i, t)) => {
            assert(second.contains(first[i]));
            let m = choose|m: int| 0 <= m < second.len() && second[m] == first[i];
            assert(second[m].chosen(t_min, t_max) == Some(t));
        },
        None => {},
    }
    match scan(second, t_min, t_max) {
        Some((i, t)) => {
            assert(first.contains(second[i]));
            let m = choose|m: int| 0 <= m < first.len() && first[m] == second[i];
            assert(first[m].chosen(t_min, t_max) == Some(t));
        },
        None => {},
    }
}

} // verus!
