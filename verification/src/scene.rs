//! Nearest-hit selection over the primitives of a scene.
//!
//! A scene is queried by intersecting one ray with every primitive and
//! keeping the hit that lies nearest to the ray's origin.  The caller hands
//! over, in scene order, what each primitive reported: nothing, or the
//! squared distance from the ray's origin to the hit.  Squared distances
//! order hits exactly as distances do and save a square root.

use crate::scalar::{Number, Scalar};
use vstd::prelude::*;

verus! {

/// Whether a hit at distance `a` lies strictly nearer than one at `b`.
///
/// A distance that is not a number is farther than every number, so such a
/// hit is kept only where nothing better exists.
pub open spec fn nearer(a: Number, b: Number) -> bool {
    !(a is Nan) && (b is Nan || a.lt(b))
}

/// Whether `pick` is the answer of a nearest-hit query over `distances`.
///
/// With no hit at all there is no answer.  Otherwise the answer is the
/// index of a hit that no other hit beats, and that beats every hit listed
/// before it: of several hits at the same distance the first one wins.
pub open spec fn is_nearest(distances: Seq<Option<Scalar>>, pick: Option<usize>) -> bool {
    match pick {
        None => forall|i: int| 0 <= i < distances.len() ==> distances[i] is None,
        Some(k) => {
            &&& k < distances.len()
            &&& distances[k as int] is Some
            &&& forall|i: int|
                0 <= i < distances.len() && distances[i] is Some ==> !nearer(
                    distances[i]->0@,
                    distances[k as int]->0@,
                )
            &&& forall|i: int|
                0 <= i < k && distances[i] is Some ==> nearer(
                    distances[k as int]->0@,
                    distances[i]->0@,
                )
        },
    }
}

/// Whether two lists report the same hits, in any order and any number of
/// times.
pub open spec fn same_hits(a: Seq<Option<Scalar>>, b: Seq<Option<Scalar>>) -> bool {
    &&& forall|i: int|
        0 <= i < a.len() && a[i] is Some ==> exists|j: int| 0 <= j < b.len() && b[j] == a[i]
    &&& forall|j: int|
        0 <= j < b.len() && b[j] is Some ==> exists|i: int| 0 <= i < a.len() && a[i] == b[j]
}

/// Whether a hit at distance `a` lies strictly nearer than one at `b`.
pub fn is_nearer(a: Scalar, b: Scalar) -> (r: bool)
    ensures
        r == nearer(a@, b@),
{
    if a.is_nan() {
        false
    } else if b.is_nan() {
        true
    } else {
        a.lt(b)
    }
}

/// The index of the nearest hit among `distances`, if there is any hit.
pub fn nearest(distances: &Vec<Option<Scalar>>) -> (pick: Option<usize>)
    ensures
        is_nearest(distances@, pick),
{
    let mut best: Option<(usize, Scalar)> = None;
    let mut i: usize = 0;
    while i < distances.len()
        invariant
            i <= distances.len(),
            match best {
                None => is_nearest(distances@.take(i as int), None),
                Some((k, d)) => {
                    &&& is_nearest(distances@.take(i as int), Some(k))
                    &&& distances@[k as int] == Some(d)
                },
            },
        decreases distances.len() - i,
    {
        let ghost before = distances@.take(i as int);
        let ghost after = distances@.take(i + 1);
        assert(forall|j: int| 0 <= j < i ==> after[j] == before[j]);
        assert(after[i as int] == distances@[i as int]);
        match distances[i] {
            None => {},
            Some(d) => {
                match best {
                    None => {
                        best = Some((i, d));
                    },
                    Some((_, current)) => {
                        if is_nearer(d, current) {
                            best = Some((i, d));
                        }
                    },
                }
            },
        }
        i = i + 1;
    }
    assert(distances@.take(i as int) == distances@);
    match best {
        None => None,
        Some((k, _)) => Some(k),
    }
}

/// A nearest-hit query has one answer only.
pub proof fn lemma_nearest_is_unique(
    distances: Seq<Option<Scalar>>,
    first: Option<usize>,
    second: Option<usize>,
)
    requires
        is_nearest(distances, first),
        is_nearest(distances, second),
    ensures
        first == second,
{
    match (first, second) {
        (Some(j), Some(k)) => {
            if j < k {
                assert(nearer(distances[k as int]->0@, distances[j as int]->0@));
            } else if k < j {
                assert(nearer(distances[j as int]->0@, distances[k as int]->0@));
            }
        },
        (Some(j), None) => {
            assert(distances[j as int] is None);
        },
        (None, Some(k)) => {
            assert(distances[k as int] is None);
        },
        (None, None) => {},
    }
}

/// Of two primitives hit by one ray the nearer is reported, whichever of
/// them comes first in the scene.
pub proof fn lemma_nearer_of_two_wins(near: Scalar, far: Scalar)
    requires
        nearer(near@, far@),
    ensures
        is_nearest(seq![Some(near), Some(far)], Some(0usize)),
        is_nearest(seq![Some(far), Some(near)], Some(1usize)),
{
}

/// The nearest hit does not depend on the order of the primitives: two
/// lists that report the same hits have their nearest hit at the same
/// distance, and one has an answer exactly when the other has.
pub proof fn lemma_nearest_ignores_order(
    a: Seq<Option<Scalar>>,
    b: Seq<Option<Scalar>>,
    pick_a: Option<usize>,
    pick_b: Option<usize>,
)
    requires
        same_hits(a, b),
        is_nearest(a, pick_a),
        is_nearest(b, pick_b),
    ensures
        pick_a is None <==> pick_b is None,
        pick_a is Some ==> {
            let da = a[pick_a->0 as int]->0@;
            let db = b[pick_b->0 as int]->0@;
            !nearer(da, db) && !nearer(db, da)
        },
{
    match pick_a {
        None => {
            if pick_b is Some {
                let j = pick_b->0 as int;
                let i = choose|i: int| 0 <= i < a.len() && a[i] == b[j];
                assert(a[i] is None);
            }
        },
        Some(ka) => {
            let i = ka as int;
            let j = choose|j: int| 0 <= j < b.len() && b[j] == a[i];
            assert(b[j] is Some);
            let kb = pick_b->0 as int;
            let i2 = choose|i2: int| 0 <= i2 < a.len() && a[i2] == b[kb];
            assert(a[i2] is Some);
            assert(!nearer(b[j]->0@, b[kb]->0@));
            assert(!nearer(a[i2]->0@, a[i]->0@));
        },
    }
}

/// Squared distances order hits as distances do: of two lengths that are
/// not negative, the smaller has the smaller square.
pub proof fn lemma_squares_keep_order(a: int, b: int)
    by (nonlinear_arith)
    requires
        0 <= a,
        0 <= b,
    ensures
        a < b <==> a * a < b * b,
{
}

} // verus!
