use crate::order::{stable_order, stable_order_of};
use crate::scalar::Scalar;
use crate::scout::{rank_scores, spec_images, spec_threshold};
use crate::search::{is_ranking, Match};
use vstd::prelude::*;

verus! {

/// Whether there are enough points to give each of them `k` neighbours.
pub fn enough_points(points: usize, k: usize) -> (r: bool)
    ensures
        r == (points >= k + 1),
{
    points > k
}

/// The keys of a list of distances.
pub open spec fn spec_distance_keys(distances: Seq<Scalar>) -> Seq<i64> {
    Seq::new(distances.len(), |i: int| distances[i]@ as i64)
}

/// The entries among the first `n` of `order` that are not `own`, in the
/// order in which they stand.
pub open spec fn spec_others(order: Seq<usize>, own: usize, n: int) -> Seq<usize>
    decreases n,
{
    if n <= 0 {
        Seq::empty()
    } else if order[n - 1] == own {
        spec_others(order, own, n - 1)
    } else {
        spec_others(order, own, n - 1).push(order[n - 1])
    }
}

/// The `k` nearest neighbours of point `own`: the other points by ascending
/// distance, points at one distance in the order in which they stand, cut
/// off after `k`.
pub open spec fn spec_nearest(distances: Seq<Scalar>, own: usize, k: int) -> Seq<usize> {
    let order = stable_order_of(spec_distance_keys(distances));
    let others = spec_others(order, own, order.len() as int);
    if others.len() <= k {
        others
    } else {
        others.take(k)
    }
}

/// Finds the `k` nearest neighbours of a point. `distances` holds the
/// distance of every point to that point; the point itself, at position
/// `own`, is no neighbour of its own.
pub fn nearest_neighbors(distances: &Vec<Scalar>, own: usize, k: usize) -> (neighbors: Vec<usize>)
    ensures
        neighbors@ == spec_nearest(distances@, own, k as int),
        forall|i: int| 0 <= i < neighbors.len() ==> (#[trigger] neighbors[i]) < distances.len(),
{
    let mut keys: Vec<i64> = Vec::new();
    let mut i: usize = 0;
    while i < distances.len()
        invariant
            i <= distances.len(),
            keys.len() == i,
            forall|j: int| 0 <= j < i ==> #[trigger] keys[j] == distances[j]@,
        decreases distances.len() - i,
    {
        keys.push(distances[i].key());
        i += 1;
    }
    assert(keys@ =~= spec_distance_keys(distances@));
    let order = stable_order(&keys);
    let mut neighbors: Vec<usize> = Vec::new();
    let mut t: usize = 0;
    while t < order.len()
        invariant
            t <= order.len(),
            order.len() == distances.len(),
            forall|j: int| 0 <= j < order.len() ==> (#[trigger] order[j]) < distances.len(),
            forall|j: int| 0 <= j < neighbors.len() ==> (#[trigger] neighbors[j]) < distances.len(),
            neighbors@ == if spec_others(order@, own, t as int).len() <= k {
                spec_others(order@, own, t as int)
            } else {
                spec_others(order@, own, t as int).take(k as int)
            },
        decreases order.len() - t,
    {
        let ghost before = spec_others(order@, own, t as int);
        if order[t] != own && neighbors.len() < k {
            neighbors.push(order[t]);
        }
        proof {
            let after = spec_others(order@, own, t + 1);
            if order[t as int] != own {
                if before.len() >= k {
                    assert(after.take(k as int) =~= before.take(k as int));
                } else if before.len() + 1 > k {
                    assert(after.take(k as int) =~= after);
                }
            }
        }
        t += 1;
    }
    neighbors
}

/// Picks the points that stand out most: by descending outlier factor, equal
/// factors in the order in which the points stand, at most `limit` of them.
/// A factor that is not a number is left out.
pub fn top_outliers(factors: &Vec<Scalar>, limit: usize) -> (outliers: Vec<Match>)
    ensures
        is_ranking(
            spec_images(factors@),
            spec_threshold(Scalar::spec_negative_infinity()),
            limit as int,
            outliers@,
        ),
{
    rank_scores(factors, limit, Scalar::negative_infinity())
}

} // verus!
