use crate::cluster::{
    compute_content_hash, spec_content_hash, Cluster, ClusterDatabase, ClusterParams,
};
use crate::config::VERSION;
use crate::hash::FileHash;
use crate::order::{stable_order, stable_order_of};
use crate::scalar::Scalar;
use vstd::prelude::*;

verus! {

/// Label of a point that belongs to no cluster.
pub const NOISE: i32 = -1;

/// The points of one run, sorted by their labels.
pub struct Grouping {
    /// The labels of the clusters, in the order in which they first occur.
    pub labels: Vec<i32>,
    /// For each of those labels, the positions of the points that carry it,
    /// in ascending order.
    pub clusters: Vec<Vec<usize>>,
    /// The positions of the points that belong to no cluster, in ascending
    /// order.
    pub noise: Vec<usize>,
}

/// What is known of one cluster before the clusters are put in order.
pub struct ClusterSummary {
    /// Positions of the members in the list of points.
    pub members: Vec<usize>,
    /// Position of the representative in the list of points.
    pub representative: usize,
    /// Mean similarity of the members to each other.
    pub cohesion: Scalar,
}

/// Positions, among the first `n` points, of those that carry `label`, in
/// ascending order.
pub open spec fn spec_members(labels: Seq<i32>, label: i32, n: int) -> Seq<usize>
    decreases n,
{
    if n <= 0 {
        Seq::empty()
    } else if labels[n - 1] == label {
        spec_members(labels, label, n - 1).push((n - 1) as usize)
    } else {
        spec_members(labels, label, n - 1)
    }
}

/// The labels of the clusters among the first `n` points, each once, in the
/// order in which they first occur.
pub open spec fn spec_labels_seen(labels: Seq<i32>, n: int) -> Seq<i32>
    decreases n,
{
    if n <= 0 {
        Seq::empty()
    } else if labels[n - 1] == NOISE || spec_labels_seen(labels, n - 1).contains(labels[n - 1]) {
        spec_labels_seen(labels, n - 1)
    } else {
        spec_labels_seen(labels, n - 1).push(labels[n - 1])
    }
}

/// Whether `g` sorts the points with these labels.
pub open spec fn is_grouping(g: Grouping, labels: Seq<i32>) -> bool {
    &&& g.labels@ == spec_labels_seen(labels, labels.len() as int)
    &&& g.clusters.len() == g.labels.len()
    &&& forall|k: int|
        0 <= k < g.clusters.len() ==> (#[trigger] g.clusters[k])@ == spec_members(
            labels,
            g.labels[k],
            labels.len() as int,
        )
    &&& g.noise@ == spec_members(labels, NOISE, labels.len() as int)
}

/// Position of the representative among the first `n` similarities: the
/// highest wins, and of equals the last. A similarity that is not a number
/// neither wins against what follows it nor loses against what precedes it.
pub open spec fn spec_pick(similarities: Seq<Scalar>, n: int) -> int
    decreases n,
{
    if n <= 1 {
        0
    } else if similarities[spec_pick(similarities, n - 1)].spec_gt(similarities[n - 1]) {
        spec_pick(similarities, n - 1)
    } else {
        n - 1
    }
}

/// The key by which clusters are put in order: the larger the cluster, the
/// smaller the key.
pub open spec fn spec_size_key(size: nat) -> i64 {
    if size > i64::MAX {
        i64::MIN
    } else {
        (-size) as i64
    }
}

/// The size keys of a list of clusters.
pub open spec fn spec_size_keys(summaries: Seq<ClusterSummary>) -> Seq<i64> {
    Seq::new(summaries.len(), |i: int| spec_size_key(summaries[i].members.len() as nat))
}

/// Whether every position that the summaries and the noise name is a
/// position of a point, and the representative of every cluster is one of
/// its members.
pub open spec fn positions_fit(summaries: Seq<ClusterSummary>, noise: Seq<usize>, points: int) -> bool {
    &&& forall|k: int, m: int|
        0 <= k < summaries.len() && 0 <= m < summaries[k].members.len() ==> (
        #[trigger] summaries[k].members[m]) < points
    &&& forall|k: int|
        0 <= k < summaries.len() ==> (#[trigger] summaries[k]).members@.contains(
            summaries[k].representative,
        )
    &&& forall|k: int| 0 <= k < noise.len() ==> (#[trigger] noise[k]) < points
}

/// Whether one of `members` is the hash `wanted`.
pub open spec fn holds_hash(members: Seq<FileHash>, wanted: Seq<char>) -> bool {
    exists|m: int| 0 <= m < members.len() && (#[trigger] members[m])@ == wanted
}

/// Whether `hashes` are the hashes of the points at `positions`, in that
/// order.
pub open spec fn hashes_at(hashes: Seq<FileHash>, positions: Seq<usize>, points: Seq<FileHash>) -> bool {
    &&& hashes.len() == positions.len()
    &&& forall|m: int|
        0 <= m < positions.len() ==> (#[trigger] hashes[m])@ == points[positions[m] as int]@
}

/// Whether `database` is the clustering that the summaries describe.
pub open spec fn is_assembly(
    database: ClusterDatabase,
    points: Seq<FileHash>,
    summaries: Seq<ClusterSummary>,
    noise: Seq<usize>,
) -> bool {
    let order = stable_order_of(spec_size_keys(summaries));
    &&& database.clusters.len() == summaries.len()
    &&& forall|k: int|
        0 <= k < summaries.len() ==> {
            let cluster = #[trigger] database.clusters[k];
            let summary = summaries[order[k] as int];
            &&& cluster.id == k
            &&& hashes_at(cluster.members@, summary.members@, points)
            &&& cluster.representative@ == points[summary.representative as int]@
            &&& holds_hash(cluster.members@, cluster.representative@)
            &&& cluster.cohesion == summary.cohesion
        }
    &&& hashes_at(database.noise@, noise, points)
    &&& database.total == points.len()
    &&& database.content_hash@ == spec_content_hash(points)
    &&& database.version@ == VERSION@
}

/// A position is listed under a label just where the point there carries
/// the label.
pub proof fn lemma_members(labels: Seq<i32>, label: i32, n: int)
    requires
        0 <= n <= labels.len() <= usize::MAX,
    ensures
        forall|p: usize|
            #[trigger] spec_members(labels, label, n).contains(p) <==> p < n && labels[p as int]
                == label,
    decreases n,
{
    if n > 0 {
        lemma_members(labels, label, n - 1);
        let before = spec_members(labels, label, n - 1);
        let after = spec_members(labels, label, n);
        assert forall|p: usize| #[trigger] after.contains(p) <==> p < n && labels[p as int]
            == label by {
            assert(before.contains(p) <==> p < n - 1 && labels[p as int] == label);
            if labels[n - 1] == label {
                assert(after == before.push((n - 1) as usize));
                if after.contains(p) {
                    let k = choose|k: int| 0 <= k < after.len() && after[k] == p;
                    if k < before.len() {
                        assert(before[k] == p);
                        assert(before.contains(p));
                    } else {
                        assert(p == n - 1);
                    }
                }
                if p < n && labels[p as int] == label {
                    if p == n - 1 {
                        assert(after[before.len() as int] == p);
                    } else {
                        assert(before.contains(p));
                        let k = choose|k: int| 0 <= k < before.len() && before[k] == p;
                        assert(after[k] == p);
                    }
                }
            } else {
                assert(after == before);
            }
        }
    } else {
        assert forall|p: usize| #[trigger]
            spec_members(labels, label, n).contains(p) <==> p < n && labels[p as int] == label by {
            assert(spec_members(labels, label, n).len() == 0);
        }
    }
}

/// The labels of the clusters are the labels, other than that of noise,
/// that some point carries, each of them once.
pub proof fn lemma_labels_seen(labels: Seq<i32>, n: int)
    requires
        0 <= n <= labels.len(),
    ensures
        spec_labels_seen(labels, n).no_duplicates(),
        forall|l: i32|
            #[trigger] spec_labels_seen(labels, n).contains(l) ==> l != NOISE && exists|j: int|
                0 <= j < n && labels[j] == l,
        forall|j: int|
            0 <= j < n && labels[j] != NOISE ==> spec_labels_seen(labels, n).contains(
                #[trigger] labels[j],
            ),
    decreases n,
{
    if n > 0 {
        lemma_labels_seen(labels, n - 1);
        let before = spec_labels_seen(labels, n - 1);
        let after = spec_labels_seen(labels, n);
        let last = labels[n - 1];
        if last == NOISE || before.contains(last) {
            assert(after == before);
        } else {
            assert(after == before.push(last));
            assert forall|l: i32| #[trigger] after.contains(l) implies l != NOISE && exists|j: int|
                0 <= j < n && labels[j] == l by {
                let k = choose|k: int| 0 <= k < after.len() && after[k] == l;
                if k < before.len() {
                    assert(before[k] == l);
                    assert(before.contains(l));
                } else {
                    assert(labels[n - 1] == l);
                }
            }
            assert forall|j: int| 0 <= j < n && labels[j] != NOISE implies after.contains(
                #[trigger] labels[j],
            ) by {
                if j < n - 1 {
                    assert(before.contains(labels[j]));
                    let k = choose|k: int| 0 <= k < before.len() && before[k] == labels[j];
                    assert(after[k] == labels[j]);
                } else {
                    assert(after[before.len() as int] == last);
                }
            }
            assert forall|x: int, y: int|
                0 <= x < after.len() && 0 <= y < after.len() && x != y implies after[x]
                != after[y] by {
                if x < before.len() && y < before.len() {
                    assert(before[x] != before[y]);
                } else if x < before.len() {
                    assert(before.contains(before[x]));
                } else {
                    assert(before.contains(before[y]));
                }
            }
        }
    }
}

/// Every point is placed once: a point with the label of noise is listed
/// as noise, and any other point is listed under its label, which is the
/// label of one cluster.
pub proof fn lemma_every_point_is_placed(g: Grouping, labels: Seq<i32>, p: usize)
    requires
        is_grouping(g, labels),
        p < labels.len() <= usize::MAX,
    ensures
        labels[p as int] == NOISE ==> g.noise@.contains(p),
        labels[p as int] != NOISE ==> !g.noise@.contains(p),
        labels[p as int] != NOISE ==> exists|k: int|
            0 <= k < g.clusters.len() && g.labels[k] == labels[p as int] && (
            #[trigger] g.clusters[k])@.contains(p),
        forall|k: int|
            0 <= k < g.clusters.len() && (#[trigger] g.clusters[k])@.contains(p) ==> g.labels[k]
                == labels[p as int],
{
    let n = labels.len() as int;
    lemma_members(labels, NOISE, n);
    lemma_labels_seen(labels, n);
    assert forall|k: int|
        0 <= k < g.clusters.len() && (#[trigger] g.clusters[k])@.contains(p) implies g.labels[k]
        == labels[p as int] by {
        lemma_members(labels, g.labels[k], n);
    }
    if labels[p as int] != NOISE {
        let l = labels[p as int];
        assert(g.labels@.contains(l));
        let k = choose|k: int| 0 <= k < g.labels.len() && g.labels[k] == l;
        lemma_members(labels, l, n);
        let c = g.clusters[k];
        assert(c@.contains(p));
    }
}

impl ClusterSummary {
    /// Sums up a cluster from the positions of its members, the similarity
    /// of each member to the middle of the cluster, and the cohesion: the
    /// representative is the member with the highest similarity, of equals
    /// the last. `None` for a cluster without members, and where the
    /// similarities are not one for each member.
    pub fn new(members: Vec<usize>, similarities: &Vec<Scalar>, cohesion: Scalar) -> (summary: Option<
        ClusterSummary,
    >)
        ensures
            match summary {
                Some(s) => {
                    &&& members.len() > 0
                    &&& similarities.len() == members.len()
                    &&& s.members == members
                    &&& s.representative == members[spec_pick(
                        similarities@,
                        similarities.len() as int,
                    )]
                    &&& s.members@.contains(s.representative)
                    &&& s.cohesion == cohesion
                },
                None => members.len() == 0 || similarities.len() != members.len(),
            },
    {
        if members.len() == 0 || similarities.len() != members.len() {
            return None;
        }
        match pick_representative(similarities) {
            Some(pick) => {
                let representative = members[pick];
                assert(members@[pick as int] == representative);
                Some(ClusterSummary { members, representative, cohesion })
            },
            None => None,
        }
    }
}

/// The positions of the points that carry `label`, in ascending order.
pub fn members_with(labels: &Vec<i32>, label: i32) -> (members: Vec<usize>)
    ensures
        members@ == spec_members(labels@, label, labels.len() as int),
{
    let mut members: Vec<usize> = Vec::new();
    let mut i: usize = 0;
    while i < labels.len()
        invariant
            i <= labels.len(),
            members@ == spec_members(labels@, label, i as int),
        decreases labels.len() - i,
    {
        if labels[i] == label {
            members.push(i);
        }
        i += 1;
    }
    members
}

fn holds(seen: &Vec<i32>, label: i32) -> (r: bool)
    ensures
        r == seen@.contains(label),
{
    let mut k: usize = 0;
    while k < seen.len()
        invariant
            k <= seen.len(),
            forall|j: int| 0 <= j < k ==> seen[j] != label,
        decreases seen.len() - k,
    {
        if seen[k] == label {
            return true;
        }
        k += 1;
    }
    false
}

/// Sorts the points of a run by the labels that the clustering gave them.
/// Points with the label -1 are noise; every other label names a cluster.
pub fn group_by_label(labels: &Vec<i32>) -> (g: Grouping)
    ensures
        is_grouping(g, labels@),
{
    let mut seen: Vec<i32> = Vec::new();
    let mut i: usize = 0;
    while i < labels.len()
        invariant
            i <= labels.len(),
            seen@ == spec_labels_seen(labels@, i as int),
        decreases labels.len() - i,
    {
        let label = labels[i];
        if label != NOISE && !holds(&seen, label) {
            seen.push(label);
        }
        i += 1;
    }
    let mut clusters: Vec<Vec<usize>> = Vec::new();
    let mut k: usize = 0;
    while k < seen.len()
        invariant
            k <= seen.len(),
            clusters.len() == k,
            forall|j: int|
                0 <= j < k ==> (#[trigger] clusters[j])@ == spec_members(
                    labels@,
                    seen[j],
                    labels.len() as int,
                ),
        decreases seen.len() - k,
    {
        clusters.push(members_with(labels, seen[k]));
        k += 1;
    }
    let noise = members_with(labels, NOISE);
    Grouping { labels: seen, clusters, noise }
}

/// Picks the representative of a cluster from the similarities of its
/// members to the middle of the cluster: the position of the highest, and of
/// equals the last; `None` for a cluster without members.
pub fn pick_representative(similarities: &Vec<Scalar>) -> (pick: Option<usize>)
    ensures
        similarities.len() == 0 ==> pick is None,
        similarities.len() > 0 ==> pick is Some,
        pick matches Some(p) ==> p < similarities.len() && p == spec_pick(
            similarities@,
            similarities.len() as int,
        ),
{
    if similarities.len() == 0 {
        return None;
    }
    let mut best: usize = 0;
    let mut i: usize = 1;
    while i < similarities.len()
        invariant
            1 <= i <= similarities.len(),
            best < i,
            best == spec_pick(similarities@, i as int),
        decreases similarities.len() - i,
    {
        if !similarities[best].gt(similarities[i]) {
            best = i;
        }
        i += 1;
    }
    Some(best)
}

/// Where every similarity is a number, the pick holds the highest of them
/// and nothing behind it holds as much.
pub proof fn lemma_pick_is_last_maximum(similarities: Seq<Scalar>, n: int)
    requires
        1 <= n <= similarities.len(),
        forall|i: int| 0 <= i < n ==> !(#[trigger] similarities[i]).spec_is_nan(),
    ensures
        0 <= spec_pick(similarities, n) < n,
        forall|i: int|
            0 <= i < n ==> (#[trigger] similarities[i])@ <= similarities[spec_pick(
                similarities,
                n,
            )]@,
        forall|i: int|
            spec_pick(similarities, n) < i < n ==> (#[trigger] similarities[i])@
                < similarities[spec_pick(similarities, n)]@,
    decreases n,
{
    if n > 1 {
        lemma_pick_is_last_maximum(similarities, n - 1);
        let b = spec_pick(similarities, n - 1);
        assert(!similarities[b].spec_is_nan());
        assert(!similarities[n - 1].spec_is_nan());
    }
}

fn size_key(size: usize) -> (key: i64)
    ensures
        key == spec_size_key(size as nat),
{
    let wide: u64 = size as u64;
    if wide > 0x7fff_ffff_ffff_ffff {
        i64::MIN
    } else {
        -(wide as i64)
    }
}

fn hashes_of(points: &Vec<FileHash>, positions: &Vec<usize>) -> (hashes: Vec<FileHash>)
    requires
        forall|m: int| 0 <= m < positions.len() ==> (#[trigger] positions[m]) < points.len(),
    ensures
        hashes_at(hashes@, positions@, points@),
{
    let mut hashes: Vec<FileHash> = Vec::new();
    let mut m: usize = 0;
    while m < positions.len()
        invariant
            m <= positions.len(),
            hashes.len() == m,
            forall|j: int| 0 <= j < positions.len() ==> (#[trigger] positions[j]) < points.len(),
            forall|j: int| 0 <= j < m ==> (#[trigger] hashes[j])@ == points[positions[j] as int]@,
        decreases positions.len() - m,
    {
        hashes.push(points[positions[m]].clone());
        m += 1;
    }
    hashes
}

/// Puts the clusters of a run in order and makes the clustering that is
/// kept: the largest cluster first, clusters of one size in the order in
/// which they are handed in, numbered from 0, members and noise named by
/// their hashes.
pub fn assemble(
    points: &Vec<FileHash>,
    summaries: &Vec<ClusterSummary>,
    noise: &Vec<usize>,
    params: ClusterParams,
    timestamp: String,
) -> (database: ClusterDatabase)
    requires
        positions_fit(summaries@, noise@, points.len() as int),
    ensures
        is_assembly(database, points@, summaries@, noise@),
        database.params == params,
        database.timestamp == timestamp,
{
    let mut keys: Vec<i64> = Vec::new();
    let mut i: usize = 0;
    while i < summaries.len()
        invariant
            i <= summaries.len(),
            keys.len() == i,
            forall|j: int|
                0 <= j < i ==> #[trigger] keys[j] == spec_size_key(summaries[j].members.len() as nat),
        decreases summaries.len() - i,
    {
        keys.push(size_key(summaries[i].members.len()));
        i += 1;
    }
    assert(keys@ =~= spec_size_keys(summaries@));
    let order = stable_order(&keys);
    let mut clusters: Vec<Cluster> = Vec::new();
    let mut k: usize = 0;
    while k < order.len()
        invariant
            k <= order.len(),
            order.len() == summaries.len(),
            clusters.len() == k,
            positions_fit(summaries@, noise@, points.len() as int),
            forall|j: int| 0 <= j < order.len() ==> (#[trigger] order[j]) < summaries.len(),
            forall|j: int|
                0 <= j < k ==> {
                    let cluster = #[trigger] clusters[j];
                    let summary = summaries[order[j] as int];
                    &&& cluster.id == j
                    &&& hashes_at(cluster.members@, summary.members@, points@)
                    &&& cluster.representative@ == points[summary.representative as int]@
                    &&& holds_hash(cluster.members@, cluster.representative@)
                    &&& cluster.cohesion == summary.cohesion
                },
        decreases order.len() - k,
    {
        let summary = &summaries[order[k]];
        assert forall|m: int| 0 <= m < summary.members.len() implies (
        #[trigger] summary.members[m]) < points.len() by {
            assert(summaries[order[k as int] as int].members[m] < points.len());
        }
        let members = hashes_of(points, &summary.members);
        assert(summary.members@.contains(summary.representative));
        let ghost at = choose|m: int|
            0 <= m < summary.members.len() && summary.members[m] == summary.representative;
        assert(summary.members[at] < points.len());
        let representative = points[summary.representative].clone();
        assert(members[at]@ == representative@);
        let ghost before = clusters@;
        clusters.push(Cluster { id: k, members, representative, cohesion: summary.cohesion });
        assert forall|j: int| 0 <= j < k + 1 implies {
            let cluster = #[trigger] clusters[j];
            let summary = summaries[order[j] as int];
            &&& cluster.id == j
            &&& hashes_at(cluster.members@, summary.members@, points@)
            &&& cluster.representative@ == points[summary.representative as int]@
            &&& holds_hash(cluster.members@, cluster.representative@)
            &&& cluster.cohesion == summary.cohesion
        } by {
            if j < k {
                assert(clusters[j] == before[j]);
            }
        }
        k += 1;
    }
    ClusterDatabase {
        version: String::from_str(VERSION),
        timestamp,
        params,
        clusters,
        noise: hashes_of(points, noise),
        total: points.len(),
        content_hash: compute_content_hash(points),
    }
}

} // verus!
