use crate::hash::{
    hex16, is_hash_text, lemma_hex_round_trip, lemma_hex_value_bound, sixteen_to, spec_hex,
    spec_hex_value, xxh3_64, xxh3_64_of, FileHash,
};
use crate::order::{
    arranged, is_arrangement, is_stable_order, lemma_arranged_keeps_entries,
    lemma_stable_order_arranges, lemma_stable_order_exists, precedes, stable_order,
    stable_order_of,
};
use crate::scalar::Scalar;
use crate::text::chars_of;
use vstd::prelude::*;

verus! {

/// A group of media files that look alike.
pub struct Cluster {
    /// Rank of the cluster by size, the largest first, from 0.
    pub id: usize,
    /// Hashes of the files in the cluster.
    pub members: Vec<FileHash>,
    /// Hash of the member that is closest to the middle of the cluster.
    pub representative: FileHash,
    /// Mean similarity of the members to each other, between zero and one.
    pub cohesion: Scalar,
}

/// What a clustering was made with.
#[derive(Clone, Copy, Debug)]
pub struct ClusterParams {
    pub min_cluster_size: usize,
    pub min_samples: Option<usize>,
    pub cohesion_threshold: Scalar,
    pub use_umap: bool,
    pub umap_neighbors: usize,
    pub umap_components: usize,
}

/// A clustering of one directory, as it is kept between runs.
pub struct ClusterDatabase {
    /// Version of the producer.
    pub version: String,
    /// When the clustering was made.
    pub timestamp: String,
    pub params: ClusterParams,
    /// The clusters, the largest first.
    pub clusters: Vec<Cluster>,
    /// Hashes of the files that belong to no cluster.
    pub noise: Vec<FileHash>,
    /// Number of files that were clustered.
    pub total: usize,
    /// Hash over the hashes of all files, by which a later run tells whether
    /// the directory has changed.
    pub content_hash: String,
}

/// What to do with a stored clustering.
pub enum CacheDecision {
    /// The stored clustering stands and is handed back as it is.
    Use(ClusterDatabase),
    /// The clustering has to be made again.
    Recompute,
}

impl ClusterParams {
    /// Whether two sets of parameters are the same. A threshold that is not a
    /// number is the same as none.
    pub open spec fn spec_matches(self, other: ClusterParams) -> bool {
        &&& self.min_cluster_size == other.min_cluster_size
        &&& self.min_samples == other.min_samples
        &&& self.cohesion_threshold.spec_same(other.cohesion_threshold)
        &&& self.use_umap == other.use_umap
        &&& self.umap_neighbors == other.umap_neighbors
        &&& self.umap_components == other.umap_components
    }

    /// Whether two sets of parameters are the same.
    pub fn matches(&self, other: &ClusterParams) -> (r: bool)
        ensures
            r == self.spec_matches(*other),
    {
        let same_samples = match (self.min_samples, other.min_samples) {
            (Some(a), Some(b)) => a == b,
            (None, None) => true,
            _ => false,
        };
        self.min_cluster_size == other.min_cluster_size && same_samples
            && self.cohesion_threshold.same(other.cohesion_threshold) && self.use_umap
            == other.use_umap && self.umap_neighbors == other.umap_neighbors
            && self.umap_components == other.umap_components
    }
}

/// The key by which a hash is sorted: the number its digits spell, moved into
/// the signed range.
pub open spec fn spec_sort_key(value: nat) -> int {
    value - 0x8000_0000_0000_0000
}

/// The sort keys of a list of hashes.
pub open spec fn spec_sort_keys(hashes: Seq<FileHash>) -> Seq<i64> {
    Seq::new(hashes.len(), |i: int| spec_sort_key(spec_hex_value(hashes[i]@)) as i64)
}

/// The digits of the hashes at the first `n` positions of `order`, one hash
/// after the other, as bytes.
pub open spec fn spec_digits(hashes: Seq<FileHash>, order: Seq<usize>, n: int) -> Seq<u8>
    decreases n,
{
    if n <= 0 {
        Seq::empty()
    } else {
        spec_digits(hashes, order, n - 1) + Seq::new(
            16,
            |i: int| hashes[order[n - 1] as int]@[i] as u8,
        )
    }
}

/// The content hash of a list of file hashes: the XXH3 hash of their digits,
/// the hashes put in ascending order, as sixteen hexadecimal digits.
pub open spec fn spec_content_hash(hashes: Seq<FileHash>) -> Seq<char> {
    spec_hex(
        xxh3_64_of(
            spec_digits(hashes, stable_order_of(spec_sort_keys(hashes)), hashes.len() as int),
        ) as nat,
        16,
    )
}

/// Whether a stored clustering still stands: the run is not forced, and the
/// clustering was made from the same files with the same parameters.
pub open spec fn cache_stands(
    cached: Option<ClusterDatabase>,
    content_hash: Seq<char>,
    params: ClusterParams,
    force: bool,
) -> bool {
    &&& !force
    &&& cached is Some
    &&& cached->0.content_hash@ == content_hash
    &&& cached->0.params.spec_matches(params)
}

proof fn lemma_sorted_keys(keys: Seq<i64>)
    requires
        keys.len() <= usize::MAX,
    ensures
        is_stable_order(keys, stable_order_of(keys)),
        vstd::relations::sorted_by(arranged(keys, stable_order_of(keys)), |x: i64, y: i64| x <= y),
        arranged(keys, stable_order_of(keys)).to_multiset() == keys.to_multiset(),
{
    lemma_stable_order_exists(keys);
    let order = stable_order_of(keys);
    lemma_stable_order_arranges(keys, order);
    lemma_arranged_keeps_entries(keys, order);
    let sorted = arranged(keys, order);
    assert forall|i: int, j: int| 0 <= i < j < sorted.len() implies sorted[i] <= sorted[j] by {
        assert(precedes(keys, order[i] as int, order[j] as int));
    }
}

proof fn lemma_same_digits(
    a: Seq<FileHash>,
    in_a: Seq<usize>,
    b: Seq<FileHash>,
    in_b: Seq<usize>,
    n: int,
)
    requires
        0 <= n <= in_a.len(),
        in_a.len() == in_b.len(),
        forall|k: int| 0 <= k < n ==> a[(#[trigger] in_a[k]) as int]@ == b[in_b[k] as int]@,
    ensures
        spec_digits(a, in_a, n) == spec_digits(b, in_b, n),
    decreases n,
{
    if n > 0 {
        lemma_same_digits(a, in_a, b, in_b, n - 1);
        let x = in_a[n - 1];
        assert(a[x as int]@ == b[in_b[n - 1] as int]@);
        assert(Seq::new(16, |i: int| a[in_a[n - 1] as int]@[i] as u8) =~= Seq::new(
            16,
            |i: int| b[in_b[n - 1] as int]@[i] as u8,
        ));
    }
}

/// The content hash does not depend on the order of the hashes: the same
/// hashes handed in in another order give the same content hash. `moved`
/// says where each entry of `b` stands in `a`.
pub proof fn lemma_content_hash_ignores_order(a: Seq<FileHash>, b: Seq<FileHash>, moved: Seq<usize>)
    requires
        a.len() <= usize::MAX,
        forall|i: int| 0 <= i < a.len() ==> is_hash_text((#[trigger] a[i])@),
        is_arrangement(moved, a.len()),
        b.len() == a.len(),
        forall|i: int| 0 <= i < b.len() ==> (#[trigger] b[i])@ == a[moved[i] as int]@,
    ensures
        spec_content_hash(a) == spec_content_hash(b),
{
    let keys_a = spec_sort_keys(a);
    let keys_b = spec_sort_keys(b);
    let in_a = stable_order_of(keys_a);
    let in_b = stable_order_of(keys_b);
    lemma_sorted_keys(keys_a);
    lemma_sorted_keys(keys_b);
    assert(keys_b =~= arranged(keys_a, moved)) by {
        assert forall|i: int| 0 <= i < keys_b.len() implies keys_b[i] == arranged(keys_a, moved)[i] by {
            let h = b[i];
            assert(h@ == a[moved[i] as int]@);
        }
    }
    lemma_arranged_keeps_entries(keys_a, moved);
    let leq = |x: i64, y: i64| x <= y;
    assert(vstd::relations::total_ordering(leq)) by {
        assert(vstd::relations::reflexive(leq));
        assert(vstd::relations::antisymmetric(leq));
        assert(vstd::relations::transitive(leq));
        assert(vstd::relations::strongly_connected(leq));
    }
    vstd::seq_lib::lemma_sorted_unique(arranged(keys_a, in_a), arranged(keys_b, in_b), leq);
    assert(sixteen_to(16) == 0x1_0000_0000_0000_0000) by {
        reveal_with_fuel(sixteen_to, 17);
    }
    assert forall|k: int| 0 <= k < in_a.len() implies a[(#[trigger] in_a[k]) as int]@
        == b[in_b[k] as int]@ by {
        let x = a[in_a[k] as int];
        let y = b[in_b[k] as int];
        let z = a[moved[in_b[k] as int] as int];
        assert(y@ == z@);
        assert(is_hash_text(x@) && is_hash_text(z@));
        assert(arranged(keys_a, in_a)[k] == arranged(keys_b, in_b)[k]);
        assert(keys_a[in_a[k] as int] == keys_b[in_b[k] as int]);
        lemma_hex_value_bound(x@);
        lemma_hex_value_bound(y@);
        assert(spec_hex_value(x@) == spec_hex_value(y@));
        lemma_hex_round_trip(x@);
        lemma_hex_round_trip(y@);
    }
    lemma_same_digits(a, in_a, b, in_b, a.len() as int);
}

fn sort_key(hash: &FileHash) -> (key: i64)
    ensures
        key == spec_sort_key(spec_hex_value(hash@)),
{
    let v = hash.value();
    if v >= 0x8000_0000_0000_0000 {
        (v - 0x8000_0000_0000_0000) as i64
    } else {
        (v as i64) - 0x4000_0000_0000_0000 - 0x4000_0000_0000_0000
    }
}

/// Hashes the hashes of all files of a directory into one. The order in
/// which the hashes are handed in is put aside by sorting them first.
pub fn compute_content_hash(hashes: &Vec<FileHash>) -> (hash: String)
    ensures
        hash@ == spec_content_hash(hashes@),
{
    let mut keys: Vec<i64> = Vec::new();
    let mut i: usize = 0;
    while i < hashes.len()
        invariant
            i <= hashes.len(),
            keys.len() == i,
            forall|j: int|
                0 <= j < i ==> #[trigger] keys[j] == spec_sort_key(spec_hex_value(hashes[j]@)),
        decreases hashes.len() - i,
    {
        keys.push(sort_key(&hashes[i]));
        i += 1;
    }
    assert(keys@ =~= spec_sort_keys(hashes@));
    let order = stable_order(&keys);
    let mut digits: Vec<u8> = Vec::new();
    let mut k: usize = 0;
    while k < order.len()
        invariant
            k <= order.len(),
            order.len() == hashes.len(),
            forall|j: int| 0 <= j < order.len() ==> (#[trigger] order[j]) < hashes.len(),
            digits@ == spec_digits(hashes@, order@, k as int),
        decreases order.len() - k,
    {
        let text = hashes[order[k]].as_str();
        let chars = chars_of(text);
        let ghost start = digits@;
        let mut c: usize = 0;
        while c < 16
            invariant
                c <= 16,
                chars.len() == 16,
                digits@ == start + Seq::new(c as nat, |i: int| chars[i] as u8),
            decreases 16 - c,
        {
            digits.push(chars[c] as u8);
            assert(digits@ =~= start + Seq::new((c + 1) as nat, |i: int| chars[i] as u8));
            c += 1;
        }
        assert(Seq::new(16, |i: int| chars[i] as u8) =~= Seq::new(
            16,
            |i: int| hashes[order[k as int] as int]@[i] as u8,
        ));
        k += 1;
    }
    hex16(xxh3_64(digits.as_slice()))
}

/// Decides whether a stored clustering is handed back or the clustering is
/// made again. A stored clustering that was made from the same files with
/// the same parameters is handed back as it is, unless the run is forced;
/// in every other case the clustering is made again. `cached` is what was
/// read from the cache file, `None` where the file is missing or
/// unreadable; `content_hash` and `params` are those of this run.
pub fn resolve_cache(
    cached: Option<ClusterDatabase>,
    content_hash: &String,
    params: &ClusterParams,
    force: bool,
) -> (decision: CacheDecision)
    ensures
        cache_stands(cached, content_hash@, *params, force) ==> decision == CacheDecision::Use(
            cached->0,
        ),
        !cache_stands(cached, content_hash@, *params, force) ==> decision is Recompute,
{
    if force {
        return CacheDecision::Recompute;
    }
    match cached {
        Some(database) => {
            if database.content_hash == *content_hash && database.params.matches(params) {
                CacheDecision::Use(database)
            } else {
                CacheDecision::Recompute
            }
        },
        None => CacheDecision::Recompute,
    }
}

/// Whether the embeddings are reduced before they are clustered: where that
/// is asked for and there are more points than neighbours.
pub fn should_reduce(use_umap: bool, points: usize, umap_neighbors: usize) -> (r: bool)
    ensures
        r == (use_umap && points >= umap_neighbors + 1),
{
    use_umap && points > umap_neighbors
}

} // verus!
