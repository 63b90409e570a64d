use scout::cluster::{compute_content_hash, resolve_cache, should_reduce, CacheDecision, Cluster, ClusterDatabase, ClusterParams};
use scout::grouping::{assemble, group_by_label, members_with, pick_representative, ClusterSummary};
use scout::hash::FileHash;
use scout::scalar::Scalar;
use xxhash_rust::xxh3::xxh3_64;

fn s(x: f32) -> Scalar {
    Scalar::from_bits(x.to_bits())
}

fn h(seed: &str) -> FileHash {
    FileHash::compute(seed.as_bytes())
}

fn params() -> ClusterParams {
    ClusterParams {
        min_cluster_size: 5,
        min_samples: None,
        cohesion_threshold: s(0.7),
        use_umap: false,
        umap_neighbors: 50,
        umap_components: 64,
    }
}

fn database(content_hash: &str, p: ClusterParams) -> ClusterDatabase {
    ClusterDatabase {
        version: "0.1.0".to_string(),
        timestamp: "2024-05-01T10:00:00+00:00".to_string(),
        params: p,
        clusters: vec![Cluster { id: 0, members: vec![h("a"), h("b")], representative: h("a"), cohesion: s(0.9) }],
        noise: vec![h("c")],
        total: 3,
        content_hash: content_hash.to_string(),
    }
}

fn expected_content_hash(hashes: &[FileHash]) -> String {
    let mut sorted: Vec<String> = hashes.iter().map(|x| x.as_str().to_string()).collect();
    sorted.sort();
    format!("{:016x}", xxh3_64(sorted.join("").as_bytes()))
}

#[test]
fn content_hash_is_the_hash_of_the_sorted_hashes() {
    let hashes = vec![h("one"), h("two"), h("three"), h("four")];
    assert_eq!(compute_content_hash(&hashes), expected_content_hash(&hashes));
}

#[test]
fn content_hash_does_not_depend_on_the_order() {
    let a = vec![h("one"), h("two"), h("three")];
    let b = vec![h("three"), h("one"), h("two")];
    assert_eq!(compute_content_hash(&a), compute_content_hash(&b));
}

#[test]
fn content_hash_changes_with_the_files() {
    let a = vec![h("one"), h("two")];
    let b = vec![h("one"), h("two"), h("three")];
    let c = vec![h("one"), h("other")];
    assert_ne!(compute_content_hash(&a), compute_content_hash(&b));
    assert_ne!(compute_content_hash(&a), compute_content_hash(&c));
}

#[test]
fn content_hash_of_nothing_is_the_hash_of_nothing() {
    assert_eq!(compute_content_hash(&Vec::new()), "2d06800538d394c2");
}

#[test]
fn content_hash_sorts_high_and_low_values() {
    let hashes = vec![
        FileHash::parse("ffffffffffffffff").unwrap(),
        FileHash::parse("0000000000000000").unwrap(),
        FileHash::parse("8000000000000000").unwrap(),
        FileHash::parse("7fffffffffffffff").unwrap(),
        FileHash::parse("0000000000000000").unwrap(),
    ];
    assert_eq!(compute_content_hash(&hashes), expected_content_hash(&hashes));
}

#[test]
fn cached_clustering_is_returned_when_hash_and_parameters_match() {
    let db = database("00112233aabbccdd", params());
    match resolve_cache(Some(db), &"00112233aabbccdd".to_string(), &params(), false) {
        CacheDecision::Use(back) => {
            assert_eq!(back.timestamp, "2024-05-01T10:00:00+00:00");
            assert_eq!(back.content_hash, "00112233aabbccdd");
            assert_eq!(back.total, 3);
            assert_eq!(back.clusters.len(), 1);
            assert_eq!(back.clusters[0].members.len(), 2);
            assert!(back.clusters[0].representative.same(&h("a")));
            assert_eq!(back.noise.len(), 1);
            assert_eq!(back.version, "0.1.0");
        }
        CacheDecision::Recompute => panic!("the cache stands"),
    }
}

#[test]
fn forced_run_clusters_again() {
    let db = database("00112233aabbccdd", params());
    assert!(matches!(resolve_cache(Some(db), &"00112233aabbccdd".to_string(), &params(), true), CacheDecision::Recompute));
}

#[test]
fn changed_files_cluster_again() {
    let db = database("00112233aabbccdd", params());
    assert!(matches!(resolve_cache(Some(db), &"ffffffffffffffff".to_string(), &params(), false), CacheDecision::Recompute));
}

#[test]
fn changed_parameters_cluster_again() {
    let mut other = params();
    other.min_cluster_size = 6;
    assert!(matches!(resolve_cache(Some(database("00", params())), &"00".to_string(), &other, false), CacheDecision::Recompute));
    let mut other = params();
    other.min_samples = Some(3);
    assert!(matches!(resolve_cache(Some(database("00", params())), &"00".to_string(), &other, false), CacheDecision::Recompute));
    let mut other = params();
    other.use_umap = true;
    assert!(matches!(resolve_cache(Some(database("00", params())), &"00".to_string(), &other, false), CacheDecision::Recompute));
    let mut other = params();
    other.cohesion_threshold = s(0.71);
    assert!(matches!(resolve_cache(Some(database("00", params())), &"00".to_string(), &other, false), CacheDecision::Recompute));
    let mut other = params();
    other.umap_neighbors = 51;
    assert!(matches!(resolve_cache(Some(database("00", params())), &"00".to_string(), &other, false), CacheDecision::Recompute));
    let mut other = params();
    other.umap_components = 2;
    assert!(matches!(resolve_cache(Some(database("00", params())), &"00".to_string(), &other, false), CacheDecision::Recompute));
}

#[test]
fn missing_cache_clusters_again() {
    assert!(matches!(resolve_cache(None, &"00".to_string(), &params(), false), CacheDecision::Recompute));
}

#[test]
fn parameters_match_themselves() {
    assert!(params().matches(&params()));
    let mut nan = params();
    nan.cohesion_threshold = s(f32::NAN);
    assert!(!nan.matches(&nan));
    let mut zero = params();
    zero.cohesion_threshold = s(0.0);
    let mut minus = params();
    minus.cohesion_threshold = s(-0.0);
    assert!(zero.matches(&minus));
}

#[test]
fn reduction_needs_more_points_than_neighbours() {
    assert!(should_reduce(true, 51, 50));
    assert!(!should_reduce(true, 50, 50));
    assert!(!should_reduce(false, 1000, 50));
    assert!(!should_reduce(true, usize::MAX, usize::MAX));
    assert!(should_reduce(true, 1, 0));
}

#[test]
fn points_are_grouped_by_label_in_order_of_first_sight() {
    let g = group_by_label(&vec![2, -1, 0, 2, 0, 0, -1, 7]);
    assert_eq!(g.labels, vec![2, 0, 7]);
    assert_eq!(g.clusters, vec![vec![0, 3], vec![2, 4, 5], vec![7]]);
    assert_eq!(g.noise, vec![1, 6]);
}

#[test]
fn all_noise_gives_no_clusters() {
    let g = group_by_label(&vec![-1, -1]);
    assert!(g.labels.is_empty());
    assert!(g.clusters.is_empty());
    assert_eq!(g.noise, vec![0, 1]);
    let e = group_by_label(&Vec::new());
    assert!(e.clusters.is_empty() && e.noise.is_empty());
}

#[test]
fn every_point_is_in_one_cluster_or_noise() {
    let labels = vec![3, 1, -1, 3, 3, 1, 0, -1, 5, 0];
    let g = group_by_label(&labels);
    let mut seen: Vec<usize> = g.noise.clone();
    for c in &g.clusters {
        seen.extend(c.iter().copied());
    }
    seen.sort();
    assert_eq!(seen, (0..labels.len()).collect::<Vec<usize>>());
}

#[test]
fn members_with_lists_positions_in_ascending_order() {
    assert_eq!(members_with(&vec![1, 2, 1, 1], 1), vec![0, 2, 3]);
    assert_eq!(members_with(&vec![1, 2, 1, 1], 9), Vec::<usize>::new());
}

#[test]
fn representative_is_the_member_closest_to_the_middle() {
    assert_eq!(pick_representative(&vec![s(0.2), s(0.9), s(0.5)]), Some(1));
    assert_eq!(pick_representative(&vec![s(0.9)]), Some(0));
    assert_eq!(pick_representative(&Vec::new()), None);
    assert_eq!(pick_representative(&vec![s(-0.9), s(-0.1)]), Some(1));
}

#[test]
fn representative_of_equals_is_the_last() {
    assert_eq!(pick_representative(&vec![s(0.9), s(0.2), s(0.9)]), Some(2));
    let sims = [0.9f32, 0.2, 0.9];
    let by_std = sims.iter().enumerate().max_by(|a, b| a.1.partial_cmp(b.1).unwrap()).map(|(i, _)| i);
    assert_eq!(pick_representative(&sims.iter().map(|x| s(*x)).collect()), by_std);
}

#[test]
fn summary_takes_the_member_closest_to_the_middle() {
    let summary = ClusterSummary::new(vec![4, 7, 9], &vec![s(0.2), s(0.9), s(0.5)], s(0.8)).unwrap();
    assert_eq!(summary.members, vec![4, 7, 9]);
    assert_eq!(summary.representative, 7);
    assert_eq!(summary.cohesion.to_bits(), 0.8f32.to_bits());
    let tie = ClusterSummary::new(vec![4, 7, 9], &vec![s(0.9), s(0.1), s(0.9)], s(1.0)).unwrap();
    assert_eq!(tie.representative, 9);
    let one = ClusterSummary::new(vec![3], &vec![s(1.0)], s(1.0)).unwrap();
    assert_eq!(one.representative, 3);
}

#[test]
fn summary_needs_members_and_one_similarity_for_each() {
    assert!(ClusterSummary::new(Vec::new(), &Vec::new(), s(1.0)).is_none());
    assert!(ClusterSummary::new(vec![1, 2], &vec![s(0.5)], s(1.0)).is_none());
    assert!(ClusterSummary::new(vec![1], &vec![s(0.5), s(0.6)], s(1.0)).is_none());
}

#[test]
fn representative_of_an_assembled_cluster_is_one_of_its_members() {
    let points: Vec<FileHash> = (0..6).map(|i| h(&format!("m{}", i))).collect();
    let summaries = vec![
        ClusterSummary::new(vec![0, 2, 4], &vec![s(0.1), s(0.7), s(0.3)], s(0.9)).unwrap(),
        ClusterSummary::new(vec![1, 5], &vec![s(0.4), s(0.2)], s(0.8)).unwrap(),
    ];
    let db = assemble(&points, &summaries, &vec![3], params(), "t".to_string());
    for c in &db.clusters {
        assert!(c.members.iter().any(|m| m.same(&c.representative)));
    }
    assert!(db.clusters[0].representative.same(&points[2]));
    assert!(db.clusters[1].representative.same(&points[1]));
}

#[test]
fn clusters_are_numbered_by_descending_size() {
    let points: Vec<FileHash> = (0..7).map(|i| h(&format!("p{}", i))).collect();
    let summaries = vec![
        ClusterSummary { members: vec![0, 1], representative: 1, cohesion: s(0.8) },
        ClusterSummary { members: vec![2, 3, 4], representative: 2, cohesion: s(0.6) },
        ClusterSummary { members: vec![5, 6], representative: 5, cohesion: s(1.0) },
    ];
    let db = assemble(&points, &summaries, &vec![], params(), "now".to_string());
    assert_eq!(db.clusters.len(), 3);
    assert_eq!(db.clusters.iter().map(|c| c.id).collect::<Vec<_>>(), vec![0, 1, 2]);
    assert_eq!(db.clusters.iter().map(|c| c.members.len()).collect::<Vec<_>>(), vec![3, 2, 2]);
    assert!(db.clusters[0].representative.same(&points[2]));
    assert!(db.clusters[1].representative.same(&points[1]));
    assert!(db.clusters[2].representative.same(&points[5]));
    assert!(db.clusters[1].members[0].same(&points[0]));
    assert!(db.clusters[2].members[1].same(&points[6]));
    assert_eq!(db.clusters[0].cohesion.to_bits(), 0.6f32.to_bits());
    assert_eq!(db.total, 7);
    assert_eq!(db.timestamp, "now");
    assert_eq!(db.version, "0.1.0");
    assert_eq!(db.content_hash, compute_content_hash(&points));
    assert!(db.noise.is_empty());
}

#[test]
fn assembly_names_noise_by_hash() {
    let points: Vec<FileHash> = (0..4).map(|i| h(&format!("q{}", i))).collect();
    let summaries = vec![ClusterSummary { members: vec![1, 3], representative: 3, cohesion: s(0.5) }];
    let db = assemble(&points, &summaries, &vec![0, 2], params(), "t".to_string());
    assert_eq!(db.noise.len(), 2);
    assert!(db.noise[0].same(&points[0]));
    assert!(db.noise[1].same(&points[2]));
    assert_eq!(db.params.min_cluster_size, 5);
}

#[test]
fn clustering_twice_gives_the_same_database() {
    let labels = vec![1, 0, 1, -1, 0, 1, 2, 2];
    let points: Vec<FileHash> = (0..labels.len()).map(|i| h(&format!("r{}", i))).collect();
    let run = || {
        let g = group_by_label(&labels);
        let summaries: Vec<ClusterSummary> = g
            .clusters
            .iter()
            .map(|m| ClusterSummary { members: m.clone(), representative: m[0], cohesion: s(1.0) })
            .collect();
        assemble(&points, &summaries, &g.noise, params(), "t".to_string())
    };
    let (a, b) = (run(), run());
    assert_eq!(a.content_hash, b.content_hash);
    assert_eq!(a.clusters.len(), b.clusters.len());
    for (x, y) in a.clusters.iter().zip(b.clusters.iter()) {
        assert_eq!(x.id, y.id);
        assert_eq!(x.members.len(), y.members.len());
        assert!(x.members.iter().zip(y.members.iter()).all(|(m, n)| m.same(n)));
    }
    assert_eq!(a.clusters.iter().map(|c| c.members.len()).collect::<Vec<_>>(), vec![3, 2, 2]);
    assert!(a.clusters[1].members[0].same(&points[1]));
}
