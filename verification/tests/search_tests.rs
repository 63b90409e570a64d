use scout::scalar::Scalar;
use scout::scout::{rank_scores, Scout};
use scout::search::{best_frame, judge, rank, score_of, Candidate, Filter, FrameScore, Match, Scores};

fn s(x: f32) -> Scalar {
    Scalar::from_bits(x.to_bits())
}

fn f(x: Scalar) -> f32 {
    f32::from_bits(x.to_bits())
}

fn image(score: f32) -> Candidate {
    Candidate { canonical: None, scores: Scores::Image(s(score)) }
}

fn image_at(path: &str, score: f32) -> Candidate {
    Candidate { canonical: Some(path.to_string()), scores: Scores::Image(s(score)) }
}

fn video(frames: &[(f64, f32)]) -> Candidate {
    Candidate {
        canonical: None,
        scores: Scores::Video(
            frames.iter().map(|(t, x)| FrameScore { timestamp: t.to_bits(), score: s(*x) }).collect(),
        ),
    }
}

fn filter(min_score: f32) -> Filter {
    Filter { min_score: s(min_score), exclude_videos: false, include_ref: true, reference: None }
}

fn indices(matches: &[Match]) -> Vec<usize> {
    matches.iter().map(|m| m.index).collect()
}

#[test]
fn results_come_by_descending_score() {
    let c = vec![image(0.2), image(0.9), image(0.5)];
    let r = rank(&c, &filter(0.0), 10);
    assert_eq!(indices(&r), vec![1, 2, 0]);
    assert_eq!(f(r[0].score), 0.9);
    assert_eq!(f(r[2].score), 0.2);
    assert!(r.iter().all(|m| m.timestamp.is_none()));
}

#[test]
fn scores_below_the_threshold_are_left_out() {
    let c = vec![image(0.04), image(0.05), image(0.06), image(-0.3)];
    let r = rank(&c, &filter(0.05), 10);
    assert_eq!(indices(&r), vec![2, 1]);
}

#[test]
fn negative_query_score_is_ranked_as_it_is_handed_in() {
    let score = 0.40f32 - 0.50f32 * 0.7f32;
    let c = vec![image(score)];
    let r = rank(&c, &filter(0.0), 10);
    assert_eq!(r.len(), 1);
    assert!((f(r[0].score) - 0.05).abs() < 1e-6);
    let none = rank(&c, &filter(0.06), 10);
    assert!(none.is_empty());
}

#[test]
fn video_is_reported_once_with_its_best_frame() {
    let c = vec![video(&[(1.0, 0.10), (5.0, 0.42), (9.0, 0.31)])];
    let r = rank(&c, &filter(0.0), 10);
    assert_eq!(r.len(), 1);
    assert_eq!(r[0].index, 0);
    assert_eq!(f(r[0].score), 0.42);
    assert_eq!(r[0].timestamp.map(f64::from_bits), Some(5.0));
}

#[test]
fn best_frame_of_equals_is_the_first() {
    let frames = vec![
        FrameScore { timestamp: 1, score: s(0.3) },
        FrameScore { timestamp: 2, score: s(0.7) },
        FrameScore { timestamp: 3, score: s(0.7) },
    ];
    assert_eq!(best_frame(&frames), Some(1));
}

#[test]
fn best_frame_may_score_below_zero() {
    let c = video(&[(1.0, -0.5), (2.0, -0.2), (3.0, -0.9)]);
    let (score, ts) = score_of(&c).unwrap();
    assert_eq!(f(score), -0.2);
    assert_eq!(ts.map(f64::from_bits), Some(2.0));
    assert_eq!(rank(&vec![c], &filter(-1.0), 10).len(), 1);
}

#[test]
fn frames_that_are_no_numbers_are_passed_over() {
    let c = video(&[(1.0, f32::NAN), (2.0, 0.2), (3.0, f32::NAN)]);
    let (score, ts) = score_of(&c).unwrap();
    assert_eq!(f(score), 0.2);
    assert_eq!(ts.map(f64::from_bits), Some(2.0));
}

#[test]
fn video_without_frames_is_left_out() {
    assert_eq!(best_frame(&Vec::new()), None);
    assert!(score_of(&video(&[])).is_none());
    assert!(rank(&vec![video(&[])], &filter(0.0), 10).is_empty());
    assert!(rank(&vec![video(&[])], &filter(f32::NEG_INFINITY), 10).is_empty());
    let c = vec![image(0.1), video(&[]), image(0.2)];
    assert_eq!(indices(&rank(&c, &filter(-1.0), 10)), vec![2, 0]);
}

#[test]
fn video_whose_frames_are_no_numbers_is_left_out() {
    let c = video(&[(1.0, f32::NAN), (2.0, f32::NAN)]);
    assert!(score_of(&c).is_none());
    assert!(judge(&c, &filter(f32::NEG_INFINITY)).is_none());
    assert!(rank(&vec![c], &filter(-1.0), 10).is_empty());
}

#[test]
fn image_has_its_own_score() {
    let (score, ts) = score_of(&image(0.25)).unwrap();
    assert_eq!(f(score), 0.25);
    assert_eq!(ts, None);
}

#[test]
fn videos_can_be_left_out() {
    let c = vec![image(0.3), video(&[(1.0, 0.9)]), image(0.4)];
    let mut fl = filter(0.0);
    fl.exclude_videos = true;
    assert_eq!(indices(&rank(&c, &fl, 10)), vec![2, 0]);
    fl.exclude_videos = false;
    assert_eq!(indices(&rank(&c, &fl, 10)), vec![1, 2, 0]);
}

#[test]
fn reference_image_is_dropped_unless_asked_for() {
    let c = vec![image_at("/d/a.png", 0.5), image_at("/d/ref.png", 1.0), image(0.7)];
    let mut fl = filter(0.0);
    fl.include_ref = false;
    fl.reference = Some("/d/ref.png".to_string());
    assert_eq!(indices(&rank(&c, &fl, 10)), vec![2, 0]);
    fl.include_ref = true;
    assert_eq!(indices(&rank(&c, &fl, 10)), vec![1, 2, 0]);
    fl.include_ref = false;
    fl.reference = None;
    assert_eq!(indices(&rank(&c, &fl, 10)), vec![1, 2, 0]);
}

#[test]
fn candidate_without_canonical_path_is_never_the_reference() {
    let c = vec![image(1.0)];
    let mut fl = filter(0.0);
    fl.include_ref = false;
    fl.reference = Some("/d/ref.png".to_string());
    assert_eq!(rank(&c, &fl, 10).len(), 1);
}

#[test]
fn results_are_cut_off_at_the_limit() {
    let c = vec![image(0.1), image(0.4), image(0.3), image(0.2), image(0.5)];
    assert_eq!(indices(&rank(&c, &filter(0.0), 3)), vec![4, 1, 2]);
    assert_eq!(indices(&rank(&c, &filter(0.0), 0)), Vec::<usize>::new());
    assert_eq!(rank(&c, &filter(0.0), 5).len(), 5);
    assert_eq!(rank(&c, &filter(0.0), usize::MAX).len(), 5);
}

#[test]
fn equal_scores_keep_their_order() {
    let c = vec![image(0.5), image(0.7), image(0.5), image(0.7), image(0.5)];
    assert_eq!(indices(&rank(&c, &filter(0.0), 10)), vec![1, 3, 0, 2, 4]);
}

#[test]
fn scores_that_are_no_numbers_are_never_reported() {
    let c = vec![image(f32::NAN), image(0.1)];
    assert_eq!(indices(&rank(&c, &filter(f32::NEG_INFINITY), 10)), vec![1]);
    assert!(rank(&c, &filter(f32::NAN), 10).is_empty());
}

#[test]
fn raising_the_threshold_never_adds_results() {
    let c = vec![image(0.9), image(0.1), video(&[(1.0, 0.5), (2.0, 0.6)]), image(0.3), image(0.6), image(-0.2)];
    let thresholds = [-1.0f32, 0.0, 0.1, 0.3, 0.5, 0.6, 0.61, 0.9, 1.0];
    for limit in [0usize, 1, 2, 3, 10] {
        for w in thresholds.windows(2) {
            let low = indices(&rank(&c, &filter(w[0]), limit));
            let high = indices(&rank(&c, &filter(w[1]), limit));
            assert!(high.iter().all(|i| low.contains(i)));
            assert!(high.len() <= low.len());
        }
    }
}

#[test]
fn empty_index_gives_no_results() {
    assert!(rank(&Vec::new(), &filter(0.0), 10).is_empty());
}

#[test]
fn judge_tells_score_and_admission() {
    assert!(judge(&image(0.3), &filter(0.5)).is_none());
    let (score, ts) = judge(&image(0.5), &filter(0.5)).unwrap();
    assert_eq!(f(score), 0.5);
    assert_eq!(ts, None);
    let (score, ts) = judge(&video(&[(3.0, 0.6), (4.0, 0.7)]), &filter(0.5)).unwrap();
    assert_eq!(f(score), 0.7);
    assert_eq!(ts.map(f64::from_bits), Some(4.0));
}

#[test]
fn plain_scores_are_ranked_alike() {
    let scores = vec![s(0.2), s(0.8), s(0.05), s(0.8), s(0.01)];
    let r = rank_scores(&scores, 3, s(0.05));
    assert_eq!(indices(&r), vec![1, 3, 0]);
    assert_eq!(f(r[2].score), 0.2);
}

#[test]
fn scout_search_names_candidates_by_position() {
    let b = Scout::builder().vision_model("v").text_model("t").tokenizer("k");
    let scout = b
        .build(None, scout::models::Presence { vision: true, text: true, tokenizer: true })
        .ok()
        .unwrap();
    let scores = vec![s(0.04), s(0.5), s(0.3)];
    let r = scout.search(&scores, 10, s(0.05));
    assert_eq!(indices(&r), vec![1, 2]);
    assert_eq!(f(r[0].score), 0.5);
}

#[test]
fn large_inputs_are_ranked_in_order() {
    let n = 5000usize;
    let c: Vec<Candidate> = (0..n).map(|i| image(((i * 7919) % 1000) as f32 / 1000.0)).collect();
    let r = rank(&c, &filter(0.0), n);
    assert_eq!(r.len(), n);
    for w in r.windows(2) {
        let (a, b) = (f(w[0].score), f(w[1].score));
        assert!(a > b || (a == b && w[0].index < w[1].index));
    }
}
