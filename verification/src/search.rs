use crate::order::{is_stable_order, precedes, stable_order};
use crate::scalar::Scalar;
use vstd::prelude::*;

verus! {

/// Similarity of the query to one frame of a video.
pub struct FrameScore {
    /// Position of the frame in the video, as the caller holds it.
    pub timestamp: u64,
    /// Similarity of the frame to the query, the negative query taken off.
    pub score: Scalar,
}

/// What the query scored against one indexed file.
pub enum Scores {
    /// An image has one score.
    Image(Scalar),
    /// A video has one score for each of its frames.
    Video(Vec<FrameScore>),
}

/// One indexed file as the ranking sees it.
pub struct Candidate {
    /// Canonical path of the media file, where it could be resolved.
    pub canonical: Option<String>,
    /// Scores of the query against the file.
    pub scores: Scores,
}

/// What decides which candidates are reported.
pub struct Filter {
    /// Candidates that score below this are left out.
    pub min_score: Scalar,
    /// Whether videos are left out altogether.
    pub exclude_videos: bool,
    /// Whether the reference image itself may be reported.
    pub include_ref: bool,
    /// Canonical path of the reference image, where there is one.
    pub reference: Option<String>,
}

/// One reported result.
#[derive(Clone, Copy, Debug)]
pub struct Match {
    /// Position of the candidate in the list that was ranked.
    pub index: usize,
    /// Its score; for a video, that of its best frame.
    pub score: Scalar,
    /// For a video, the timestamp of its best frame.
    pub timestamp: Option<u64>,
}

/// Frame `i` is the best of `frames`: its score is a number, no frame scores
/// higher, and no earlier frame scores as high.
pub open spec fn is_best_frame(frames: Seq<FrameScore>, i: int) -> bool {
    &&& 0 <= i < frames.len()
    &&& !frames[i].score.spec_is_nan()
    &&& forall|j: int|
        0 <= j < frames.len() && !(#[trigger] frames[j]).score.spec_is_nan() ==> frames[j].score@
            < frames[i].score@ || (frames[j].score@ == frames[i].score@ && i <= j)
}

/// Whether some frame has a score that is a number.
pub open spec fn has_best_frame(frames: Seq<FrameScore>) -> bool {
    exists|i: int| is_best_frame(frames, i)
}

/// The best frame of `frames`, where there is one.
pub open spec fn spec_best_frame(frames: Seq<FrameScore>) -> int {
    choose|i: int| is_best_frame(frames, i)
}

/// Key of the score under which a candidate is ranked: an image's own score
/// and a video's best frame score. A video without a frame whose score is a
/// number has no score; it is never ranked.
pub open spec fn spec_score(c: Candidate) -> Option<int> {
    match c.scores {
        Scores::Image(s) => Some(s@),
        Scores::Video(frames) => if has_best_frame(frames@) {
            Some(frames@[spec_best_frame(frames@)].score@)
        } else {
            None
        },
    }
}

/// The timestamp a candidate is reported with: none for an image, that of the
/// best frame for a video.
pub open spec fn spec_timestamp(c: Candidate) -> Option<u64> {
    match c.scores {
        Scores::Image(_) => None,
        Scores::Video(frames) => if has_best_frame(frames@) {
            Some(frames@[spec_best_frame(frames@)].timestamp)
        } else {
            None
        },
    }
}

/// Whether the candidate is the reference image and has to be dropped.
pub open spec fn is_dropped_reference(c: Candidate, f: Filter) -> bool {
    &&& !f.include_ref
    &&& f.reference is Some
    &&& c.canonical is Some
    &&& c.canonical->0@ == f.reference->0@
}

/// Whether the score behind `key` reaches the threshold; a score or a
/// threshold that is not a number never does.
pub open spec fn reaches(key: int, min_score: Scalar) -> bool {
    &&& -crate::scalar::INFINITY_KEY <= key <= crate::scalar::INFINITY_KEY
    &&& !min_score.spec_is_nan()
    &&& key >= min_score@
}

/// Whether a candidate is reported at all, the limit aside: it has a score,
/// the score reaches the threshold, it is no video while videos are left
/// out, and it is not the reference image that has to be dropped.
pub open spec fn admitted(c: Candidate, f: Filter) -> bool {
    &&& !(f.exclude_videos && c.scores is Video)
    &&& spec_score(c) matches Some(key)
    &&& reaches(key, f.min_score)
    &&& !is_dropped_reference(c, f)
}

/// Number of admitted candidates among the first `n`.
pub open spec fn admitted_count(cands: Seq<Candidate>, f: Filter, n: int) -> int
    decreases n,
{
    if n <= 0 {
        0
    } else {
        admitted_count(cands, f, n - 1) + if admitted(cands[n - 1], f) {
            1int
        } else {
            0int
        }
    }
}

/// Candidate `a` is reported before candidate `b`: both have a score, the
/// higher score comes first, and of two equal scores the candidate that
/// stood first.
pub open spec fn outranks(cands: Seq<Candidate>, a: int, b: int) -> bool {
    &&& spec_score(cands[a]) matches Some(x)
    &&& spec_score(cands[b]) matches Some(y)
    &&& (x > y || (x == y && a < b))
}

/// Whether `matches` reports candidate `i`.
pub open spec fn reports(matches: Seq<Match>, i: int) -> bool {
    exists|k: int| 0 <= k < matches.len() && (#[trigger] matches[k]).index == i
}

/// `matches` is the ranking of `cands` under `f`, cut off at `limit`:
/// every match reports an admitted candidate with its score and timestamp;
/// each match outranks all that follow it; there are as many matches as
/// there are admitted candidates, but no more than `limit`; and every
/// admitted candidate that is not reported is outranked by every match.
pub open spec fn is_ranking(cands: Seq<Candidate>, f: Filter, limit: int, matches: Seq<Match>) -> bool {
    &&& forall|k: int|
        0 <= k < matches.len() ==> {
            let m = #[trigger] matches[k];
            &&& m.index < cands.len()
            &&& admitted(cands[m.index as int], f)
            &&& spec_score(cands[m.index as int]) == Some(m.score@)
            &&& m.timestamp == spec_timestamp(cands[m.index as int])
        }
    &&& forall|k: int, l: int|
        0 <= k < l < matches.len() ==> outranks(
            cands,
            (#[trigger] matches[k]).index as int,
            (#[trigger] matches[l]).index as int,
        )
    &&& matches.len() == if admitted_count(cands, f, cands.len() as int) <= limit {
        admitted_count(cands, f, cands.len() as int)
    } else {
        limit
    }
    &&& forall|i: int, k: int|
        #![trigger matches[k], reports(matches, i)]
        0 <= i < cands.len() && admitted(cands[i], f) && !reports(matches, i) && 0 <= k
            < matches.len() ==> outranks(cands, matches[k].index as int, i)
}

proof fn lemma_best_frame_unique(frames: Seq<FrameScore>, i: int, k: int)
    requires
        is_best_frame(frames, i),
        is_best_frame(frames, k),
    ensures
        i == k,
{
    assert(!frames[i].score.spec_is_nan());
    assert(!frames[k].score.spec_is_nan());
}

/// Finds the frame with the highest score that is a number, the earliest such
/// where several share it; `None` where no score is a number.
pub fn best_frame(frames: &Vec<FrameScore>) -> (best: Option<usize>)
    ensures
        match best {
            Some(i) => is_best_frame(frames@, i as int) && i as int == spec_best_frame(frames@),
            None => !has_best_frame(frames@),
        },
{
    let mut best: Option<usize> = None;
    let mut i: usize = 0;
    while i < frames.len()
        invariant
            i <= frames.len(),
            match best {
                Some(b) => is_best_frame(frames@.take(i as int), b as int),
                None => forall|j: int| 0 <= j < i ==> (#[trigger] frames[j]).score.spec_is_nan(),
            },
        decreases frames.len() - i,
    {
        let s = frames[i].score;
        let ghost seen = frames@.take(i as int);
        let ghost next = frames@.take(i + 1);
        if !s.is_nan() {
            match best {
                Some(b) => {
                    assert(seen[b as int] == frames[b as int]);
                    if s.key() > frames[b].score.key() {
                        best = Some(i);
                        assert forall|j: int|
                            0 <= j < next.len() && !(#[trigger] next[j]).score.spec_is_nan() implies next[j].score@
                            < next[i as int].score@ || (next[j].score@ == next[i as int].score@ && i
                            <= j) by {
                            if j < i {
                                assert(seen[j] == next[j]);
                            }
                        }
                    } else {
                        assert forall|j: int|
                            0 <= j < next.len() && !(#[trigger] next[j]).score.spec_is_nan() implies next[j].score@
                            < next[b as int].score@ || (next[j].score@ == next[b as int].score@ && b
                            <= j) by {
                            if j < i {
                                assert(seen[j] == next[j]);
                            }
                        }
                    }
                },
                None => {
                    best = Some(i);
                    assert forall|j: int|
                        0 <= j < next.len() && !(#[trigger] next[j]).score.spec_is_nan() implies next[j].score@
                        < next[i as int].score@ || (next[j].score@ == next[i as int].score@ && i
                        <= j) by {
                        if j < i {
                            assert(frames[j].score.spec_is_nan());
                        }
                    }
                },
            }
        } else {
            match best {
                Some(b) => {
                    assert(seen[b as int] == next[b as int]);
                    assert forall|j: int|
                        0 <= j < next.len() && !(#[trigger] next[j]).score.spec_is_nan() implies next[j].score@
                        < next[b as int].score@ || (next[j].score@ == next[b as int].score@ && b
                        <= j) by {
                        if j < i {
                            assert(seen[j] == next[j]);
                        }
                    }
                },
                None => {},
            }
        }
        i += 1;
    }
    proof {
        assert(frames@.take(frames.len() as int) == frames@);
        match best {
            Some(b) => {
                if has_best_frame(frames@) {
                    lemma_best_frame_unique(frames@, b as int, spec_best_frame(frames@));
                }
            },
            None => {
                if has_best_frame(frames@) {
                    let w = spec_best_frame(frames@);
                    assert(frames[w].score.spec_is_nan());
                }
            },
        }
    }
    best
}

/// Score and timestamp under which a candidate is ranked and reported;
/// `None` for a video without a frame whose score is a number.
pub fn score_of(c: &Candidate) -> (r: Option<(Scalar, Option<u64>)>)
    ensures
        match r {
            Some(found) => spec_score(*c) == Some(found.0@) && found.1 == spec_timestamp(*c),
            None => spec_score(*c) is None,
        },
{
    match &c.scores {
        Scores::Image(s) => Some((*s, None)),
        Scores::Video(frames) => {
            match best_frame(frames) {
                Some(i) => Some((frames[i].score, Some(frames[i].timestamp))),
                None => None,
            }
        },
    }
}

/// A list of candidates has one ranking only: two rankings under one filter
/// and one limit report the same candidates at the same places, with the
/// same scores and timestamps.
pub proof fn lemma_ranking_unique(
    cands: Seq<Candidate>,
    f: Filter,
    limit: int,
    a: Seq<Match>,
    b: Seq<Match>,
)
    requires
        is_ranking(cands, f, limit, a),
        is_ranking(cands, f, limit, b),
    ensures
        a.len() == b.len(),
        forall|k: int|
            0 <= k < a.len() ==> (#[trigger] a[k]).index == b[k].index && a[k].score@
                == b[k].score@ && a[k].timestamp == b[k].timestamp,
{
    lemma_rankings_agree(cands, f, limit, a, b, a.len() as int);
    assert forall|k: int| 0 <= k < a.len() implies (#[trigger] a[k]).index == b[k].index
        && a[k].score@ == b[k].score@ && a[k].timestamp == b[k].timestamp by {
        let x = a[k];
        let y = b[k];
        assert(x.index == y.index);
    }
}

proof fn lemma_rankings_agree(
    cands: Seq<Candidate>,
    f: Filter,
    limit: int,
    a: Seq<Match>,
    b: Seq<Match>,
    k: int,
)
    requires
        is_ranking(cands, f, limit, a),
        is_ranking(cands, f, limit, b),
        0 <= k <= a.len(),
    ensures
        a.len() == b.len(),
        forall|j: int| 0 <= j < k ==> (#[trigger] a[j]).index == b[j].index,
    decreases k,
{
    if k > 0 {
        lemma_rankings_agree(cands, f, limit, a, b, k - 1);
        let x = a[k - 1];
        let y = b[k - 1];
        let p = x.index as int;
        let q = y.index as int;
        if p != q {
            lemma_comes_later(cands, f, limit, a, b, k - 1);
            lemma_comes_later(cands, f, limit, b, a, k - 1);
        }
    }
}

/// Where two rankings agree before place `at` and differ there, the
/// candidate of the second outranks that of the first.
proof fn lemma_comes_later(
    cands: Seq<Candidate>,
    f: Filter,
    limit: int,
    a: Seq<Match>,
    b: Seq<Match>,
    at: int,
)
    requires
        is_ranking(cands, f, limit, a),
        is_ranking(cands, f, limit, b),
        a.len() == b.len(),
        0 <= at < a.len(),
        forall|j: int| 0 <= j < at ==> (#[trigger] a[j]).index == (#[trigger] b[j]).index,
        a[at].index != b[at].index,
    ensures
        outranks(cands, b[at].index as int, a[at].index as int),
{
    let x = a[at];
    let y = b[at];
    let p = x.index as int;
    if reports(b, p) {
        let m = choose|m: int| 0 <= m < b.len() && (#[trigger] b[m]).index == p;
        let z = b[m];
        if m < at {
            let w = a[m];
            assert(w.index == z.index);
            assert(outranks(cands, w.index as int, x.index as int));
        } else {
            assert(m > at);
            assert(outranks(cands, y.index as int, z.index as int));
        }
    } else {
        assert(admitted(cands[p], f));
        assert(outranks(cands, y.index as int, p));
    }
}

/// Whether two filters differ in their thresholds at most, the second
/// threshold being no lower than the first.
pub open spec fn raises_threshold(low: Filter, high: Filter) -> bool {
    &&& high.min_score.spec_ge(low.min_score)
    &&& high.exclude_videos == low.exclude_videos
    &&& high.include_ref == low.include_ref
    &&& (high.reference is Some <==> low.reference is Some)
    &&& (high.reference is Some ==> high.reference->0@ == low.reference->0@)
}

proof fn lemma_fewer_admitted(cands: Seq<Candidate>, low: Filter, high: Filter, n: int)
    requires
        raises_threshold(low, high),
        0 <= n <= cands.len(),
    ensures
        admitted_count(cands, high, n) <= admitted_count(cands, low, n),
    decreases n,
{
    if n > 0 {
        lemma_fewer_admitted(cands, low, high, n - 1);
    }
}

/// The places of a ranking, as the positions of the candidates they report.
spec fn reported(matches: Seq<Match>) -> Seq<int> {
    Seq::new(matches.len(), |k: int| matches[k].index as int)
}

/// Raising the threshold never adds a result: what is reported under the
/// higher threshold is reported under the lower one too, limit and all.
pub proof fn lemma_raising_threshold_adds_nothing(
    cands: Seq<Candidate>,
    low: Filter,
    high: Filter,
    limit: int,
    under_low: Seq<Match>,
    under_high: Seq<Match>,
)
    requires
        raises_threshold(low, high),
        is_ranking(cands, low, limit, under_low),
        is_ranking(cands, high, limit, under_high),
    ensures
        under_high.len() <= under_low.len(),
        forall|i: int| reports(under_high, i) ==> #[trigger] reports(under_low, i),
{
    lemma_fewer_admitted(cands, low, high, cands.len() as int);
    assert forall|i: int| reports(under_high, i) implies #[trigger] reports(under_low, i) by {
        if !reports(under_low, i) {
            let at = choose|at: int| 0 <= at < under_high.len() && (#[trigger] under_high[at]).index == i;
            let hit = under_high[at];
            assert(admitted(cands[i], high));
            assert(admitted(cands[i], low));
            let xs = reported(under_low).push(i);
            let ys = reported(under_high);
            assert forall|k: int| 0 <= k < xs.len() implies ys.contains(#[trigger] xs[k]) by {
                if k < under_low.len() {
                    let m = under_low[k];
                    let p = m.index as int;
                    assert(xs[k] == p);
                    assert(outranks(cands, m.index as int, i));
                    assert(admitted(cands[p], low));
                    assert(admitted(cands[p], high));
                    if !reports(under_high, p) {
                        assert(outranks(cands, hit.index as int, p));
                    }
                    let w = choose|w: int| 0 <= w < under_high.len() && (#[trigger] under_high[w]).index == p;
                    assert(ys[w] == p);
                } else {
                    assert(xs[k] == i);
                    assert(ys[at] == i);
                }
            }
            assert forall|k: int, l: int|
                0 <= k < xs.len() && 0 <= l < xs.len() && k != l implies xs[k] != xs[l] by {
                let (lo, hi) = if k < l {
                    (k, l)
                } else {
                    (l, k)
                };
                if hi < under_low.len() {
                    let u = under_low[lo];
                    let v = under_low[hi];
                    assert(outranks(cands, u.index as int, v.index as int));
                } else {
                    let u = under_low[lo];
                    assert(xs[lo] == u.index);
                    assert(xs[hi] == i);
                    if u.index == i {
                        assert(reports(under_low, i));
                    }
                }
            }
            assert(xs.no_duplicates());
            xs.unique_seq_to_set();
            ys.lemma_cardinality_of_set();
            vstd::seq_lib::seq_to_set_is_finite(ys);
            assert(xs.to_set().subset_of(ys.to_set())) by {
                assert forall|v: int| xs.to_set().contains(v) implies ys.to_set().contains(v) by {
                    let k = choose|k: int| 0 <= k < xs.len() && xs[k] == v;
                    assert(ys.contains(xs[k]));
                }
            }
            vstd::set_lib::lemma_len_subset(xs.to_set(), ys.to_set());
            assert(xs.len() == under_low.len() + 1);
            assert(ys.len() == under_high.len());
            assert(false);
        }
    }
}

/// Decides whether a candidate is reported at all, the limit aside, and
/// gives the score and timestamp it is reported with.
pub fn judge(c: &Candidate, f: &Filter) -> (r: Option<(Scalar, Option<u64>)>)
    ensures
        match r {
            Some(found) => admitted(*c, *f) && spec_score(*c) == Some(found.0@) && found.1
                == spec_timestamp(*c),
            None => !admitted(*c, *f),
        },
{
    let (score, timestamp) = match score_of(c) {
        Some(found) => found,
        None => {
            return None;
        },
    };
    let is_video = match &c.scores {
        Scores::Image(_) => false,
        Scores::Video(_) => true,
    };
    let dropped = !f.include_ref && match (&f.reference, &c.canonical) {
        (Some(r), Some(p)) => *p == *r,
        _ => false,
    };
    if !(f.exclude_videos && is_video) && score.ge(f.min_score) && !dropped {
        Some((score, timestamp))
    } else {
        None
    }
}

/// Ranks the candidates: those below the threshold, excluded videos and the
/// dropped reference image are left out, the others are reported by descending
/// score, equal scores in the order in which they stood, at most `limit` of
/// them.
pub fn rank(candidates: &Vec<Candidate>, f: &Filter, limit: usize) -> (matches: Vec<Match>)
    ensures
        is_ranking(candidates@, *f, limit as int, matches@),
{
    let mut picked: Vec<Match> = Vec::new();
    let mut keys: Vec<i64> = Vec::new();
    let mut i: usize = 0;
    while i < candidates.len()
        invariant
            i <= candidates.len(),
            picked.len() == keys.len(),
            picked.len() == admitted_count(candidates@, *f, i as int),
            forall|k: int|
                0 <= k < picked.len() ==> {
                    let m = #[trigger] picked[k];
                    &&& m.index < i
                    &&& admitted(candidates[m.index as int], *f)
                    &&& spec_score(candidates[m.index as int]) == Some(m.score@)
                    &&& m.timestamp == spec_timestamp(candidates[m.index as int])
                    &&& keys[k] == -m.score@
                },
            forall|k: int, l: int|
                0 <= k < l < picked.len() ==> (#[trigger] picked[k]).index < (
                #[trigger] picked[l]).index,
            forall|j: int|
                0 <= j < i && admitted(candidates[j], *f) ==> #[trigger] reports(picked@, j),
        decreases candidates.len() - i,
    {
        let ghost before = picked@;
        if let Some((score, timestamp)) = judge(&candidates[i], f) {
            picked.push(Match { index: i, score, timestamp });
            keys.push(-score.key());
            proof {
                assert(picked@[before.len() as int].index == i);
                assert forall|j: int|
                    0 <= j < i + 1 && admitted(candidates[j], *f) implies #[trigger] reports(
                    picked@,
                    j,
                ) by {
                    if j < i {
                        assert(reports(before, j));
                        let k = choose|k: int| 0 <= k < before.len() && before[k].index == j;
                        assert(picked@[k].index == j);
                    }
                }
            }
        }
        i += 1;
    }
    let order = stable_order(&keys);
    let take = if limit < order.len() {
        limit
    } else {
        order.len()
    };
    let mut matches: Vec<Match> = Vec::new();
    let mut t: usize = 0;
    while t < take
        invariant
            t <= take <= order.len(),
            order.len() == picked.len(),
            is_stable_order(keys@, order@),
            picked.len() == keys.len(),
            matches.len() == t,
            forall|k: int| 0 <= k < t ==> #[trigger] matches[k] == picked[order[k] as int],
        decreases take - t,
    {
        matches.push(picked[order[t]]);
        t += 1;
    }
    proof {
        let cands = candidates@;
        assert forall|k: int, l: int| 0 <= k < l < matches.len() implies outranks(
            cands,
            (#[trigger] matches[k]).index as int,
            (#[trigger] matches[l]).index as int,
        ) by {
            assert(precedes(keys@, order[k] as int, order[l] as int));
            let a = picked[order[k] as int];
            let b = picked[order[l] as int];
            assert(matches[k] == a && matches[l] == b);
        }
        assert forall|j: int, k: int|
            #![trigger matches[k], reports(matches@, j)]
            0 <= j < cands.len() && admitted(cands[j], *f) && !reports(matches@, j) && 0 <= k
                < matches.len() implies outranks(cands, matches[k].index as int, j) by {
            assert(reports(picked@, j));
            let p = choose|p: int| 0 <= p < picked.len() && picked[p].index == j;
            assert(order@.contains(p as usize));
            let q = choose|q: int| 0 <= q < order.len() && order[q] == p as usize;
            if q < matches.len() {
                assert(matches[q] == picked[order[q] as int]);
                assert(reports(matches@, j));
            }
            assert(precedes(keys@, order[k] as int, order[q] as int));
            assert(matches[k] == picked[order[k] as int]);
        }
    }
    matches
}

} // verus!
