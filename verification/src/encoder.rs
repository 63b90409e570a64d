use crate::config::{EMBEDDING_DIM, MAX_QUERY_TOKENS};
use crate::scalar::Scalar;
use crate::text::{chars_of, copy_range, is_whitespace, spec_is_blank, spec_is_whitespace, string_of};
use vstd::prelude::*;

verus! {

/// Why a query cannot be made.
#[derive(Clone, Copy, Debug, PartialEq, Eq, Structural)]
pub enum QueryError {
    /// The text of the query is empty or white space only.
    EmptyQuery,
    /// Neither a text nor a reference image was given.
    MissingInput,
    /// The weight of the text does not lie between zero and one.
    WeightOutOfRange,
}

/// What a query is made from.
#[derive(Clone, Copy, Debug, PartialEq, Eq, Structural)]
pub enum QueryKind {
    /// From a text alone.
    Text,
    /// From a reference image alone.
    Image,
    /// From both, blended by the weight of the text.
    Blend,
}

/// How the pooled output of a model is turned into an embedding.
#[derive(Clone, Copy, Debug, PartialEq, Eq, Structural)]
pub enum Pooling {
    /// The output is the embedding.
    Direct,
    /// The output holds `tokens` rows of `dim` values each: the embedding is
    /// their mean.
    Mean { tokens: usize, dim: usize },
    /// The output has another shape: the embedding is its first `count`
    /// values.
    Leading { count: usize },
    /// The output holds fewer values than its shape says.
    Mismatch,
}

/// Position of the first character of `s` that is no white space; the length
/// of `s` where there is none.
pub open spec fn spec_trim_start(s: Seq<char>) -> int
    decreases s.len(),
{
    if s.len() == 0 || !spec_is_whitespace(s[0]) {
        0
    } else {
        1 + spec_trim_start(s.drop_first())
    }
}

/// Position behind the last character of `s` that is no white space; 0 where
/// there is none.
pub open spec fn spec_trim_end(s: Seq<char>) -> int
    decreases s.len(),
{
    if s.len() == 0 || !spec_is_whitespace(s.last()) {
        s.len() as int
    } else {
        spec_trim_end(s.drop_last())
    }
}

/// A text without the white space at its two ends.
pub open spec fn spec_trim(s: Seq<char>) -> Seq<char> {
    if spec_trim_start(s) >= spec_trim_end(s) {
        Seq::empty()
    } else {
        s.subrange(spec_trim_start(s), spec_trim_end(s))
    }
}

/// The first character that is no white space stands where `spec_trim_start`
/// says.
pub proof fn lemma_trim_start(s: Seq<char>)
    ensures
        0 <= spec_trim_start(s) <= s.len(),
        forall|k: int| 0 <= k < spec_trim_start(s) ==> spec_is_whitespace(#[trigger] s[k]),
        spec_trim_start(s) < s.len() ==> !spec_is_whitespace(s[spec_trim_start(s)]),
        spec_trim_start(s) == s.len() <==> spec_is_blank(s),
    decreases s.len(),
{
    if s.len() > 0 && spec_is_whitespace(s[0]) {
        lemma_trim_start(s.drop_first());
        assert forall|k: int| 0 <= k < spec_trim_start(s) implies spec_is_whitespace(
            #[trigger] s[k],
        ) by {
            if k > 0 {
                assert(s.drop_first()[k - 1] == s[k]);
            }
        }
        if spec_is_blank(s) {
            assert forall|k: int| 0 <= k < s.drop_first().len() implies spec_is_whitespace(
                #[trigger] s.drop_first()[k],
            ) by {
                assert(s.drop_first()[k] == s[k + 1]);
            }
        }
    } else if s.len() > 0 {
        assert(!spec_is_whitespace(s[0]));
    }
}

/// The last character that is no white space stands before where
/// `spec_trim_end` says.
pub proof fn lemma_trim_end(s: Seq<char>)
    ensures
        0 <= spec_trim_end(s) <= s.len(),
        forall|k: int| spec_trim_end(s) <= k < s.len() ==> spec_is_whitespace(#[trigger] s[k]),
        spec_trim_end(s) > 0 ==> !spec_is_whitespace(s[spec_trim_end(s) - 1]),
    decreases s.len(),
{
    if s.len() > 0 && spec_is_whitespace(s.last()) {
        lemma_trim_end(s.drop_last());
        assert forall|k: int| spec_trim_end(s) <= k < s.len() implies spec_is_whitespace(
            #[trigger] s[k],
        ) by {
            if k < s.len() - 1 {
                assert(s.drop_last()[k] == s[k]);
            }
        }
    }
}

proof fn lemma_trim_start_is(s: Seq<char>, at: int)
    requires
        0 <= at <= s.len(),
        forall|k: int| 0 <= k < at ==> spec_is_whitespace(#[trigger] s[k]),
        at < s.len() ==> !spec_is_whitespace(s[at]),
    ensures
        spec_trim_start(s) == at,
{
    lemma_trim_start(s);
}

proof fn lemma_trim_end_is(s: Seq<char>, at: int)
    requires
        0 <= at <= s.len(),
        forall|k: int| at <= k < s.len() ==> spec_is_whitespace(#[trigger] s[k]),
        at > 0 ==> !spec_is_whitespace(s[at - 1]),
    ensures
        spec_trim_end(s) == at,
{
    lemma_trim_end(s);
}

/// Prepares the text of a query: the white space at its two ends is taken
/// off, and a text of which nothing is left is refused.
pub fn prepare_query(text: &str) -> (query: Result<String, QueryError>)
    ensures
        match query {
            Ok(q) => !spec_is_blank(text@) && q@ == spec_trim(text@),
            Err(e) => spec_is_blank(text@) && e == QueryError::EmptyQuery,
        },
{
    let chars = chars_of(text);
    let mut start: usize = 0;
    while start < chars.len() && is_whitespace(chars[start])
        invariant
            start <= chars.len(),
            forall|k: int| 0 <= k < start ==> spec_is_whitespace(#[trigger] chars[k]),
        decreases chars.len() - start,
    {
        start += 1;
    }
    proof {
        lemma_trim_start_is(chars@, start as int);
        lemma_trim_start(chars@);
    }
    if start == chars.len() {
        return Err(QueryError::EmptyQuery);
    }
    let mut end: usize = chars.len();
    while end > 0 && is_whitespace(chars[end - 1])
        invariant
            end <= chars.len(),
            forall|k: int| end <= k < chars.len() ==> spec_is_whitespace(#[trigger] chars[k]),
        decreases end,
    {
        end -= 1;
    }
    proof {
        lemma_trim_end_is(chars@, end as int);
        assert(start < end) by {
            if end <= start {
                assert(spec_is_whitespace(chars[start as int]));
            }
        }
    }
    let kept = copy_range(chars.as_slice(), start, end);
    Ok(string_of(kept.as_slice()))
}

/// Settles what a query is made from.
pub fn query_kind(has_text: bool, has_image: bool) -> (kind: Result<QueryKind, QueryError>)
    ensures
        kind == match (has_text, has_image) {
            (true, true) => Ok::<QueryKind, QueryError>(QueryKind::Blend),
            (true, false) => Ok(QueryKind::Text),
            (false, true) => Ok(QueryKind::Image),
            (false, false) => Err(QueryError::MissingInput),
        },
{
    match (has_text, has_image) {
        (true, true) => Ok(QueryKind::Blend),
        (true, false) => Ok(QueryKind::Text),
        (false, true) => Ok(QueryKind::Image),
        (false, false) => Err(QueryError::MissingInput),
    }
}

/// Takes a weight of the text where it lies between zero and one.
pub fn check_weight(weight: Scalar) -> (checked: Result<Scalar, QueryError>)
    ensures
        match checked {
            Ok(w) => 0 <= weight@ <= crate::scalar::ONE_KEY && w == weight,
            Err(e) => !(0 <= weight@ <= crate::scalar::ONE_KEY) && e
                == QueryError::WeightOutOfRange,
        },
{
    if weight.is_unit_interval() {
        Ok(weight)
    } else {
        Err(QueryError::WeightOutOfRange)
    }
}

/// Cuts the tokens of a query down to what the text model takes. The flag
/// says whether tokens were dropped.
pub fn clamp_tokens(tokens: Vec<i64>) -> (clamped: (Vec<i64>, bool))
    ensures
        clamped.1 == (tokens.len() > MAX_QUERY_TOKENS),
        clamped.0@ == if tokens.len() > MAX_QUERY_TOKENS {
            tokens@.take(MAX_QUERY_TOKENS as int)
        } else {
            tokens@
        },
{
    if tokens.len() > MAX_QUERY_TOKENS {
        let mut kept: Vec<i64> = Vec::new();
        let mut i: usize = 0;
        while i < MAX_QUERY_TOKENS
            invariant
                i <= MAX_QUERY_TOKENS < tokens.len(),
                kept@ == tokens@.take(i as int),
            decreases MAX_QUERY_TOKENS - i,
        {
            kept.push(tokens[i]);
            assert(tokens@.take(i + 1) =~= tokens@.take(i as int).push(tokens[i as int]));
            i += 1;
        }
        (kept, true)
    } else {
        (tokens, false)
    }
}

/// How an output of this shape, holding `values` values, is pooled. A shape
/// of one row is the embedding itself; a shape of one batch of rows is
/// averaged over the rows; of any other shape the leading values are taken,
/// as many as the default model has components.
pub open spec fn spec_pooling(shape: Seq<i64>, values: int) -> Pooling {
    if shape.len() == 2 && shape[0] == 1 && shape[1] >= 0 {
        if shape[1] <= values {
            Pooling::Direct
        } else {
            Pooling::Mismatch
        }
    } else if shape.len() == 3 && shape[0] == 1 && shape[1] > 0 && shape[2] > 0 {
        if shape[1] * shape[2] <= values {
            Pooling::Mean { tokens: shape[1] as usize, dim: shape[2] as usize }
        } else {
            Pooling::Mismatch
        }
    } else if values < EMBEDDING_DIM {
        Pooling::Leading { count: values as usize }
    } else {
        Pooling::Leading { count: EMBEDDING_DIM }
    }
}

/// Decides how the pooled output of a model is turned into an embedding.
pub fn pooling(shape: &[i64], values: usize) -> (p: Pooling)
    ensures
        p == spec_pooling(shape@, values as int),
{
    if shape.len() == 2 && shape[0] == 1 && shape[1] >= 0 {
        if (shape[1] as u64) <= (values as u64) {
            Pooling::Direct
        } else {
            Pooling::Mismatch
        }
    } else if shape.len() == 3 && shape[0] == 1 && shape[1] > 0 && shape[2] > 0 {
        let rows: u128 = shape[1] as u128;
        let dim: u128 = shape[2] as u128;
        assert(0 <= shape[1] * shape[2] <= 0x7fff_ffff_ffff_ffff * 0x7fff_ffff_ffff_ffff)
            by (nonlinear_arith)
            requires
                0 <= shape[1] <= 0x7fff_ffff_ffff_ffff,
                0 <= shape[2] <= 0x7fff_ffff_ffff_ffff,
        ;
        if rows * dim <= (values as u128) {
            assert(shape[1] <= values && shape[2] <= values) by (nonlinear_arith)
                requires
                    shape[1] * shape[2] <= values,
                    shape[1] > 0,
                    shape[2] > 0,
                    values >= 0,
            ;
            Pooling::Mean { tokens: shape[1] as usize, dim: shape[2] as usize }
        } else {
            Pooling::Mismatch
        }
    } else if values < EMBEDDING_DIM {
        Pooling::Leading { count: values }
    } else {
        Pooling::Leading { count: EMBEDDING_DIM }
    }
}

/// Where the value of channel `channel` of the pixel in row `y` and column
/// `x` stands in the input of the vision model: the channels one after the
/// other, each row by row.
pub fn pixel_index(channel: usize, y: usize, x: usize, size: usize) -> (at: usize)
    requires
        channel < 3,
        y < size,
        x < size,
        3 * size * size <= usize::MAX,
    ensures
        at == channel * size * size + y * size + x,
        at < 3 * size * size,
{
    assert(channel * size * size + y * size + x < 3 * size * size) by (nonlinear_arith)
        requires
            0 <= channel < 3,
            0 <= y < size,
            0 <= x < size,
    ;
    assert(0 <= channel * size <= 3 * size <= 3 * size * size && 0 <= channel * size * size <= 3
        * size * size && 0 <= y * size <= size * size <= 3 * size * size) by (nonlinear_arith)
        requires
            0 <= channel < 3,
            0 <= y < size,
    ;
    channel * size * size + y * size + x
}

} // verus!
