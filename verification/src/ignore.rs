use crate::text::{chars_of, contains, copy_range, is_blank, spec_contains, spec_is_blank, string_of};
use vstd::prelude::*;

verus! {

/// What `str::to_lowercase` of the standard library returns for a text: its
/// lower-case form as Unicode defines it.
pub uninterp spec fn lowercase_of(s: Seq<char>) -> Seq<char>;

/// Calls `str::to_lowercase`. The result depends on the text alone; nothing
/// more is claimed of it.
#[verifier::external_body]
pub(crate) fn to_lowercase(s: &str) -> (r: String)
    ensures
        r@ == lowercase_of(s@),
{
    s.to_lowercase()
}

/// Position of the first `c` in `s`, or the length of `s` where it holds
/// none.
pub open spec fn spec_first_index_of(s: Seq<char>, c: char) -> int
    decreases s.len(),
{
    if s.len() == 0 {
        0
    } else if s[0] == c {
        0
    } else {
        1 + spec_first_index_of(s.drop_first(), c)
    }
}

/// The first `c` of `s` stands where `spec_first_index_of` says, and none
/// stands before it.
pub proof fn lemma_first_index_of(s: Seq<char>, c: char)
    ensures
        0 <= spec_first_index_of(s, c) <= s.len(),
        spec_first_index_of(s, c) < s.len() ==> s[spec_first_index_of(s, c)] == c,
        forall|k: int| 0 <= k < spec_first_index_of(s, c) ==> s[k] != c,
    decreases s.len(),
{
    if s.len() > 0 && s[0] != c {
        lemma_first_index_of(s.drop_first(), c);
        assert forall|k: int| 0 <= k < spec_first_index_of(s, c) implies s[k] != c by {
            if k > 0 {
                assert(s.drop_first()[k - 1] == s[k]);
            }
        }
    }
}

/// A line without the carriage return that may end it.
pub open spec fn spec_strip_cr(line: Seq<char>) -> Seq<char> {
    if line.len() > 0 && line.last() == '\r' {
        line.drop_last()
    } else {
        line
    }
}

/// Whether a line of an ignore file is a pattern: it is not blank and does
/// not begin with `#`.
pub open spec fn is_pattern_line(line: Seq<char>) -> bool {
    !spec_is_blank(line) && !(line.len() > 0 && line[0] == '#')
}

/// The patterns of an ignore file: its lines, as they stand, but for blank
/// lines and comments. A line ends at a line feed, or at a carriage return
/// followed by one.
pub open spec fn spec_patterns(text: Seq<char>) -> Seq<Seq<char>>
    decreases text.len(),
{
    let n = spec_first_index_of(text, '\n');
    if text.len() == 0 {
        Seq::empty()
    } else if 0 <= n < text.len() {
        let line = spec_strip_cr(text.subrange(0, n));
        let rest = text.subrange(n + 1, text.len() as int);
        if is_pattern_line(line) {
            seq![line] + spec_patterns(rest)
        } else {
            spec_patterns(rest)
        }
    } else if is_pattern_line(text) {
        seq![text]
    } else {
        Seq::empty()
    }
}

/// Whether a path is ignored under the patterns: some pattern, in lower
/// case, stands in the path in lower case.
pub open spec fn spec_is_ignored(path: Seq<char>, patterns: Seq<String>) -> bool {
    exists|k: int|
        0 <= k < patterns.len() && spec_contains(
            lowercase_of(path),
            lowercase_of((#[trigger] patterns[k])@),
        )
}

proof fn lemma_first_index_of_is(s: Seq<char>, c: char, at: int)
    requires
        0 <= at <= s.len(),
        at < s.len() ==> s[at] == c,
        forall|k: int| 0 <= k < at ==> s[k] != c,
    ensures
        spec_first_index_of(s, c) == at,
{
    lemma_first_index_of(s, c);
}

/// Reads the patterns of an ignore file.
pub fn parse_ignore_file(text: &str) -> (patterns: Vec<String>)
    ensures
        patterns.len() == spec_patterns(text@).len(),
        forall|k: int| 0 <= k < patterns.len() ==> (#[trigger] patterns[k])@ == spec_patterns(text@)[k],
{
    let chars = chars_of(text);
    let len = chars.len();
    let mut patterns: Vec<String> = Vec::new();
    let ghost mut found: Seq<Seq<char>> = Seq::empty();
    let mut pos: usize = 0;
    assert(text@.subrange(0, len as int) == text@);
    while pos < len
        invariant
            pos <= len,
            len == chars.len(),
            chars@ == text@,
            patterns.len() == found.len(),
            forall|k: int| 0 <= k < patterns.len() ==> (#[trigger] patterns[k])@ == found[k],
            spec_patterns(text@) == found + spec_patterns(text@.subrange(pos as int, len as int)),
        decreases len - pos,
    {
        let ghost rest = text@.subrange(pos as int, len as int);
        let mut end: usize = pos;
        while end < len && chars[end] != '\n'
            invariant
                pos <= end <= len,
                len == chars.len(),
                forall|k: int| pos <= k < end ==> chars[k] != '\n',
            decreases len - end,
        {
            end += 1;
        }
        proof {
            lemma_first_index_of_is(rest, '\n', end - pos);
            assert(rest.subrange(0, end - pos) =~= chars@.subrange(pos as int, end as int));
            if end == len {
                assert(rest.subrange(0, end - pos) =~= rest);
            }
        }
        let stop = if end < len && end > pos && chars[end - 1] == '\r' {
            end - 1
        } else {
            end
        };
        let line = copy_range(chars.as_slice(), pos, stop);
        assert(end < len ==> line@ =~= spec_strip_cr(rest.subrange(0, end - pos)));
        assert(end == len ==> line@ =~= rest);
        let keep = !is_blank(line.as_slice()) && !(line.len() > 0 && line[0] == '#');
        let next = if end < len {
            end + 1
        } else {
            end
        };
        proof {
            let tail = text@.subrange(next as int, len as int);
            if end < len {
                assert(rest.subrange(end - pos + 1, rest.len() as int) =~= tail);
            } else {
                assert(spec_patterns(tail) == Seq::<Seq<char>>::empty());
                assert(seq![line@] + Seq::<Seq<char>>::empty() =~= seq![line@]);
            }
            if keep {
                assert(found.push(line@) + spec_patterns(tail) =~= found + (seq![line@]
                    + spec_patterns(tail)));
            }
        }
        if keep {
            patterns.push(string_of(line.as_slice()));
            proof {
                found = found.push(line@);
            }
        }
        pos = next;
    }
    assert(spec_patterns(text@.subrange(len as int, len as int)) == Seq::<Seq<char>>::empty());
    assert(found + Seq::<Seq<char>>::empty() =~= found);
    patterns
}

/// Whether some of the patterns stands in the path. Path and patterns are
/// compared as they are handed in.
pub fn matches_any(path: &[char], patterns: &Vec<Vec<char>>) -> (r: bool)
    ensures
        r == exists|k: int|
            0 <= k < patterns.len() && spec_contains(path@, (#[trigger] patterns[k])@),
{
    let mut k: usize = 0;
    while k < patterns.len()
        invariant
            k <= patterns.len(),
            forall|j: int| 0 <= j < k ==> !spec_contains(path@, (#[trigger] patterns[j])@),
        decreases patterns.len() - k,
    {
        if contains(path, patterns[k].as_slice()) {
            return true;
        }
        k += 1;
    }
    false
}

/// Whether a path is ignored under the patterns of an ignore file or of an
/// exclusion list: letter case aside, some pattern stands in the path.
pub fn is_ignored(path: &str, patterns: &Vec<String>) -> (r: bool)
    ensures
        r == spec_is_ignored(path@, patterns@),
{
    let lowered = to_lowercase(path);
    let hay = chars_of(lowered.as_str());
    let mut needles: Vec<Vec<char>> = Vec::new();
    let mut k: usize = 0;
    while k < patterns.len()
        invariant
            k <= patterns.len(),
            needles.len() == k,
            forall|j: int|
                0 <= j < k ==> (#[trigger] needles[j])@ == lowercase_of(patterns[j]@),
        decreases patterns.len() - k,
    {
        let low = to_lowercase(patterns[k].as_str());
        needles.push(chars_of(low.as_str()));
        k += 1;
    }
    let r = matches_any(hay.as_slice(), &needles);
    proof {
        if r {
            let w = choose|w: int| 0 <= w < needles.len() && spec_contains(hay@, (#[trigger] needles[w])@);
            assert(spec_contains(lowercase_of(path@), lowercase_of(patterns[w]@)));
        } else {
            assert forall|j: int| 0 <= j < patterns.len() implies !spec_contains(
                lowercase_of(path@),
                lowercase_of((#[trigger] patterns[j])@),
            ) by {
                assert(needles[j]@ == lowercase_of(patterns[j]@));
            }
        }
    }
    r
}

} // verus!
