//! Paths as texts.
//!
//! A path is a text in which `/` separates the components, whatever the
//! platform writes; the caller hands paths over in that form. Separators at
//! the end of a path are not part of it: `a/b/` names what `a/b` names. A
//! path that begins with a separator is absolute, and `/` alone is the root.

use crate::text::{chars_of, copy_range, last_index_of, spec_last_index_of, string_of};
use vstd::prelude::*;

verus! {

/// Paths are texts whose components are separated by this character.
pub const SEPARATOR: char = '/';

/// A path without the separators that end it.
pub open spec fn spec_trim_separators(path: Seq<char>) -> Seq<char>
    decreases path.len(),
{
    if path.len() > 0 && path.last() == SEPARATOR {
        spec_trim_separators(path.drop_last())
    } else {
        path
    }
}

/// The last component of a path: what follows the last separator of the path
/// without the separators that end it. The root and the empty path have the
/// empty text for it.
pub open spec fn spec_file_name(path: Seq<char>) -> Seq<char> {
    let trimmed = spec_trim_separators(path);
    trimmed.subrange(spec_last_index_of(trimmed, SEPARATOR) + 1, trimmed.len() as int)
}

/// The directory that holds the last component of a path: what stands before
/// that component, without the separators between the two, and the root
/// where nothing but separators stands before it. A path of one component
/// that does not begin at the root lies in the empty directory. The root and
/// the empty path lie in no directory.
pub open spec fn spec_parent(path: Seq<char>) -> Option<Seq<char>> {
    let trimmed = spec_trim_separators(path);
    let at = spec_last_index_of(trimmed, SEPARATOR);
    if trimmed.len() == 0 {
        None
    } else if at < 0 {
        Some(Seq::empty())
    } else if spec_trim_separators(trimmed.subrange(0, at + 1)).len() == 0 {
        Some(seq![SEPARATOR])
    } else {
        Some(spec_trim_separators(trimmed.subrange(0, at + 1)))
    }
}

/// The extension of a file name: what follows its last dot. A name without a
/// dot, a name whose only dot is its first character, and the name `..` have
/// none.
pub open spec fn spec_name_extension(name: Seq<char>) -> Option<Seq<char>> {
    if spec_last_index_of(name, '.') <= 0 || name == seq!['.', '.'] {
        None
    } else {
        Some(name.subrange(spec_last_index_of(name, '.') + 1, name.len() as int))
    }
}

/// The extension of the last component of a path.
pub open spec fn spec_extension(path: Seq<char>) -> Option<Seq<char>> {
    spec_name_extension(spec_file_name(path))
}

/// A directory and a name put together: a name that begins at the root
/// stands for itself, a name under the empty directory likewise, and any
/// other name follows the directory with one separator between the two.
pub open spec fn spec_join(dir: Seq<char>, name: Seq<char>) -> Seq<char> {
    if (name.len() > 0 && name[0] == SEPARATOR) || dir.len() == 0 {
        name
    } else if dir.last() == SEPARATOR {
        dir + name
    } else {
        dir.push(SEPARATOR) + name
    }
}

/// A path without the separators that end it is a beginning of the path,
/// does not end in a separator, and is followed by separators only.
pub proof fn lemma_trim_separators(path: Seq<char>)
    ensures
        spec_trim_separators(path).len() <= path.len(),
        spec_trim_separators(path) == path.subrange(0, spec_trim_separators(path).len() as int),
        spec_trim_separators(path).len() > 0 ==> spec_trim_separators(path).last() != SEPARATOR,
        forall|k: int| spec_trim_separators(path).len() <= k < path.len() ==> path[k] == SEPARATOR,
    decreases path.len(),
{
    if path.len() > 0 && path.last() == SEPARATOR {
        let head = path.drop_last();
        lemma_trim_separators(head);
        let n = spec_trim_separators(path).len() as int;
        assert(head.subrange(0, n) =~= path.subrange(0, n));
        assert forall|k: int| n <= k < path.len() implies path[k] == SEPARATOR by {
            if k < head.len() {
                assert(head[k] == path[k]);
            }
        }
    } else {
        assert(path.subrange(0, path.len() as int) =~= path);
    }
}

proof fn lemma_trim_separators_is(path: Seq<char>, n: int)
    requires
        0 <= n <= path.len(),
        n > 0 ==> path[n - 1] != SEPARATOR,
        forall|k: int| n <= k < path.len() ==> path[k] == SEPARATOR,
    ensures
        spec_trim_separators(path) == path.subrange(0, n),
    decreases path.len(),
{
    if path.len() > 0 && path.last() == SEPARATOR {
        let head = path.drop_last();
        assert(n < path.len());
        lemma_trim_separators_is(head, n);
        assert(head.subrange(0, n) =~= path.subrange(0, n));
    } else {
        assert(n == path.len());
        assert(path.subrange(0, n) =~= path);
    }
}

/// A separator at the end of a path changes nothing: the path names the
/// same last component, with the same extension, in the same directory.
pub proof fn lemma_ignores_separator_at_end(path: Seq<char>)
    ensures
        spec_file_name(path.push(SEPARATOR)) == spec_file_name(path),
        spec_extension(path.push(SEPARATOR)) == spec_extension(path),
        spec_parent(path.push(SEPARATOR)) == spec_parent(path),
{
    assert(path.push(SEPARATOR).drop_last() =~= path);
}

/// The last component of a path holds no separator.
pub proof fn lemma_file_name_is_plain(path: Seq<char>)
    ensures
        !spec_file_name(path).contains(SEPARATOR),
{
    let trimmed = spec_trim_separators(path);
    crate::text::lemma_last_index_of(trimmed, SEPARATOR);
    let name = spec_file_name(path);
    let start = spec_last_index_of(trimmed, SEPARATOR) + 1;
    if name.contains(SEPARATOR) {
        let k = choose|k: int| 0 <= k < name.len() && name[k] == SEPARATOR;
        assert(trimmed[start + k] == SEPARATOR);
    }
}

/// Number of characters of a path before the separators that end it.
fn trimmed_len(path: &[char], upto: usize) -> (n: usize)
    requires
        upto <= path.len(),
    ensures
        n <= upto,
        path@.subrange(0, n as int) == spec_trim_separators(path@.subrange(0, upto as int)),
{
    let mut n: usize = upto;
    while n > 0 && path[n - 1] == SEPARATOR
        invariant
            n <= upto <= path.len(),
            forall|k: int| n <= k < upto ==> path[k] == SEPARATOR,
        decreases n,
    {
        n -= 1;
    }
    proof {
        let whole = path@.subrange(0, upto as int);
        lemma_trim_separators_is(whole, n as int);
        assert(whole.subrange(0, n as int) =~= path@.subrange(0, n as int));
    }
    n
}

/// The last component of a path, as characters.
pub fn file_name_chars(path: &[char]) -> (name: Vec<char>)
    ensures
        name@ == spec_file_name(path@),
{
    let len = path.len();
    assert(path@.subrange(0, len as int) =~= path@);
    let n = trimmed_len(path, len);
    let trimmed = copy_range(path, 0, n);
    proof {
        crate::text::lemma_last_index_of(trimmed@, SEPARATOR);
    }
    let start = match last_index_of(trimmed.as_slice(), SEPARATOR) {
        Some(at) => {
            assert(at < n);
            at + 1
        },
        None => 0,
    };
    copy_range(trimmed.as_slice(), start, n)
}

/// The last component of a path.
pub fn file_name(path: &str) -> (name: String)
    ensures
        name@ == spec_file_name(path@),
{
    let chars = chars_of(path);
    let name = file_name_chars(chars.as_slice());
    string_of(name.as_slice())
}

/// The directory that holds the last component of a path.
pub fn parent(path: &str) -> (dir: Option<String>)
    ensures
        match dir {
            Some(d) => spec_parent(path@) == Some(d@),
            None => spec_parent(path@) is None,
        },
{
    let chars = chars_of(path);
    let len = chars.len();
    assert(chars@.subrange(0, len as int) =~= chars@);
    let n = trimmed_len(chars.as_slice(), len);
    if n == 0 {
        return None;
    }
    let trimmed = copy_range(chars.as_slice(), 0, n);
    proof {
        crate::text::lemma_last_index_of(trimmed@, SEPARATOR);
    }
    match last_index_of(trimmed.as_slice(), SEPARATOR) {
        Some(at) => {
            assert(at < n);
            let m = trimmed_len(trimmed.as_slice(), at + 1);
            if m == 0 {
                let mut root = String::new();
                root.push(SEPARATOR);
                assert(root@ =~= seq![SEPARATOR]);
                Some(root)
            } else {
                let head = copy_range(trimmed.as_slice(), 0, m);
                Some(string_of(head.as_slice()))
            }
        },
        None => Some(String::new()),
    }
}

/// The extension of the last component of a path, as characters.
pub fn extension_chars(path: &[char]) -> (ext: Option<Vec<char>>)
    ensures
        match ext {
            Some(e) => spec_extension(path@) == Some(e@),
            None => spec_extension(path@) is None,
        },
{
    let name = file_name_chars(path);
    proof {
        crate::text::lemma_last_index_of(name@, '.');
    }
    match last_index_of(name.as_slice(), '.') {
        Some(dot) => {
            if dot == 0 {
                None
            } else if name.len() == 2 && name[0] == '.' {
                assert(name@ =~= seq!['.', '.']);
                None
            } else {
                assert(name@ != seq!['.', '.']) by {
                    if name@ == seq!['.', '.'] {
                        assert(name@.len() == 2);
                        assert(name@[0] == seq!['.', '.'][0]);
                    }
                }
                Some(copy_range(name.as_slice(), dot + 1, name.len()))
            }
        },
        None => None,
    }
}

/// A directory and a name put together.
pub fn join(dir: &str, name: &str) -> (path: String)
    ensures
        path@ == spec_join(dir@, name@),
{
    let d = chars_of(dir);
    let n = chars_of(name);
    if (n.len() > 0 && n[0] == SEPARATOR) || d.len() == 0 {
        return string_of(n.as_slice());
    }
    let mut out: Vec<char> = Vec::new();
    let mut i: usize = 0;
    while i < d.len()
        invariant
            i <= d.len(),
            out@ == d@.take(i as int),
        decreases d.len() - i,
    {
        out.push(d[i]);
        i += 1;
    }
    assert(d@.take(d.len() as int) == d@);
    if d[d.len() - 1] != SEPARATOR {
        out.push(SEPARATOR);
    }
    let ghost head = out@;
    let mut j: usize = 0;
    while j < n.len()
        invariant
            j <= n.len(),
            out@ == head + n@.take(j as int),
        decreases n.len() - j,
    {
        out.push(n[j]);
        j += 1;
    }
    assert(n@.take(n.len() as int) == n@);
    assert(out@ =~= spec_join(dir@, name@));
    string_of(out.as_slice())
}

} // verus!
