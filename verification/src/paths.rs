//! Path arithmetic used by the crawler: recognizing audio candidates by
//! their extension and deriving the containing-directory ("album") path.
//!
//! Paths are treated as plain character sequences with `/` as the
//! separator; a path with no separator has no representable parent and
//! falls back to the sentinel `"Unknown"`.

use vstd::prelude::*;
use vstd::string::*;

verus! {

/// Whether the path ends in `.mp3`.
pub open spec fn spec_has_mp3_ext(s: Seq<char>) -> bool {
    &&& s.len() >= 4
    &&& s[s.len() - 4] == '.'
    &&& s[s.len() - 3] == 'm'
    &&& s[s.len() - 2] == 'p'
    &&& s[s.len() - 1] == '3'
}

/// Index of the last `/` in the path, or -1.
pub open spec fn last_slash(s: Seq<char>) -> int
    decreases s.len(),
{
    if s.len() == 0 {
        -1
    } else if s.last() == '/' {
        s.len() - 1
    } else {
        last_slash(s.drop_last())
    }
}

/// The containing directory: everything before the last `/`, or the
/// sentinel when the path has no separator.
pub open spec fn spec_parent_or_unknown(s: Seq<char>) -> Seq<char> {
    if last_slash(s) >= 0 {
        s.subrange(0, last_slash(s))
    } else {
        "Unknown"@
    }
}

pub proof fn lemma_last_slash(s: Seq<char>)
    ensures
        -1 <= last_slash(s) < s.len(),
        last_slash(s) >= 0 ==> s[last_slash(s)] == '/',
        forall|k: int| last_slash(s) < k < s.len() ==> s[k] != '/',
    decreases s.len(),
{
    if s.len() > 0 && s.last() != '/' {
        lemma_last_slash(s.drop_last());
        assert(forall|k: int| 0 <= k < s.len() - 1 ==> s.drop_last()[k] == #[trigger] s[k]);
    }
}

/// Whether the file path carries the `.mp3` extension.
pub fn has_mp3_extension(path: &str) -> (b: bool)
    ensures
        b == spec_has_mp3_ext(path@),
{
    let n = path.unicode_len();
    if n < 4 {
        return false;
    }
    let c0 = path.get_char(n - 4);
    let c1 = path.get_char(n - 3);
    let c2 = path.get_char(n - 2);
    let c3 = path.get_char(n - 1);
    c0 == '.' && c1 == 'm' && c2 == 'p' && c3 == '3'
}

/// The path of the immediate parent directory, or `"Unknown"` when the path
/// holds no separator at all.
pub fn parent_or_unknown(path: &str) -> (r: String)
    ensures
        r@ == spec_parent_or_unknown(path@),
{
    let n = path.unicode_len();
    let mut j: usize = n;
    while j > 0
        invariant
            0 <= j <= n,
            n == path@.len(),
            forall|k: int| j <= k < n ==> #[trigger] path@[k] != '/',
        decreases j,
    {
        let c = path.get_char(j - 1);
        if c == '/' {
            proof {
                lemma_last_slash(path@);
                assert(last_slash(path@) == j - 1) by {
                    if last_slash(path@) > j - 1 {
                        assert(path@[last_slash(path@)] != '/');
                    }
                }
            }
            let parent = path.substring_char(0, j - 1);
            return parent.to_owned();
        }
        j = j - 1;
    }
    proof {
        lemma_last_slash(path@);
        assert(last_slash(path@) == -1) by {
            if last_slash(path@) >= 0 {
                assert(path@[last_slash(path@)] != '/');
            }
        }
    }
    "Unknown".to_owned()
}

} // verus!
