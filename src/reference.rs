use vstd::prelude::*;

use crate::error::ReleaseError;
use crate::text::{chars_of, has_blank, is_blank};

verus! {

/// `i` and `j` split `s` as `owner/repo@version`: `j` is the last `@`, `i`
/// the last `/` before it, and no part is empty.
pub open spec fn splits_at(s: Seq<char>, i: int, j: int) -> bool {
    &&& 0 < i
    &&& i + 1 < j
    &&& j + 1 < s.len()
    &&& s[i] == '/'
    &&& s[j] == '@'
    &&& forall|k: int| j < k < s.len() ==> #[trigger] s[k] != '@'
    &&& forall|k: int| i < k < j ==> #[trigger] s[k] != '/'
}

/// `s` has no blank in it.
pub open spec fn blank_free(s: Seq<char>) -> bool {
    forall|k: int| 0 <= k < s.len() ==> !is_blank(#[trigger] s[k])
}

/// The characters of `cs` from `lo` up to `hi`.
pub fn slice_chars(cs: &Vec<char>, lo: usize, hi: usize) -> (r: Vec<char>)
    requires
        lo <= hi <= cs@.len(),
    ensures
        r@ == cs@.subrange(lo as int, hi as int),
{
    let mut out: Vec<char> = Vec::new();
    let mut k: usize = lo;
    while k < hi
        invariant
            lo <= k <= hi <= cs@.len(),
            out@ == cs@.subrange(lo as int, k as int),
        decreases hi - k,
    {
        out.push(cs[k]);
        proof {
            assert(cs@.subrange(lo as int, k + 1) =~= cs@.subrange(lo as int, k as int).push(cs@[k as int]));
        }
        k = k + 1;
    }
    out
}

/// The position of the last `c` among the first `end` characters of `cs`.
pub fn last_index_of(cs: &Vec<char>, c: char, end: usize) -> (r: Option<usize>)
    requires
        end <= cs@.len(),
    ensures
        r matches Some(a) ==> a < end && cs@[a as int] == c && forall|k: int|
            a < k < end ==> #[trigger] cs@[k] != c,
        r is None ==> forall|k: int| 0 <= k < end ==> #[trigger] cs@[k] != c,
{
    let mut found: Option<usize> = None;
    let mut k: usize = 0;
    while k < end
        invariant
            k <= end <= cs@.len(),
            found matches Some(a) ==> a < k && cs@[a as int] == c && forall|m: int|
                a < m < k ==> #[trigger] cs@[m] != c,
            found is None ==> forall|m: int| 0 <= m < k ==> #[trigger] cs@[m] != c,
        decreases end - k,
    {
        if cs[k] == c {
            found = Some(k);
        }
        k = k + 1;
    }
    found
}

/// Splits a repository reference written `owner/repo@version` into its
/// three parts. The version follows the last `@`; owner and repository are
/// split at the last `/` before it. `ConfigInvalid` when the text holds a
/// blank, or no such split leaves all three parts non-empty.
pub fn split_repo_ref(s: &str) -> (r: Result<(Vec<char>, Vec<char>, Vec<char>), ReleaseError>)
    ensures
        r matches Ok((owner, repo, version)) ==> blank_free(s@) && exists|i: int, j: int|
            splits_at(s@, i, j) && owner@ == s@.take(i) && repo@ == s@.subrange(i + 1, j)
                && version@ == s@.skip(j + 1),
        r is Err ==> r == Err::<(Vec<char>, Vec<char>, Vec<char>), ReleaseError>(
            ReleaseError::ConfigInvalid,
        ),
        r is Err <==> !(blank_free(s@) && exists|i: int, j: int| splits_at(s@, i, j)),
{
    let cs = chars_of(s);
    let n = cs.len();
    if has_blank(&cs) {
        return Err(ReleaseError::ConfigInvalid);
    }
    let j = match last_index_of(&cs, '@', n) {
        Some(j) => j,
        None => {
            proof {
                assert forall|i: int, j: int| !splits_at(s@, i, j) by {
                    if splits_at(s@, i, j) {
                        assert(cs@[j] == '@');
                    }
                }
            }
            return Err(ReleaseError::ConfigInvalid);
        },
    };
    let i = match last_index_of(&cs, '/', j) {
        Some(i) => i,
        None => {
            proof {
                assert forall|a: int, b: int| !splits_at(s@, a, b) by {
                    if splits_at(s@, a, b) {
                        if b < j {
                            assert(s@[j as int] != '@');
                        } else if b > j {
                            assert(s@[b] != '@');
                        } else {
                            assert(cs@[a] == '/');
                        }
                    }
                }
            }
            return Err(ReleaseError::ConfigInvalid);
        },
    };
    if i == 0 || i + 1 >= j || j + 1 >= n {
        proof {
            assert forall|a: int, b: int| !splits_at(s@, a, b) by {
                if splits_at(s@, a, b) {
                    if b < j {
                        assert(s@[j as int] != '@');
                    } else if b > j {
                        assert(s@[b] != '@');
                    } else if a < i {
                        assert(s@[i as int] != '/');
                    } else if a > i {
                        assert(cs@[a] != '/');
                    }
                }
            }
        }
        return Err(ReleaseError::ConfigInvalid);
    }
    let owner = slice_chars(&cs, 0, i);
    let repo = slice_chars(&cs, i + 1, j);
    let version = slice_chars(&cs, j + 1, n);
    proof {
        assert(splits_at(s@, i as int, j as int));
        assert(owner@ =~= s@.take(i as int));
        assert(version@ =~= s@.skip(j + 1));
    }
    Ok((owner, repo, version))
}

} // verus!
