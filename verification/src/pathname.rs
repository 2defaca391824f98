//! A textual model of filesystem paths. A path is its string of characters;
//! the file name is what follows the last `/`, and the directory prefix is
//! everything up to and including that `/`.

use vstd::prelude::*;

verus! {

/// The index where the file name starts: just after the last `/`, or 0 when
/// the path has none.
pub open spec fn file_name_start(p: Seq<char>) -> int
    decreases p.len(),
{
    if p.len() == 0 {
        0
    } else if p[p.len() - 1] == '/' {
        p.len() as int
    } else {
        file_name_start(p.drop_last())
    }
}

/// The final path segment.
pub open spec fn file_name_of(p: Seq<char>) -> Seq<char> {
    p.skip(file_name_start(p))
}

/// Everything before the final path segment, `/` included.
pub open spec fn dir_prefix_of(p: Seq<char>) -> Seq<char> {
    p.take(file_name_start(p))
}

/// `file_name_start` is the unique position that sits right after a `/` (or
/// at 0) with no `/` anywhere after it.
pub proof fn lemma_file_name_start_characterization(p: Seq<char>, k: int)
    requires
        0 <= k <= p.len(),
        k == 0 || p[k - 1] == '/',
        forall|j: int| k <= j < p.len() ==> p[j] != '/',
    ensures
        file_name_start(p) == k,
    decreases p.len(),
{
    if p.len() == 0 {
    } else if p[p.len() - 1] == '/' {
        assert(k == p.len());
    } else {
        assert(k < p.len());
        lemma_file_name_start_characterization(p.drop_last(), k);
    }
}

/// Splits a path into its directory prefix and its file name.
pub fn split_file_name(path: &str) -> (r: (String, String))
    ensures
        r.0@ == dir_prefix_of(path@),
        r.1@ == file_name_of(path@),
{
    let n = path.unicode_len();
    let mut k: usize = n;
    while k > 0
        invariant
            0 <= k <= n,
            n == path@.len(),
            forall|j: int| k <= j < n ==> path@[j] != '/',
        ensures
            0 <= k <= n,
            forall|j: int| k <= j < n ==> path@[j] != '/',
            k == 0 || path@[k - 1] == '/',
        decreases k,
    {
        let c = path.get_char(k - 1);
        if c == '/' {
            break;
        }
        k = k - 1;
    }
    proof {
        lemma_file_name_start_characterization(path@, k as int);
    }
    let dir = path.substring_char(0, k);
    let name = path.substring_char(k, n);
    assert(dir@ =~= dir_prefix_of(path@));
    assert(name@ =~= file_name_of(path@));
    (String::from_str(dir), String::from_str(name))
}

} // verus!
