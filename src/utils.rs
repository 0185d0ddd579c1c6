//! Locating a literal suffix inside a file name.
use crate::arguments::{Args, ArgsView};
use crate::error::MvxError;
use vstd::prelude::*;

verus! {

/// `p` appears in `s` starting at character index `i`.
pub open spec fn occurs_at(s: Seq<char>, p: Seq<char>, i: int) -> bool {
    0 <= i && i + p.len() <= s.len() && s.subrange(i, i + p.len()) == p
}

/// `p` appears somewhere in `s`.
pub open spec fn occurs_in(s: Seq<char>, p: Seq<char>) -> bool {
    exists|i: int| occurs_at(s, p, i)
}

/// `i` is the leftmost index at which `p` appears in `s`.
pub open spec fn is_first_occurrence(s: Seq<char>, p: Seq<char>, i: int) -> bool {
    &&& occurs_at(s, p, i)
    &&& forall|j: int| 0 <= j < i ==> !occurs_at(s, p, j)
}

/// What is left of `s` once the leftmost occurrence of `p` and everything
/// after it are cut off; `None` when `p` does not appear in `s`.
pub open spec fn basename_of(s: Seq<char>, p: Seq<char>) -> Option<Seq<char>> {
    if occurs_in(s, p) {
        Some(s.subrange(0, choose|i: int| is_first_occurrence(s, p, i)))
    } else {
        None
    }
}

/// Any occurrence implies a leftmost one.
pub proof fn lemma_first_occurrence_exists(s: Seq<char>, p: Seq<char>, i: int)
    requires
        occurs_at(s, p, i),
    ensures
        exists|k: int| is_first_occurrence(s, p, k),
    decreases i,
{
    if exists|j: int| 0 <= j < i && occurs_at(s, p, j) {
        let j = choose|j: int| 0 <= j < i && occurs_at(s, p, j);
        lemma_first_occurrence_exists(s, p, j);
    } else {
        assert(is_first_occurrence(s, p, i));
    }
}

/// The leftmost occurrence is unique, so `basename_of` cuts at it.
pub proof fn lemma_basename_at_first(s: Seq<char>, p: Seq<char>, i: int)
    requires
        is_first_occurrence(s, p, i),
    ensures
        basename_of(s, p) == Some(s.subrange(0, i)),
{
    assert(occurs_in(s, p));
    let k = choose|k: int| is_first_occurrence(s, p, k);
    assert(is_first_occurrence(s, p, k));
    if k < i {
        assert(!occurs_at(s, p, k));
    } else if i < k {
        assert(!occurs_at(s, p, i));
    }
}

/// Whether `p` appears in `s` at character index `i`.
fn matches_at(s: &str, p: &str, i: usize, n: usize, m: usize) -> (r: bool)
    requires
        n == s@.len(),
        m == p@.len(),
        i + m <= n,
    ensures
        r == occurs_at(s@, p@, i as int),
{
    let mut k: usize = 0;
    while k < m
        invariant
            n == s@.len(),
            m == p@.len(),
            i + m <= n,
            k <= m,
            forall|t: int| 0 <= t < k ==> s@[i + t] == p@[t],
        decreases m - k,
    {
        if s.get_char(i + k) != p.get_char(k) {
            assert(s@.subrange(i as int, i + m)[k as int] != p@[k as int]);
            return false;
        }
        k = k + 1;
    }
    assert(s@.subrange(i as int, i + m) =~= p@);
    true
}

/// Returns `filename` cut just before the leftmost place where `ext`
/// appears in it, or `None` when `ext` does not appear in it at all.
///
/// The extension is matched as literal text: no character in it has a
/// special meaning. When `ext` appears more than once, the leftmost
/// occurrence decides, so `"a.bak.bak"` without `".bak"` is `"a"`.
pub fn get_basename<'a, 'b>(filename: &'b str, ext: &'a str) -> (r: Option<&'b str>)
    ensures
        r is None <==> !occurs_in(filename@, ext@),
        r is None ==> basename_of(filename@, ext@) is None,
        r matches Some(b) ==> basename_of(filename@, ext@) == Some(b@),
        r matches Some(b) ==> is_first_occurrence(filename@, ext@, b@.len() as int),
{
    let n = filename.unicode_len();
    let m = ext.unicode_len();
    if m > n {
        assert forall|j: int| !occurs_at(filename@, ext@, j) by {}
        return None;
    }
    let mut i: usize = 0;
    loop
        invariant
            n == filename@.len(),
            m == ext@.len(),
            m <= n,
            i <= n - m,
            forall|j: int| 0 <= j < i ==> !occurs_at(filename@, ext@, j),
        decreases n - m - i,
    {
        if matches_at(filename, ext, i, n, m) {
            let b = filename.substring_char(0, i);
            proof {
                lemma_basename_at_first(filename@, ext@, i as int);
            }
            return Some(b);
        }
        if i == n - m {
            assert forall|j: int| !occurs_at(filename@, ext@, j) by {
                if 0 <= j && j < i {
                }
            }
            return None;
        }
        i = i + 1;
    }
}

/// `s` ends with `p`.
pub open spec fn ends_with(s: Seq<char>, p: Seq<char>) -> bool {
    p.len() <= s.len() && s.subrange(s.len() - p.len(), s.len() as int) == p
}

/// `p` appears in `s` at one index only.
pub open spec fn occurs_once(s: Seq<char>, p: Seq<char>) -> bool {
    &&& occurs_in(s, p)
    &&& forall|i: int, j: int| occurs_at(s, p, i) && occurs_at(s, p, j) ==> i == j
}

/// For a name that ends with the suffix, the basename exists, and putting
/// the suffix back onto it gives the name again exactly when the suffix
/// appears only once in the name.
pub proof fn lemma_basename_restores_unique_suffix(f: Seq<char>, s: Seq<char>)
    requires
        ends_with(f, s),
    ensures
        basename_of(f, s) is Some,
        basename_of(f, s)->0 + s == f <==> occurs_once(f, s),
{
    let last = f.len() - s.len();
    assert(occurs_at(f, s, last));
    lemma_first_occurrence_exists(f, s, last);
    let i = choose|i: int| is_first_occurrence(f, s, i);
    lemma_basename_at_first(f, s, i);
    let b = f.subrange(0, i);
    if occurs_once(f, s) {
        assert(i == last);
        assert(b + s =~= f);
    }
    if b + s == f {
        assert((b + s).len() == f.len());
        assert forall|p: int, q: int| occurs_at(f, s, p) && occurs_at(f, s, q) implies p == q by {
            assert(!(p < i));
            assert(!(q < i));
        }
    }
}

/// File `k` exists and, when a suffix is to be removed, contains it.
pub open spec fn file_passes(a: ArgsView, exists: Seq<bool>, k: int) -> bool {
    &&& exists[k]
    &&& a.remove matches Some(x) ==> occurs_in(a.filenames[k], x)
}

/// `k` is the first file that does not pass.
pub open spec fn first_failing(a: ArgsView, exists: Seq<bool>, k: int) -> bool {
    &&& 0 <= k < a.filenames.len()
    &&& !file_passes(a, exists, k)
    &&& forall|j: int| 0 <= j < k ==> file_passes(a, exists, j)
}

/// `e` is the error that reports why file `k` does not pass.
pub open spec fn failure_of(a: ArgsView, exists: Seq<bool>, k: int, e: MvxError) -> bool {
    if !exists[k] {
        e matches MvxError::NotFound(f) && f@ == a.filenames[k]
    } else {
        e matches MvxError::SuffixMismatch(f, x) && f@ == a.filenames[k] && a.remove == Some(x@)
    }
}

/// Checks, in order, that every file exists (`exists[k]` tells whether
/// file `k` does) and, when a suffix is to be removed, that its name
/// contains that suffix. Stops at the first file that fails.
pub fn check_files(args: &Args, exists: &Vec<bool>) -> (r: Result<(), MvxError>)
    requires
        exists@.len() == args.filenames@.len(),
    ensures
        r is Ok <==> forall|k: int|
            0 <= k < args@.filenames.len() ==> file_passes(args@, exists@, k),
        r matches Err(e) ==> exists|k: int|
            first_failing(args@, exists@, k) && failure_of(args@, exists@, k, e),
{
    let n = args.filenames.len();
    let mut i: usize = 0;
    while i < n
        invariant
            n == args.filenames@.len(),
            exists@.len() == n,
            i <= n,
            forall|j: int| 0 <= j < i ==> file_passes(args@, exists@, j),
        decreases n - i,
    {
        let f = &args.filenames[i];
        assert(args@.filenames[i as int] == f@);
        if !exists[i] {
            assert(first_failing(args@, exists@, i as int));
            return Err(MvxError::NotFound(f.clone()));
        }
        if let Some(x) = &args.remove {
            if get_basename(f.as_str(), x.as_str()).is_none() {
                assert(first_failing(args@, exists@, i as int));
                return Err(MvxError::SuffixMismatch(f.clone(), x.clone()));
            }
        }
        assert(file_passes(args@, exists@, i as int));
        i = i + 1;
    }
    Ok(())
}

} // verus!
