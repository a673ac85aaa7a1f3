use vstd::prelude::*;
use vstd::string::StrSliceExecFns;
use crate::status::HttpStatus;

verus! {

/// Whether path `p` lies under `root`: `root` is a prefix of `p` that ends at a
/// path-segment boundary (so `/srv/pub` does not contain `/srv/public`).
pub open spec fn within_root(root: Seq<char>, p: Seq<char>) -> bool {
    &&& root.len() <= p.len()
    &&& p.subrange(0, root.len() as int) == root
    &&& (p.len() == root.len() || p[root.len() as int] == '/' || (root.len() > 0 && root.last()
        == '/'))
}

/// What canonicalizing the joined path gave.
#[derive(Debug)]
pub enum Canonical {
    /// The absolute, symlink-free path of the target.
    Resolved(String),
    /// The target does not exist.
    NotFound,
    /// Any other failure.
    Failed,
}

/// The outcome of resolving a canonicalization against the document root.
pub open spec fn resolution(root: Seq<char>, c: Canonical) -> Result<Seq<char>, HttpStatus> {
    match c {
        Canonical::Resolved(p) => if within_root(root, p@) {
            Ok(p@)
        } else {
            Err(HttpStatus::Forbidden)
        },
        Canonical::NotFound => Err(HttpStatus::NotFound),
        Canonical::Failed => Err(HttpStatus::InternalServerError),
    }
}

/// Whether `p` lies under `root` (see `within_root`).
pub fn is_within_root(root: &str, p: &str) -> (r: bool)
    ensures
        r == within_root(root@, p@),
{
    let n = root.unicode_len();
    let m = p.unicode_len();
    if n > m {
        return false;
    }
    let mut i: usize = 0;
    while i < n
        invariant
            n == root@.len(),
            m == p@.len(),
            n <= m,
            i <= n,
            forall|j: int| 0 <= j < i ==> p@[j] == root@[j],
        decreases n - i,
    {
        if p.get_char(i) != root.get_char(i) {
            assert(p@.subrange(0, n as int)[i as int] != root@[i as int]);
            return false;
        }
        i = i + 1;
    }
    assert(p@.subrange(0, n as int) == root@);
    n == m || p.get_char(n) == '/' || (n > 0 && root.get_char(n - 1) == '/')
}

/// Checks a canonicalized target against the document root: a target outside
/// it is forbidden; a missing one is not found; any other failure is an internal error.
pub fn resolve(root: &str, c: Canonical) -> (r: Result<String, HttpStatus>)
    ensures
        match (r, resolution(root@, c)) {
            (Ok(p), Ok(q)) => p@ == q,
            (Err(s), Err(t)) => s == t,
            _ => false,
        },
{
    match c {
        Canonical::Resolved(p) => if is_within_root(root, p.as_str()) {
            Ok(p)
        } else {
            Err(HttpStatus::Forbidden)
        },
        Canonical::NotFound => Err(HttpStatus::NotFound),
        Canonical::Failed => Err(HttpStatus::InternalServerError),
    }
}

} // verus!
