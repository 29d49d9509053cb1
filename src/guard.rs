//! The sandbox check: a canonical path is accepted only inside the
//! canonical projects root. Paths are sequences of components, compared
//! component by component.
use vstd::prelude::*;

verus! {

/// The three kinds of failure that cross the external interface.
#[derive(PartialEq, Eq, Structural, Clone, Copy, Debug)]
pub enum ErrorKind {
    NotFound,
    Forbidden,
    InternalError,
}

impl ErrorKind {
    /// The HTTP status code that stands for this kind.
    pub fn status(&self) -> (r: u16)
        ensures
            r == match *self {
                ErrorKind::NotFound => 404u16,
                ErrorKind::Forbidden => 403u16,
                ErrorKind::InternalError => 500u16,
            },
    {
        match self {
            ErrorKind::NotFound => 404,
            ErrorKind::Forbidden => 403,
            ErrorKind::InternalError => 500,
        }
    }
}

/// The components of a path as character sequences.
pub open spec fn parts(p: Seq<String>) -> Seq<Seq<char>> {
    p.map_values(|s: String| s@)
}

/// `root` is a leading run of the components of `target`.
pub open spec fn inside(root: Seq<Seq<char>>, target: Seq<Seq<char>>) -> bool {
    root.len() <= target.len() && target.subrange(0, root.len() as int) == root
}

/// What the guard decides from the canonical root (none when it could
/// not be resolved) and the canonical target (none when it does not exist).
pub open spec fn guard_outcome(root: Option<Seq<Seq<char>>>, target: Option<Seq<Seq<char>>>) -> Result<
    Seq<Seq<char>>,
    ErrorKind,
> {
    match root {
        None => Err(ErrorKind::InternalError),
        Some(r) => match target {
            None => Err(ErrorKind::NotFound),
            Some(t) => if inside(r, t) {
                Ok(t)
            } else {
                Err(ErrorKind::Forbidden)
            },
        },
    }
}

pub open spec fn opt_parts(p: Option<Vec<String>>) -> Option<Seq<Seq<char>>> {
    match p {
        Some(v) => Some(parts(v@)),
        None => None,
    }
}

pub open spec fn result_parts(r: Result<Vec<String>, ErrorKind>) -> Result<Seq<Seq<char>>, ErrorKind> {
    match r {
        Ok(v) => Ok(parts(v@)),
        Err(e) => Err(e),
    }
}

/// Whether every component of `root` leads `target`, in order.
pub fn within_root(root: &Vec<String>, target: &Vec<String>) -> (r: bool)
    ensures
        r == inside(parts(root@), parts(target@)),
{
    if root.len() > target.len() {
        return false;
    }
    let mut i: usize = 0;
    while i < root.len()
        invariant
            root@.len() <= target@.len(),
            i <= root@.len(),
            forall|k: int| 0 <= k < i ==> root@[k]@ == target@[k]@,
        decreases root@.len() - i,
    {
        if root[i] != target[i] {
            assert(parts(target@).subrange(0, root@.len() as int)[i as int] != parts(root@)[i as int]);
            return false;
        }
        i = i + 1;
    }
    assert(parts(target@).subrange(0, root@.len() as int) =~= parts(root@));
    true
}

/// Resolves a request against the sandbox: `root` is the canonical
/// projects root and `target` the canonical requested path, each absent
/// when canonicalization failed.
pub fn resolve(root: Option<Vec<String>>, target: Option<Vec<String>>) -> (r: Result<
    Vec<String>,
    ErrorKind,
>)
    ensures
        result_parts(r) == guard_outcome(opt_parts(root), opt_parts(target)),
{
    match root {
        None => Err(ErrorKind::InternalError),
        Some(rt) => match target {
            None => Err(ErrorKind::NotFound),
            Some(t) => {
                if within_root(&rt, &t) {
                    Ok(t)
                } else {
                    Err(ErrorKind::Forbidden)
                }
            },
        },
    }
}

/// The outcome of a tree request: not found when the project path is not
/// an existing directory, else the guard's outcome on it.
pub fn tree_outcome(is_dir: bool, resolved: &Result<Vec<String>, ErrorKind>) -> (r: Result<
    (),
    ErrorKind,
>)
    ensures
        !is_dir ==> r == Err::<(), ErrorKind>(ErrorKind::NotFound),
        is_dir ==> r == match resolved {
            Ok(_) => Ok::<(), ErrorKind>(()),
            Err(e) => Err(*e),
        },
{
    if !is_dir {
        Err(ErrorKind::NotFound)
    } else {
        match resolved {
            Ok(_) => Ok(()),
            Err(e) => Err(*e),
        }
    }
}

/// A path accepted by the guard lies inside the root: whatever a request
/// names, `..` segments and links included, no path outside the root is
/// ever handed on to a read, a write or a listing.
pub proof fn lemma_accepted_inside_root(
    root: Option<Seq<Seq<char>>>,
    target: Option<Seq<Seq<char>>>,
)
    ensures
        guard_outcome(root, target) is Ok ==> (root is Some && target is Some && inside(
            root.unwrap(),
            guard_outcome(root, target).unwrap(),
        )),
        target is Some && root is Some && !inside(root.unwrap(), target.unwrap()) ==> guard_outcome(
            root,
            target,
        ) == Err::<Seq<Seq<char>>, ErrorKind>(ErrorKind::Forbidden),
{
}

/// A path that does not exist is never accepted: with a resolvable root it
/// is reported as not found, so nothing is written to it.
pub proof fn lemma_missing_never_accepted(root: Option<Seq<Seq<char>>>)
    ensures
        root is Some ==> guard_outcome(root, None) == Err::<Seq<Seq<char>>, ErrorKind>(
            ErrorKind::NotFound,
        ),
        !(guard_outcome(root, None) is Ok),
{
}

} // verus!
