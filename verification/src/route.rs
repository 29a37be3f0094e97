//! The choice between a named file and a fallback stream.

use vstd::prelude::*;

verus! {

/// Serves a request from the named file where `candidate` names one, and from
/// the fallback otherwise.  Exactly one of the two is called, once, and what
/// it returns is returned; the other is dropped unused.
pub fn route<P, R, F: FnOnce(P) -> R, G: FnOnce() -> R>(
    candidate: Option<P>,
    named: F,
    fallback: G,
) -> (outcome: R)
    requires
        candidate matches Some(path) ==> named.requires((path,)),
        candidate is None ==> fallback.requires(()),
    ensures
        match candidate {
            Some(path) => named.ensures((path,), outcome),
            None => fallback.ensures((), outcome),
        },
{
    match candidate {
        Some(path) => named(path),
        None => fallback(),
    }
}

} // verus!
