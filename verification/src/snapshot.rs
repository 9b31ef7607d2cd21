//! The snapshot: the dependency set of the last successful build.

use vstd::prelude::*;
use crate::canonical::{canonical, is_canonical, lemma_canonical_exists, lemma_canonical_idempotent};
use crate::dependency::{DepView, Deps};

verus! {

/// What a stored snapshot stands for: its canonical order, so that the
/// order in which it was stored does not count; nothing where none was
/// stored or what was stored could not be parsed.
pub open spec fn last_deps(stored: Option<Seq<DepView>>) -> Option<Seq<DepView>> {
    match stored {
        Some(deps) => Some(canonical(deps)),
        None => None,
    }
}

/// The view of a snapshot that may be missing.
pub open spec fn stored_view(stored: Option<Deps>) -> Option<Seq<DepView>> {
    match stored {
        Some(deps) => Some(deps@),
        None => None,
    }
}

impl Deps {
    /// The snapshot of the last successful build, given what was stored:
    /// `None` where nothing was stored or it could not be parsed.
    pub fn read_last(stored: Option<Deps>) -> (last: Option<Deps>)
        ensures
            stored_view(last) == last_deps(stored_view(stored)),
    {
        match stored {
            Some(deps) => Some(deps.sort()),
            None => None,
        }
    }
}

/// What is read back from a stored set is its canonical order; putting
/// that in order again changes nothing. A set that was stored in canonical
/// order, as every set is that an invocation records, is read back as it
/// was.
pub proof fn lemma_snapshot_reads_back(deps: Seq<DepView>)
    ensures
        last_deps(Some(deps)) == Some(canonical(deps)),
        canonical(canonical(deps)) == canonical(deps),
        is_canonical(deps) ==> last_deps(Some(deps)) == Some(deps),
{
    lemma_canonical_exists(deps);
    lemma_canonical_idempotent(canonical(deps));
    if is_canonical(deps) {
        lemma_canonical_idempotent(deps);
    }
}

} // verus!
