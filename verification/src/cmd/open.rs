use vstd::prelude::*;

verus! {

/// What the open workflow does once resolution and the cache existence check
/// have run.
#[derive(Debug, PartialEq, Eq, Structural, Clone, Copy)]
pub enum OpenAction {
    /// Matching live checkouts exist: report on each of them.
    ShowCheckouts,
    /// Nothing is checked out but the cache holds an entry: restore it.
    RestoreFromCache,
    /// Nothing is checked out and nothing is cached: a fresh clone from the
    /// remote is the only way forward.
    CloneFromRemote,
}

/// Decides the open workflow's next step from the number of live checkouts
/// the resolver found and whether the cache holds an entry for the pattern.
pub fn open_action(found: usize, cached: bool) -> (r: OpenAction)
    ensures
        found > 0 ==> r == OpenAction::ShowCheckouts,
        found == 0 && cached ==> r == OpenAction::RestoreFromCache,
        found == 0 && !cached ==> r == OpenAction::CloneFromRemote,
{
    if found > 0 {
        OpenAction::ShowCheckouts
    } else if cached {
        OpenAction::RestoreFromCache
    } else {
        OpenAction::CloneFromRemote
    }
}

} // verus!
