use vstd::prelude::*;

verus! {

/// What the drop workflow does with one resolved checkout after the external
/// status query has run.
#[derive(Debug, PartialEq, Eq, Structural, Clone, Copy)]
pub enum DropAction {
    /// The working tree is clean: archive the checkout and remove its
    /// directory tree.
    ArchiveAndRemove,
    /// The working tree has uncommitted changes: leave it alone and report.
    Skip,
}

/// Decides the fate of one checkout from the porcelain status text the
/// external git tool printed for it: an empty status means a clean tree.
/// A dirty tree is a normal skip signal, never an error.
pub fn drop_action(status: &str) -> (r: DropAction)
    ensures
        r == DropAction::ArchiveAndRemove <==> status@.len() == 0,
{
    if status.unicode_len() == 0 {
        DropAction::ArchiveAndRemove
    } else {
        DropAction::Skip
    }
}

} // verus!
