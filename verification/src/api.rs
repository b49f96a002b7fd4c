use vstd::prelude::*;
use crate::error::RemoteError;

pub mod github;

verus! {

/// A hosting provider's repository listing capability.
pub trait Provider {
    /// List all repository paths available to the provider.
    fn list_repo_paths(&self) -> Result<Vec<String>, RemoteError>;
}

} // verus!
