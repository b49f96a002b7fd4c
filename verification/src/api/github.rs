use vstd::prelude::*;
use vstd::string::*;
use crate::api::Provider;
use crate::config::ProviderConfig;
use crate::error::RemoteError;

verus! {

/// The github.com provider.
#[derive(Debug)]
pub struct GithubProvider {
    /// The provider's configuration entry.
    pub config: ProviderConfig,
}

impl GithubProvider {
    /// The provider's display label.
    pub fn label(&self) -> (r: String)
        ensures
            r@ == "Github"@,
    {
        String::from_str("Github")
    }
}

impl Provider for GithubProvider {
    fn list_repo_paths(&self) -> Result<Vec<String>, RemoteError> {
        // Listing over the GraphQL API is an external collaborator's job;
        // nothing is available from within the core.
        Ok(Vec::new())
    }
}

} // verus!
