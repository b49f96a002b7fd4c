use vstd::prelude::*;
use crate::error::RemoteError;

verus! {

/// The capability a remote provider offers: listing the repository paths
/// available under it. Network integration is a collaborator's concern, so
/// the resolver depends only on this interface.
pub trait ListRepos {
    /// List all repository paths available to the provider.
    fn list_repo_paths(&self) -> Result<Vec<String>, RemoteError>;
}

/// A remote hosted on github.com, identified by the name used in patterns
/// and checkout paths.
#[derive(Debug)]
pub struct GithubRemote {
    /// The remote's name for use in repo paths.
    pub name: String,
}

impl ListRepos for GithubRemote {
    fn list_repo_paths(&self) -> Result<Vec<String>, RemoteError> {
        // Listing over the provider's API is an external collaborator's job;
        // nothing is available from within the core.
        Ok(Vec::new())
    }
}

/// A named upstream namespace within a workspace; each hosting provider is
/// one variant.
#[derive(Debug)]
pub enum Remote {
    Github(GithubRemote),
}

impl Remote {
    /// The identifier used for this remote in patterns and checkout paths.
    pub open spec fn spec_name(&self) -> Seq<char> {
        match self {
            Remote::Github(g) => g.name@,
        }
    }

    /// The remote's name, whichever provider it belongs to.
    pub fn name(&self) -> (r: &String)
        ensures
            r@ == self.spec_name(),
    {
        match self {
            Remote::Github(g) => &g.name,
        }
    }
}

impl ListRepos for Remote {
    fn list_repo_paths(&self) -> Result<Vec<String>, RemoteError> {
        match self {
            Remote::Github(g) => g.list_repo_paths(),
        }
    }
}

} // verus!
