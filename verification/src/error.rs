use vstd::prelude::*;

verus! {

/// Raised when a repository pattern string is malformed, for example when its
/// final path segment is empty.
#[derive(Debug, PartialEq, Eq, Structural, Clone, Copy)]
pub struct ParseError;

/// Failures while resolving a pattern against the configured workspaces.
#[derive(Debug, PartialEq, Eq, Structural, Clone, Copy)]
pub enum ResolveError {
    /// The pattern named a workspace that is not configured.
    WorkspaceNotFound,
    /// The pattern named a remote that the selected workspace does not have.
    RemoteNotFound,
    /// No workspace is configured at all, so there is no default to fall back to.
    EmptyRegistry,
    /// The selected workspace has no remotes, so there is no default remote.
    NoRemotes,
}

/// Failures of the repository cache.
#[derive(Debug, PartialEq, Eq, Structural, Clone, Copy)]
pub enum CacheError {
    /// A restore was requested for a path that has no archived entry.
    NotArchived,
    /// An underlying filesystem move or clone failed; no recovery is attempted.
    IOError,
}

/// Opaque failure of a remote provider listing; remote integration is a
/// collaborator's concern and surfaces here untyped.
#[derive(Debug, PartialEq, Eq, Structural, Clone, Copy)]
pub struct RemoteError;

/// Failure of a directory scan: the scan root itself could not be read.
#[derive(Debug, PartialEq, Eq, Structural, Clone, Copy)]
pub enum ScanError {
    IOError,
}

} // verus!
