//! Organizes local git checkouts into named workspaces, each drawing from one
//! or more named remotes. Repositories are referred to by a compact pattern
//! string; the resolver turns a pattern into concrete checkout locations, and
//! the repository cache can archive an unused checkout into a bare form and
//! restore it later.

use vstd::prelude::*;
use vstd::string::*;
use sha2::Digest;
use crate::cmd::{RepoPattern, has_remote_prefix, spec_remote_name};
use crate::error::ResolveError;
use crate::remote::Remote;

pub mod api;
pub mod cache;
pub mod cmd;
pub mod config;
pub mod error;
pub mod remote;
pub mod scan;
pub mod text;

verus! {

/// A `Workspace` is a filesystem directory containing git repositories
/// checked out from one or more remotes. Each repository's path matches the
/// remote's path, for example `<workspace path>/github.com/cilki/wsx`.
#[derive(Debug)]
pub struct Workspace {
    /// A user-friendly name for the workspace like "personal" or "work".
    pub name: Option<String>,

    /// The workspace directory's filesystem path.
    pub path: String,

    /// The remotes the workspace draws from, in configured order.
    pub remotes: Vec<Remote>,
}

/// Holds when `i` is the position of the first remote of `w` named `n`.
pub open spec fn remote_match_at(w: Workspace, n: Seq<char>, i: int) -> bool {
    &&& 0 <= i < w.remotes@.len()
    &&& w.remotes@[i].spec_name() == n
    &&& forall|k: int| 0 <= k < i ==> w.remotes@[k].spec_name() != n
}

/// The candidate checkout root for repo path `t` within workspace `w`: the
/// workspace root, then the remote name (explicit or the default first
/// remote), then the rest of the path.
pub open spec fn spec_root_for(w: Workspace, t: Seq<char>) -> Result<Seq<char>, ResolveError> {
    if has_remote_prefix(t) {
        if exists|i: int| remote_match_at(w, spec_remote_name(t), i) {
            Ok(w.path@ + "/"@ + t)
        } else {
            Err(ResolveError::RemoteNotFound)
        }
    } else {
        if w.remotes@.len() > 0 {
            Ok(w.path@ + "/"@ + w.remotes@[0].spec_name() + "/"@ + t)
        } else {
            Err(ResolveError::NoRemotes)
        }
    }
}

impl Workspace {
    /// The workspace's user-friendly name: the configured one, or the last
    /// segment of its directory path.
    pub open spec fn spec_name(&self) -> Seq<char> {
        match self.name {
            Some(n) => n@,
            None => text::spec_last_segment(self.path@),
        }
    }

    /// Remote names are unique within a workspace.
    pub open spec fn wf(&self) -> bool {
        forall|i: int, j: int|
            0 <= i < j < self.remotes@.len() ==> self.remotes@[i].spec_name()
                != self.remotes@[j].spec_name()
    }

    /// Get a user-friendly name for the workspace.
    pub fn name(&self) -> (r: String)
        ensures
            r@ == self.spec_name(),
    {
        match &self.name {
            Some(n) => n.clone(),
            None => text::last_segment(self.path.as_str()),
        }
    }

    /// The first remote carrying the given name, if any does.
    pub fn remote_by_name(&self, name: &str) -> (r: Option<&Remote>)
        ensures
            match r {
                Some(rm) => exists|i: int|
                    remote_match_at(*self, name@, i) && *rm == self.remotes@[i],
                None => forall|i: int|
                    0 <= i < self.remotes@.len() ==> self.remotes@[i].spec_name() != name@,
            },
    {
        let mut i: usize = 0;
        while i < self.remotes.len()
            invariant
                i <= self.remotes@.len(),
                forall|k: int| 0 <= k < i ==> self.remotes@[k].spec_name() != name@,
            decreases self.remotes@.len() - i,
        {
            if text::str_eq(self.remotes[i].name().as_str(), name) {
                proof {
                    assert(remote_match_at(*self, name@, i as int));
                }
                return Some(&self.remotes[i]);
            }
            i = i + 1;
        }
        None
    }

    /// The workspace's default remote: the first configured one.
    pub fn default_remote(&self) -> (r: Option<&Remote>)
        ensures
            r is Some <==> self.remotes@.len() > 0,
            r matches Some(rm) ==> *rm == self.remotes@[0],
    {
        if self.remotes.len() > 0 {
            Some(&self.remotes[0])
        } else {
            None
        }
    }

    /// The candidate checkout root for the pattern within this workspace:
    /// the explicit remote when the path carries one (it must be configured),
    /// else the default remote.
    pub fn search(&self, pattern: &RepoPattern) -> (r: Result<String, ResolveError>)
        ensures
            ({
                let s = spec_root_for(*self, pattern.path@);
                match r {
                    Ok(root) => s == Ok::<Seq<char>, ResolveError>(root@),
                    Err(e) => s == Err::<Seq<char>, ResolveError>(e),
                }
            }),
    {
        match pattern.maybe_remote() {
            Some(parts) => {
                match self.remote_by_name(parts.0.as_str()) {
                    Some(rm) => {
                        proof {
                            let i = choose|i: int|
                                remote_match_at(*self, parts.0@, i) && *rm == self.remotes@[i];
                            assert(remote_match_at(*self, spec_remote_name(pattern.path@), i));
                            assert(spec_root_for(*self, pattern.path@) is Ok);
                        }
                        Ok(text::join_path(self.path.as_str(), pattern.path.as_str()))
                    },
                    None => {
                        proof {
                            assert(!(exists|i: int|
                                remote_match_at(*self, spec_remote_name(pattern.path@), i))) by {
                                if exists|i: int|
                                    remote_match_at(*self, spec_remote_name(pattern.path@), i) {
                                    let i = choose|i: int|
                                        remote_match_at(*self, spec_remote_name(pattern.path@), i);
                                    assert(self.remotes@[i].spec_name() != spec_remote_name(
                                        pattern.path@,
                                    ));
                                }
                            }
                        }
                        Err(ResolveError::RemoteNotFound)
                    },
                }
            },
            None => {
                match self.default_remote() {
                    Some(rm) => {
                        let base = text::join_path(self.path.as_str(), rm.name().as_str());
                        let root = text::join_path(base.as_str(), pattern.path.as_str());
                        proof {
                            assert(root@ =~= self.path@ + "/"@ + self.remotes@[0].spec_name()
                                + "/"@ + pattern.path@);
                        }
                        Ok(root)
                    },
                    None => Err(ResolveError::NoRemotes),
                }
            },
        }
    }
}

/// Represents the user's config file.
#[derive(Debug)]
pub struct Config {
    /// The configured workspaces, in order; the first is the default.
    pub workspace: Vec<Workspace>,

    /// The cache directory for all workspaces.
    pub cache: Option<RepoCache>,
}

/// Holds when workspace `w` carries the explicit name `n`.
pub open spec fn ws_named(w: Workspace, n: Seq<char>) -> bool {
    w.name matches Some(m) && m@ == n
}

/// Holds when `i` is the position of the first workspace of `c` named `n`.
pub open spec fn ws_match_at(c: Config, n: Seq<char>, i: int) -> bool {
    &&& 0 <= i < c.workspace@.len()
    &&& ws_named(c.workspace@[i], n)
    &&& forall|k: int| 0 <= k < i ==> !ws_named(c.workspace@[k], n)
}

/// At most one position can carry the first workspace of a given name.
proof fn lemma_ws_match_unique(c: Config, n: Seq<char>, i: int, j: int)
    requires
        ws_match_at(c, n, i),
        ws_match_at(c, n, j),
    ensures
        i == j,
{
    if i < j {
        assert(!ws_named(c.workspace@[i], n));
    } else if j < i {
        assert(!ws_named(c.workspace@[j], n));
    }
}

/// Which workspace a pattern selects: the first one carrying the explicit
/// name, failing with WorkspaceNotFound when the name matches none — the
/// default is never substituted — or the first configured workspace,
/// failing with EmptyRegistry when there is none.
pub open spec fn spec_ws_choice(c: Config, p: RepoPattern) -> Result<int, ResolveError> {
    match p.workspace_name {
        Some(n) => if exists|i: int| ws_match_at(c, n@, i) {
            Ok(choose|i: int| ws_match_at(c, n@, i))
        } else {
            Err(ResolveError::WorkspaceNotFound)
        },
        None => if c.workspace@.len() > 0 {
            Ok(0int)
        } else {
            Err(ResolveError::EmptyRegistry)
        },
    }
}

/// The full resolution of a pattern against the registry, down to the
/// candidate checkout root that is to be scanned.
pub open spec fn spec_search_local(c: Config, p: RepoPattern) -> Result<Seq<char>, ResolveError> {
    match spec_ws_choice(c, p) {
        Ok(i) => spec_root_for(c.workspace@[i], p.path@),
        Err(e) => Err(e),
    }
}

impl Config {
    /// Find a configured workspace by name; entries without a name never
    /// match.
    pub fn workspace_by_name(&self, workspace_name: &str) -> (r: Option<&Workspace>)
        ensures
            match r {
                Some(w) => exists|i: int|
                    ws_match_at(*self, workspace_name@, i) && *w == self.workspace@[i],
                None => forall|i: int|
                    0 <= i < self.workspace@.len() ==> !ws_named(self.workspace@[i],
                        workspace_name@,
                    ),
            },
    {
        let mut i: usize = 0;
        while i < self.workspace.len()
            invariant
                i <= self.workspace@.len(),
                forall|k: int| 0 <= k < i ==> !ws_named(self.workspace@[k], workspace_name@),
            decreases self.workspace@.len() - i,
        {
            let matched = match &self.workspace[i].name {
                Some(m) => text::str_eq(m.as_str(), workspace_name),
                None => false,
            };
            if matched {
                proof {
                    assert(ws_match_at(*self, workspace_name@, i as int));
                }
                return Some(&self.workspace[i]);
            }
            i = i + 1;
        }
        None
    }

    /// The default workspace: the first configured one.
    pub fn default_workspace(&self) -> (r: Option<&Workspace>)
        ensures
            r is Some <==> self.workspace@.len() > 0,
            r matches Some(w) ==> *w == self.workspace@[0],
    {
        if self.workspace.len() > 0 {
            Some(&self.workspace[0])
        } else {
            None
        }
    }

    /// Resolve a repository pattern down to the candidate checkout root for
    /// local repositories; scanning that root is the directory scanner's job.
    pub fn search_local(&self, pattern: &RepoPattern) -> (r: Result<String, ResolveError>)
        ensures
            match r {
                Ok(root) => spec_search_local(*self, *pattern) == Ok::<Seq<char>, ResolveError>(
                    root@,
                ),
                Err(e) => spec_search_local(*self, *pattern) == Err::<Seq<char>, ResolveError>(e),
            },
    {
        let ws: &Workspace = match &pattern.workspace_name {
            Some(n) => {
                match self.workspace_by_name(n.as_str()) {
                    Some(w) => {
                        proof {
                            let i = choose|i: int|
                                ws_match_at(*self, n@, i) && *w == self.workspace@[i];
                            lemma_ws_match_unique(
                                *self,
                                n@,
                                i,
                                choose|i: int| ws_match_at(*self, n@, i),
                            );
                        }
                        w
                    },
                    None => {
                        proof {
                            assert(!(exists|i: int| ws_match_at(*self, n@, i))) by {
                                if exists|i: int| ws_match_at(*self, n@, i) {
                                    let i = choose|i: int| ws_match_at(*self, n@, i);
                                    assert(!ws_named(self.workspace@[i], n@));
                                }
                            }
                        }
                        return Err(ResolveError::WorkspaceNotFound);
                    },
                }
            },
            None => {
                match self.default_workspace() {
                    Some(w) => w,
                    None => {
                        return Err(ResolveError::EmptyRegistry);
                    },
                }
            },
        };
        ws.search(pattern)
    }

    /// The configuration used when none is stored under the given home
    /// directory: a single workspace named "default" under `<home>/workspace`
    /// with no remotes, and a cache under `<home>/.cache/wsx`.
    pub fn default_for_home(home: &str) -> (r: Config)
        ensures
            r.workspace@.len() == 1,
            ws_named(r.workspace@[0], "default"@),
            r.workspace@[0].path@ == home@ + "/"@ + "workspace"@,
            r.workspace@[0].remotes@.len() == 0,
            r.cache matches Some(c) && c.path@ == home@ + "/"@ + ".cache/wsx"@,
    {
        let mut workspace: Vec<Workspace> = Vec::new();
        workspace.push(
            Workspace {
                name: Some(String::from_str("default")),
                path: text::join_path(home, "workspace"),
                remotes: Vec::new(),
            },
        );
        Config { workspace, cache: Some(RepoCache { path: text::join_path(home, ".cache/wsx") }) }
    }
}

/// Where the configuration file lives under the given home directory.
pub fn config_file_path(home: &str) -> (r: String)
    ensures
        r@ == home@ + "/"@ + ".config/wsx.toml"@,
{
    text::join_path(home, ".config/wsx.toml")
}

/// The SHA-512 digest of the UTF-8 bytes of a piece of text.
pub uninterp spec fn sha512_of(s: Seq<char>) -> Seq<u8>;

/// Relies on sha2's `Sha512` through the `Digest` trait (`new`,
/// `chain_update`, `finalize`): the digest depends on the input bytes alone
/// and is always 64 bytes wide.
#[verifier::external_body]
fn sha512_bytes(s: &str) -> (r: Vec<u8>)
    ensures
        r@ == sha512_of(s@),
        r@.len() == 64,
{
    sha2::Sha512::new().chain_update(s).finalize().as_slice().to_vec()
}

/// The cache key of a checkout path: the lowercase hex rendering of the
/// SHA-512 digest of the path text. A pure function of the path alone, so
/// one logical checkout always addresses one cache slot.
pub open spec fn spec_key_for(path: Seq<char>) -> Seq<char> {
    text::hex_of(sha512_of(path))
}

/// Derive the cache key addressing the archived form of the checkout at
/// `path`. Collisions between distinct paths are considered practically
/// impossible and are never handled.
pub fn key_for(path: &str) -> (r: String)
    ensures
        r@ == spec_key_for(path@),
        r@.len() == 128,
{
    let digest = sha512_bytes(path);
    text::to_hex(&digest)
}

/// Caches repositories that are dropped from a `Workspace` in a separate
/// directory. Entries in this cache are bare repositories for space
/// efficiency.
#[derive(Debug)]
pub struct RepoCache {
    /// The cache directory's filesystem path.
    pub path: String,
}

impl RepoCache {
    /// The full path of the cache slot addressed by a checkout path.
    pub fn compute_cache_key(&self, path: &str) -> (r: String)
        ensures
            r@ == self.path@ + "/"@ + spec_key_for(path@),
    {
        let key = key_for(path);
        text::join_path(self.path.as_str(), key.as_str())
    }
}

} // verus!
