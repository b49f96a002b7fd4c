use vstd::prelude::*;
use vstd::string::*;
use crate::cmd::{RepoPattern, has_remote_prefix, spec_remote_name};
use crate::error::ResolveError;
use crate::text;

verus! {

/// One provider entry of a workspace's configuration.
#[derive(Debug)]
pub struct ProviderConfig {
    /// The provider's name for use in repo paths.
    pub name: String,
}

/// One configured workspace: the directory whose checkouts are managed.
#[derive(Debug)]
pub struct WorkspaceConfig {
    /// A user-friendly name for the workspace like "personal" or "work".
    pub name: Option<String>,

    /// The workspace directory's filesystem path.
    pub path: String,

    /// The cache directory for the workspace.
    pub cache: Option<String>,

    /// The providers the workspace draws from, in configured order.
    pub providers: Option<Vec<ProviderConfig>>,
}

/// The cache directory used when a workspace entry does not name one.
pub fn default_cache() -> (r: Option<String>)
    ensures
        r matches Some(c) && c@ == "~/.wsm/cache"@,
{
    Some(String::from_str("~/.wsm/cache"))
}

impl WorkspaceConfig {
    /// The workspace's user-friendly name: the configured one, or the last
    /// segment of its directory path.
    pub open spec fn spec_name(&self) -> Seq<char> {
        match self.name {
            Some(n) => n@,
            None => text::spec_last_segment(self.path@),
        }
    }

    /// The providers in configured order; none configured means none.
    pub open spec fn spec_providers(&self) -> Seq<ProviderConfig> {
        match self.providers {
            Some(v) => v@,
            None => Seq::empty(),
        }
    }

    /// Get a user-friendly name for the workspace.
    pub fn name(&self) -> (r: String)
        ensures
            r@ == self.spec_name(),
    {
        match &self.name {
            Some(n) => n.clone(),
            None => text::last_segment(self.path.as_str()),
        }
    }
}

/// Holds when `i` is the position of the first provider of `w` named `n`.
pub open spec fn provider_match_at(w: WorkspaceConfig, n: Seq<char>, i: int) -> bool {
    &&& 0 <= i < w.spec_providers().len()
    &&& w.spec_providers()[i].name@ == n
    &&& forall|k: int| 0 <= k < i ==> w.spec_providers()[k].name@ != n
}

/// The candidate checkout root for repo path `t` within workspace `w`: the
/// workspace root, then the remote name (explicit or the default first
/// provider), then the rest of the path.
pub open spec fn spec_root_for_cfg(w: WorkspaceConfig, t: Seq<char>) -> Result<
    Seq<char>,
    ResolveError,
> {
    if has_remote_prefix(t) {
        if exists|i: int| provider_match_at(w, spec_remote_name(t), i) {
            Ok(w.path@ + "/"@ + t)
        } else {
            Err(ResolveError::RemoteNotFound)
        }
    } else {
        if w.spec_providers().len() > 0 {
            Ok(w.path@ + "/"@ + w.spec_providers()[0].name@ + "/"@ + t)
        } else {
            Err(ResolveError::NoRemotes)
        }
    }
}

/// Represents the user's config file.
#[derive(Debug)]
pub struct Config {
    /// The configured workspaces, in order; the first is the default.
    pub workspace: Vec<WorkspaceConfig>,
}

/// Holds when workspace entry `w` carries the explicit name `n`.
pub open spec fn cfg_named(w: WorkspaceConfig, n: Seq<char>) -> bool {
    w.name matches Some(m) && m@ == n
}

/// Holds when `i` is the position of the first workspace of `c` named `n`.
pub open spec fn ws_cfg_match_at(c: Config, n: Seq<char>, i: int) -> bool {
    &&& 0 <= i < c.workspace@.len()
    &&& cfg_named(c.workspace@[i], n)
    &&& forall|k: int| 0 <= k < i ==> !cfg_named(c.workspace@[k], n)
}

/// At most one position can carry the first workspace of a given name.
proof fn lemma_ws_cfg_match_unique(c: Config, n: Seq<char>, i: int, j: int)
    requires
        ws_cfg_match_at(c, n, i),
        ws_cfg_match_at(c, n, j),
    ensures
        i == j,
{
    if i < j {
        assert(!cfg_named(c.workspace@[i], n));
    } else if j < i {
        assert(!cfg_named(c.workspace@[j], n));
    }
}

/// Which workspace a pattern selects: the first one carrying the explicit
/// name, failing with WorkspaceNotFound when the name matches none — the
/// default is never substituted — or the first configured workspace,
/// failing with EmptyRegistry when there is none.
pub open spec fn spec_ws_cfg_choice(c: Config, p: RepoPattern) -> Result<int, ResolveError> {
    match p.workspace_name {
        Some(n) => if exists|i: int| ws_cfg_match_at(c, n@, i) {
            Ok(choose|i: int| ws_cfg_match_at(c, n@, i))
        } else {
            Err(ResolveError::WorkspaceNotFound)
        },
        None => if c.workspace@.len() > 0 {
            Ok(0int)
        } else {
            Err(ResolveError::EmptyRegistry)
        },
    }
}

/// The full resolution of a pattern against the registry, down to the
/// candidate checkout root that is to be scanned.
pub open spec fn spec_resolve(c: Config, p: RepoPattern) -> Result<Seq<char>, ResolveError> {
    match spec_ws_cfg_choice(c, p) {
        Ok(i) => spec_root_for_cfg(c.workspace@[i], p.path@),
        Err(e) => Err(e),
    }
}

impl Config {
    /// Resolve a repository pattern against the configured workspaces down
    /// to the candidate checkout root; scanning that root for live checkouts
    /// is the directory scanner's job.
    pub fn resolve(&self, pattern: &RepoPattern) -> (r: Result<String, ResolveError>)
        ensures
            match r {
                Ok(root) => spec_resolve(*self, *pattern) == Ok::<Seq<char>, ResolveError>(root@),
                Err(e) => spec_resolve(*self, *pattern) == Err::<Seq<char>, ResolveError>(e),
            },
    {
        let mut chosen: Option<usize> = None;
        match &pattern.workspace_name {
            Some(n) => {
                let mut wi: usize = 0;
                while wi < self.workspace.len() && chosen.is_none()
                    invariant
                        wi <= self.workspace@.len(),
                        chosen is None ==> forall|k: int| 0 <= k < wi ==> !cfg_named(
                            self.workspace@[k],
                            n@,
                        ),
                        chosen matches Some(j) ==> ws_cfg_match_at(*self, n@, j as int),
                    decreases self.workspace@.len() - wi, (if chosen.is_none() {
                        1int
                    } else {
                        0int
                    }),
                {
                    let matched = match &self.workspace[wi].name {
                        Some(m) => text::str_eq(m.as_str(), n.as_str()),
                        None => false,
                    };
                    if matched {
                        chosen = Some(wi);
                    } else {
                        wi = wi + 1;
                    }
                }
                if chosen.is_none() {
                    proof {
                        assert(!(exists|i: int| ws_cfg_match_at(*self, n@, i)));
                    }
                    return Err(ResolveError::WorkspaceNotFound);
                }
                proof {
                    let j = chosen->Some_0 as int;
                    lemma_ws_cfg_match_unique(
                        *self,
                        n@,
                        j,
                        choose|i: int| ws_cfg_match_at(*self, n@, i),
                    );
                }
            },
            None => {
                if self.workspace.len() == 0 {
                    return Err(ResolveError::EmptyRegistry);
                }
                chosen = Some(0);
            },
        }
        let w = &self.workspace[chosen.unwrap()];
        proof {
            assert(spec_ws_cfg_choice(*self, *pattern) == Ok::<int, ResolveError>(
                chosen->Some_0 as int,
            ));
        }
        match pattern.maybe_remote() {
            Some(parts) => {
                let mut found: Option<usize> = None;
                match &w.providers {
                    Some(provs) => {
                        let mut pi: usize = 0;
                        while pi < provs.len() && found.is_none()
                            invariant
                                pi <= provs@.len(),
                                provs@ == w.spec_providers(),
                                found is None ==> forall|k: int|
                                    0 <= k < pi ==> provs@[k].name@ != parts.0@,
                                found matches Some(j) ==> provider_match_at(
                                    *w,
                                    parts.0@,
                                    j as int,
                                ),
                            decreases provs@.len() - pi, (if found.is_none() {
                                1int
                            } else {
                                0int
                            }),
                        {
                            if text::str_eq(provs[pi].name.as_str(), parts.0.as_str()) {
                                found = Some(pi);
                            } else {
                                pi = pi + 1;
                            }
                        }
                    },
                    None => {},
                }
                if found.is_some() {
                    proof {
                        let j = found->Some_0 as int;
                        assert(provider_match_at(*w, spec_remote_name(pattern.path@), j));
                        assert(spec_root_for_cfg(*w, pattern.path@) is Ok);
                    }
                    Ok(text::join_path(w.path.as_str(), pattern.path.as_str()))
                } else {
                    Err(ResolveError::RemoteNotFound)
                }
            },
            None => {
                match &w.providers {
                    Some(provs) => {
                        if provs.len() > 0 {
                            let base = text::join_path(w.path.as_str(), provs[0].name.as_str());
                            let root = text::join_path(base.as_str(), pattern.path.as_str());
                            proof {
                                assert(root@ =~= w.path@ + "/"@ + w.spec_providers()[0].name@
                                    + "/"@ + pattern.path@);
                                assert(spec_root_for_cfg(*w, pattern.path@) is Ok);
                            }
                            Ok(root)
                        } else {
                            Err(ResolveError::NoRemotes)
                        }
                    },
                    None => Err(ResolveError::NoRemotes),
                }
            },
        }
    }
}

} // verus!
