use vstd::prelude::*;
use vstd::string::*;
use crate::error::ParseError;

pub mod drop;
pub mod open;

verus! {

/// Holds when `i` is the position of the first colon of `s` and no slash
/// stands before it, so the text before `i` is a workspace prefix. The prefix
/// must be non-empty, hence `0 < i`.
pub open spec fn colon_qualifies(s: Seq<char>, i: int) -> bool {
    &&& 0 < i < s.len()
    &&& s[i] == ':'
    &&& forall|k: int| 0 <= k < i ==> s[k] != ':' && s[k] != '/'
}

/// Holds when `s` begins with an explicit workspace prefix.
pub open spec fn has_workspace_prefix(s: Seq<char>) -> bool {
    exists|i: int| colon_qualifies(s, i)
}

/// The position of the colon that ends the workspace prefix.
pub open spec fn workspace_split_idx(s: Seq<char>) -> int {
    choose|i: int| colon_qualifies(s, i)
}

/// What remains of `s` once a workspace prefix, if any, is removed.
pub open spec fn spec_remainder(s: Seq<char>) -> Seq<char> {
    if has_workspace_prefix(s) {
        s.skip(workspace_split_idx(s) + 1)
    } else {
        s
    }
}

/// A pattern is well-formed exactly when the final path segment is non-empty:
/// the remainder is non-empty and does not end in a separator.
pub open spec fn valid_final_segment(t: Seq<char>) -> bool {
    t.len() > 0 && t[t.len() - 1] != '/'
}

/// Holds when `j` is the position of the first slash of `t` and the text
/// before it is non-empty, so that text is a remote-name prefix.
pub open spec fn slash_qualifies(t: Seq<char>, j: int) -> bool {
    &&& 0 < j < t.len()
    &&& t[j] == '/'
    &&& forall|k: int| 0 <= k < j ==> t[k] != '/'
}

/// Holds when `t` begins with a remote-name prefix.
pub open spec fn has_remote_prefix(t: Seq<char>) -> bool {
    exists|j: int| slash_qualifies(t, j)
}

/// The position of the slash that ends the remote-name prefix.
pub open spec fn remote_split_idx(t: Seq<char>) -> int {
    choose|j: int| slash_qualifies(t, j)
}

/// The remote name at the front of a repo path that has one.
pub open spec fn spec_remote_name(t: Seq<char>) -> Seq<char> {
    t.subrange(0, remote_split_idx(t))
}

/// What follows the remote name in a repo path that has one.
pub open spec fn spec_remote_rest(t: Seq<char>) -> Seq<char> {
    t.skip(remote_split_idx(t) + 1)
}

/// At most one position can carry the first qualifying colon.
proof fn lemma_colon_unique(s: Seq<char>, i: int, j: int)
    requires
        colon_qualifies(s, i),
        colon_qualifies(s, j),
    ensures
        i == j,
{
    if i < j {
        assert(s[i] != ':');
    } else if j < i {
        assert(s[j] != ':');
    }
}

/// At most one position can carry the first qualifying slash.
proof fn lemma_slash_unique(t: Seq<char>, i: int, j: int)
    requires
        slash_qualifies(t, i),
        slash_qualifies(t, j),
    ensures
        i == j,
{
    if i < j {
        assert(t[i] != '/');
    } else if j < i {
        assert(t[j] != '/');
    }
}

/// The position of the first colon or slash of `s`, or its length if neither
/// occurs.
fn first_sep_index(s: &str) -> (r: usize)
    ensures
        r <= s@.len(),
        forall|k: int| 0 <= k < r ==> s@[k] != ':' && s@[k] != '/',
        r < s@.len() ==> (s@[r as int] == ':' || s@[r as int] == '/'),
{
    let len = s.unicode_len();
    let mut i: usize = 0;
    let mut found: bool = false;
    while i < len && !found
        invariant
            i <= len,
            len == s@.len(),
            forall|k: int| 0 <= k < i ==> s@[k] != ':' && s@[k] != '/',
            found ==> i < len && (s@[i as int] == ':' || s@[i as int] == '/'),
        decreases len - i, (if found { 0int } else { 1int }),
    {
        let c = s.get_char(i);
        if c == ':' || c == '/' {
            found = true;
        } else {
            i = i + 1;
        }
    }
    i
}

/// The position of the first slash of `t`, or its length if none occurs.
fn first_slash_index(t: &str) -> (r: usize)
    ensures
        r <= t@.len(),
        forall|k: int| 0 <= k < r ==> t@[k] != '/',
        r < t@.len() ==> t@[r as int] == '/',
{
    let len = t.unicode_len();
    let mut i: usize = 0;
    let mut found: bool = false;
    while i < len && !found
        invariant
            i <= len,
            len == t@.len(),
            forall|k: int| 0 <= k < i ==> t@[k] != '/',
            found ==> i < len && t@[i as int] == '/',
        decreases len - i, (if found { 0int } else { 1int }),
    {
        if t.get_char(i) == '/' {
            found = true;
        } else {
            i = i + 1;
        }
    }
    i
}

/// A pattern that matches one or more repositories, written
/// `[workspace:]remote/path`. The remote prefix stays inside `path` because
/// only the resolver can decide whether it names a configured remote.
#[derive(Debug)]
pub struct RepoPattern {
    /// The workspace name, when the pattern carries an explicit prefix.
    pub workspace_name: Option<String>,

    /// The repo path, beginning with a remote name when one was given.
    pub path: String,
}

impl PartialEq for RepoPattern {
    fn eq(&self, other: &Self) -> bool {
        let ws_eq = match (&self.workspace_name, &other.workspace_name) {
            (Some(a), Some(b)) => *a == *b,
            (None, None) => true,
            _ => false,
        };
        ws_eq && self.path == other.path
    }
}

impl vstd::std_specs::cmp::PartialEqSpecImpl for RepoPattern {
    open spec fn obeys_eq_spec() -> bool {
        true
    }

    open spec fn eq_spec(&self, other: &Self) -> bool {
        &&& match (self.workspace_name, other.workspace_name) {
            (Some(a), Some(b)) => a@ == b@,
            (None, None) => true,
            _ => false,
        }
        &&& self.path@ == other.path@
    }
}

impl RepoPattern {
    /// Splits a raw pattern at the first colon that stands before any slash;
    /// the text before it, when non-empty, is the workspace name. Fails
    /// exactly when the final path segment of the remainder is empty.
    pub fn parse(s: &str) -> (r: Result<RepoPattern, ParseError>)
        ensures
            r is Ok <==> valid_final_segment(spec_remainder(s@)),
            r matches Ok(p) ==> {
                &&& (p.workspace_name is Some <==> has_workspace_prefix(s@))
                &&& (p.workspace_name matches Some(w) ==> w@ == s@.subrange(
                    0,
                    workspace_split_idx(s@),
                ))
                &&& p.path@ == spec_remainder(s@)
            },
    {
        let len = s.unicode_len();
        let i = first_sep_index(s);
        let mut workspace_name: Option<String> = None;
        let mut rem: &str = s;
        if i < len && i > 0 && s.get_char(i) == ':' {
            proof {
                assert(colon_qualifies(s@, i as int));
                lemma_colon_unique(s@, i as int, workspace_split_idx(s@));
            }
            workspace_name = Some(String::from_str(s.substring_char(0, i)));
            rem = s.substring_char(i + 1, len);
            proof {
                assert(rem@ =~= spec_remainder(s@));
            }
        } else {
            proof {
                assert(!has_workspace_prefix(s@)) by {
                    if has_workspace_prefix(s@) {
                        let j = choose|j: int| colon_qualifies(s@, j);
                        assert(colon_qualifies(s@, j));
                        if j < i {
                            assert(s@[j] != ':');
                        } else if i < s@.len() {
                            if s@[i as int] == '/' {
                                assert(i == j || s@[i as int] != '/');
                                assert(s@[j] == ':');
                            } else {
                                assert(i == 0);
                                assert(s@[0] != ':');
                            }
                        } else {
                            assert(j < s@.len());
                        }
                    }
                }
            }
        }
        let rlen = rem.unicode_len();
        if rlen == 0 {
            return Err(ParseError);
        }
        if rem.get_char(rlen - 1) == '/' {
            return Err(ParseError);
        }
        Ok(RepoPattern { workspace_name, path: String::from_str(rem) })
    }

    /// Reads the remote name off the front of the repo path. A `RepoPattern`
    /// cannot know whether this text really names a configured remote, so
    /// that decision is left to the caller.
    pub fn maybe_remote(&self) -> (r: Option<(String, String)>)
        ensures
            r is Some <==> has_remote_prefix(self.path@),
            r matches Some(parts) ==> {
                &&& parts.0@ == spec_remote_name(self.path@)
                &&& parts.1@ == spec_remote_rest(self.path@)
            },
    {
        let t = self.path.as_str();
        let len = t.unicode_len();
        let j = first_slash_index(t);
        if j < len && j > 0 {
            proof {
                assert(slash_qualifies(t@, j as int));
                lemma_slash_unique(t@, j as int, remote_split_idx(t@));
            }
            let rest = t.substring_char(j + 1, len);
            proof {
                assert(rest@ =~= t@.skip(j + 1));
            }
            Some((String::from_str(t.substring_char(0, j)), String::from_str(rest)))
        } else {
            proof {
                assert(!has_remote_prefix(t@)) by {
                    if has_remote_prefix(t@) {
                        let k = choose|k: int| slash_qualifies(t@, k);
                        if k < j {
                            assert(t@[k] != '/');
                        }
                    }
                }
            }
            None
        }
    }
}

impl core::str::FromStr for RepoPattern {
    type Err = ParseError;

    fn from_str(s: &str) -> Result<RepoPattern, ParseError> {
        RepoPattern::parse(s)
    }
}

} // verus!
