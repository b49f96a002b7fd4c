use vstd::prelude::*;
use vstd::string::*;
use crate::error::CacheError;
use crate::spec_key_for;
use crate::key_for;
use crate::text;

verus! {

/// Represents a workspace cache which is just a collection of bare
/// repositories, stored directly under their repo paths.
#[derive(Debug)]
pub struct Cache {
    /// The cache directory's filesystem path.
    pub path: String,
}

impl Cache {
    /// The cache slot that holds the archived form of `repo_path`.
    pub fn entry_path(&self, repo_path: &str) -> (r: String)
        ensures
            r@ == self.path@ + "/"@ + repo_path@,
    {
        text::join_path(self.path.as_str(), repo_path)
    }
}

/// The logical contents of the repository cache: which keys hold an archived
/// entry. The filesystem stores the bare repositories themselves; the
/// workflows driving archive and restore keep this record in step with the
/// directory to decide what each path is owed.
#[derive(Debug)]
pub struct CacheState {
    /// The occupied cache keys.
    pub keys: Vec<String>,
}

impl CacheState {
    /// Whether key `k` holds an entry.
    pub open spec fn has_key(&self, k: Seq<char>) -> bool {
        exists|i: int| 0 <= i < self.keys@.len() && self.keys@[i]@ == k
    }

    /// A cache with no entries at all.
    pub fn new() -> (r: CacheState)
        ensures
            r.keys@.len() == 0,
            forall|k: Seq<char>| !r.has_key(k),
    {
        CacheState { keys: Vec::new() }
    }

    /// Whether an entry is present for the checkout path `path` — true
    /// exactly when that path's key is occupied.
    pub fn is_archived(&self, path: &str) -> (r: bool)
        ensures
            r == self.has_key(spec_key_for(path@)),
    {
        let key = key_for(path);
        let mut i: usize = 0;
        while i < self.keys.len()
            invariant
                i <= self.keys@.len(),
                key@ == spec_key_for(path@),
                forall|k: int| 0 <= k < i ==> self.keys@[k]@ != key@,
            decreases self.keys@.len() - i,
        {
            if text::str_eq(self.keys[i].as_str(), key.as_str()) {
                return true;
            }
            i = i + 1;
        }
        false
    }

    /// Record the archive of the checkout at `path`: afterwards its key, and
    /// no other, holds an entry in addition to what was already there.
    /// Re-archiving an occupied key replaces the entry — last archive wins —
    /// so occupancy is unchanged for it.
    pub fn archive(&mut self, path: &str)
        ensures
            forall|k: Seq<char>|
                final(self).has_key(k) <==> old(self).has_key(k) || k == spec_key_for(path@),
    {
        let key = key_for(path);
        let ghost pre = *self;
        self.keys.push(key);
        proof {
            assert forall|k: Seq<char>|
                final(self).has_key(k) <==> pre.has_key(k) || k == spec_key_for(path@) by {
                if pre.has_key(k) {
                    let i = choose|i: int| 0 <= i < pre.keys@.len() && pre.keys@[i]@ == k;
                    assert(self.keys@[i]@ == k);
                }
                if k == spec_key_for(path@) {
                    assert(self.keys@[self.keys@.len() - 1]@ == k);
                }
                if final(self).has_key(k) {
                    let i = choose|i: int| 0 <= i < self.keys@.len() && self.keys@[i]@ == k;
                    if i < pre.keys@.len() {
                        assert(pre.keys@[i]@ == k);
                    }
                }
            }
        }
    }

    /// Record a restore of the checkout at `path`: owed success exactly when
    /// an entry is present for its key, and failing with NotArchived
    /// otherwise. The entry is never consumed — the cache is unchanged either
    /// way — so later restores of the same path succeed too.
    pub fn restore(&self, path: &str) -> (r: Result<(), CacheError>)
        ensures
            r is Ok <==> self.has_key(spec_key_for(path@)),
            r matches Err(e) ==> e == CacheError::NotArchived,
    {
        if self.is_archived(path) {
            Ok(())
        } else {
            Err(CacheError::NotArchived)
        }
    }
}

/// Law: a fresh cache holds an entry for no path at all.
pub proof fn lemma_fresh_cache_empty(c: CacheState, path: Seq<char>)
    requires
        c.keys@.len() == 0,
    ensures
        !c.has_key(spec_key_for(path)),
{
}

/// Law: archiving touches no key but its own. A path with no entry still
/// has none after a path with a different key is archived, so an entry for
/// a path can only appear once that path's own key is archived.
pub proof fn lemma_archive_leaves_others_absent(
    pre: CacheState,
    post: CacheState,
    archived: Seq<char>,
    other: Seq<char>,
)
    requires
        forall|k: Seq<char>| post.has_key(k) <==> pre.has_key(k) || k == spec_key_for(archived),
        !pre.has_key(spec_key_for(other)),
        spec_key_for(archived) != spec_key_for(other),
    ensures
        !post.has_key(spec_key_for(other)),
{
}

/// Law: the round trip over the cache's contents. Whatever the cache held
/// before, once a path is archived an entry exists for it, so a restore of
/// that same path is owed success; and since restoring consumes nothing, the
/// entry — and with it the success of any later restore — survives.
pub proof fn lemma_archive_then_restore(pre: CacheState, post: CacheState, path: Seq<char>)
    requires
        forall|k: Seq<char>| post.has_key(k) <==> pre.has_key(k) || k == spec_key_for(path),
    ensures
        post.has_key(spec_key_for(path)),
{
}

/// Law: the cache key is a pure function of the checkout path text — equal
/// paths always address the same slot, in this call and in every later one.
pub proof fn lemma_key_deterministic(a: Seq<char>, b: Seq<char>)
    requires
        a == b,
    ensures
        spec_key_for(a) == spec_key_for(b),
{
}

} // verus!
