use vstd::prelude::*;
use vstd::string::*;
use crate::error::ScanError;
use crate::text;

verus! {

/// The identity of a directory on disk, stable across the different names
/// and symlinks that reach it (on unix: device and inode numbers). Tracking
/// identities rather than raw path strings is what lets the scanner survive
/// symlink cycles.
#[derive(Debug, PartialEq, Eq, Structural, Clone, Copy)]
pub struct DirId {
    pub dev: u64,
    pub ino: u64,
}

/// What kind of thing one directory entry is.
#[derive(Debug)]
pub enum EntryKind {
    /// A subdirectory, or a symlink leading to one, with its identity.
    Subdir(DirId),
    /// Anything else; the scanner ignores it.
    Other,
}

/// One entry of a directory listing.
#[derive(Debug)]
pub struct DirEntry {
    /// The entry's name within its directory.
    pub name: String,
    pub kind: EntryKind,
}

/// What reading one directory produced: its entries, or nothing because it
/// was unreadable.
#[derive(Debug)]
pub enum DirListing {
    Entries(Vec<DirEntry>),
    Unreadable,
}

/// One directory awaiting a read: its path as composed from the scan root,
/// its identity, and the identities along the descent path that led to it,
/// root first.
#[derive(Debug)]
pub struct Frame {
    pub path: String,
    pub id: DirId,
    pub chain: Vec<DirId>,
}

/// The mathematical shadow of a `Frame`.
pub struct FrameV {
    pub path: Seq<char>,
    pub id: DirId,
    pub chain: Seq<DirId>,
}

impl View for Frame {
    type V = FrameV;

    open spec fn view(&self) -> FrameV {
        FrameV { path: self.path@, id: self.id, chain: self.chain@ }
    }
}

/// A frame's descent path never repeats a directory identity and never
/// already holds the frame's own.
pub open spec fn frame_wf(f: FrameV) -> bool {
    f.chain.no_duplicates() && !f.chain.contains(f.id)
}

/// Holds when an entry is the conventional subdirectory carrying git
/// history, which marks its parent as a repo root.
pub open spec fn is_git_marker(e: DirEntry) -> bool {
    e.name@ == ".git"@ && e.kind is Subdir
}

/// Holds when a directory listing marks its directory as a repo root.
pub open spec fn has_git_marker(entries: Seq<DirEntry>) -> bool {
    exists|i: int| 0 <= i < entries.len() && is_git_marker(entries[i])
}

/// Whether the scanner descends from the directory framed by `f` into its
/// entry `e`: only into subdirectories, and never into one whose identity
/// already stands on the descent path — that refusal is what breaks symlink
/// cycles.
pub open spec fn descends_into(f: FrameV, e: DirEntry) -> bool {
    &&& e.kind matches EntryKind::Subdir(cid)
    &&& e.kind->Subdir_0 != f.id
    &&& !f.chain.contains(e.kind->Subdir_0)
}

/// The frame the scanner pushes for entry `e` of the directory framed by `f`.
pub open spec fn child_frame(f: FrameV, e: DirEntry) -> FrameV {
    FrameV { path: f.path + "/"@ + e.name@, id: e.kind->Subdir_0, chain: f.chain.push(f.id) }
}

/// The frames for the entries the scanner descends into, in listing order.
pub open spec fn children_of(f: FrameV, entries: Seq<DirEntry>) -> Seq<FrameV>
    decreases entries.len(),
{
    if entries.len() == 0 {
        Seq::empty()
    } else {
        let rest = children_of(f, entries.drop_first());
        if descends_into(f, entries.first()) {
            seq![child_frame(f, entries.first())] + rest
        } else {
            rest
        }
    }
}

/// The scan's outcome: the repo roots found, sorted lexicographically, and a
/// warning path for each unreadable subdirectory.
#[derive(Debug)]
pub struct ScanOutcome {
    pub repos: Vec<String>,
    pub warnings: Vec<String>,
}

/// A depth-first directory scan in progress. The scanner holds every
/// decision of the scan; its driver only reads the directory named by
/// `next_request` and hands the listing to `feed`, until `next_request`
/// returns nothing. Entries are visited in the order each listing presents
/// them; `finish` sorts what was found, so the outcome for a given
/// filesystem snapshot does not depend on that order.
#[derive(Debug)]
pub struct Scanner {
    /// Directories awaiting a read; the last is read next.
    pub stack: Vec<Frame>,
    /// Repo roots found so far, in depth-first order.
    pub found: Vec<String>,
    /// The paths of unreadable subdirectories, recorded instead of aborting
    /// the scan.
    pub warnings: Vec<String>,
    /// Whether the scan root itself could not be read, which fails the
    /// whole scan.
    pub root_failed: bool,
    /// Whether the next read is the scan root's own.
    pub at_root: bool,
}

impl Scanner {
    /// The pending frames, mathematically.
    pub open spec fn spec_stack(&self) -> Seq<FrameV> {
        self.stack@.map_values(|f: Frame| f@)
    }

    /// The repo roots found so far, mathematically.
    pub open spec fn spec_found(&self) -> Seq<Seq<char>> {
        self.found@.map_values(|s: String| s@)
    }

    /// The warnings recorded so far, mathematically.
    pub open spec fn spec_warnings(&self) -> Seq<Seq<char>> {
        self.warnings@.map_values(|s: String| s@)
    }

    /// Every pending frame has a duplicate-free descent path.
    pub open spec fn wf(&self) -> bool {
        forall|i: int| 0 <= i < self.spec_stack().len() ==> frame_wf(#[trigger] self.spec_stack()[i])
    }

    /// Start a scan at `root_path`, whose directory identity is `root_id`.
    pub fn new(root_path: String, root_id: DirId) -> (r: Scanner)
        ensures
            r.wf(),
            r.spec_stack() =~= seq![
                FrameV { path: root_path@, id: root_id, chain: Seq::empty() },
            ],
            r.spec_found() =~= Seq::<Seq<char>>::empty(),
            r.spec_warnings() =~= Seq::<Seq<char>>::empty(),
            !r.root_failed,
            r.at_root,
    {
        let mut stack: Vec<Frame> = Vec::new();
        stack.push(Frame { path: root_path, id: root_id, chain: Vec::new() });
        Scanner { stack, found: Vec::new(), warnings: Vec::new(), root_failed: false, at_root: true }
    }

    /// The next directory to read — its path and identity — or nothing when
    /// every directory has been dealt with.
    pub fn next_request(&self) -> (r: Option<(String, DirId)>)
        ensures
            r is Some <==> self.spec_stack().len() > 0,
            r matches Some(req) ==> req.0@ == self.spec_stack().last().path && req.1
                == self.spec_stack().last().id,
    {
        if self.stack.len() > 0 {
            let f = &self.stack[self.stack.len() - 1];
            Some((f.path.clone(), f.id))
        } else {
            None
        }
    }

    /// Digest the listing of the directory that `next_request` named last.
    ///
    /// An unreadable root fails the scan; an unreadable subdirectory only
    /// records a warning and the scan goes on with what it has. A directory
    /// showing the git marker is itself a repo root and descent stops below
    /// it: none of its entries are visited. Any other directory has its
    /// subdirectory entries scheduled depth-first in listing order, skipping
    /// the ones that would revisit an identity on the descent path.
    pub fn feed(&mut self, listing: DirListing)
        requires
            old(self).wf(),
            old(self).spec_stack().len() > 0,
        ensures
            final(self).wf(),
            !final(self).at_root,
            ({
                let f = old(self).spec_stack().last();
                let rest = old(self).spec_stack().drop_last();
                match listing {
                    DirListing::Unreadable => {
                        if old(self).at_root {
                            &&& final(self).root_failed
                            &&& final(self).spec_stack() =~= Seq::<FrameV>::empty()
                            &&& final(self).spec_found() =~= old(self).spec_found()
                            &&& final(self).spec_warnings() =~= old(self).spec_warnings()
                        } else {
                            &&& final(self).root_failed == old(self).root_failed
                            &&& final(self).spec_stack() =~= rest
                            &&& final(self).spec_found() =~= old(self).spec_found()
                            &&& final(self).spec_warnings() =~= old(self).spec_warnings().push(
                                f.path,
                            )
                        }
                    },
                    DirListing::Entries(es) => {
                        &&& final(self).root_failed == old(self).root_failed
                        &&& if has_git_marker(es@) {
                            &&& final(self).spec_stack() =~= rest
                            &&& final(self).spec_found() =~= old(self).spec_found().push(f.path)
                        } else {
                            &&& final(self).spec_stack() =~= rest + children_of(f, es@).reverse()
                            &&& final(self).spec_found() =~= old(self).spec_found()
                        }
                        &&& final(self).spec_warnings() =~= old(self).spec_warnings()
                    },
                }
            }),
    {
        let ghost old_stack = self.spec_stack();
        let f = self.stack.pop().unwrap();
        proof {
            assert(f@ == old_stack.last());
            assert(self.spec_stack() =~= old_stack.drop_last());
        }
        let was_root = self.at_root;
        self.at_root = false;
        match listing {
            DirListing::Unreadable => {
                if was_root {
                    self.root_failed = true;
                    self.stack = Vec::new();
                } else {
                    self.warnings.push(f.path);
                }
            },
            DirListing::Entries(es) => {
                let mut gi: usize = 0;
                let mut has_git = false;
                while gi < es.len()
                    invariant
                        gi <= es@.len(),
                        has_git <==> exists|k: int| 0 <= k < gi && is_git_marker(es@[k]),
                    decreases es@.len() - gi,
                {
                    let e = &es[gi];
                    let is_dir = match &e.kind {
                        EntryKind::Subdir(_) => true,
                        EntryKind::Other => false,
                    };
                    if is_dir && text::str_eq(e.name.as_str(), ".git") {
                        proof {
                            assert(is_git_marker(es@[gi as int]));
                        }
                        has_git = true;
                    }
                    gi = gi + 1;
                }
                if has_git {
                    self.found.push(f.path);
                } else {
                    proof {
                        assert(!has_git_marker(es@));
                    }
                    let ghost rest = self.spec_stack();
                    let mut j: usize = es.len();
                    while j > 0
                        invariant
                            j <= es@.len(),
                            frame_wf(f@),
                            self.spec_stack() =~= rest + children_of(f@, es@.skip(j as int)).reverse(),
                            forall|i: int|
                                0 <= i < self.spec_stack().len() ==> frame_wf(
                                    #[trigger] self.spec_stack()[i],
                                ),
                            self.spec_found() =~= old(self).spec_found(),
                            self.spec_warnings() =~= old(self).spec_warnings(),
                            self.root_failed == old(self).root_failed,
                            !self.at_root,
                        decreases j,
                    {
                        j = j - 1;
                        let ghost stack_before = self.spec_stack();
                        let e = &es[j];
                        match &e.kind {
                            EntryKind::Subdir(cid) => {
                                let revisit = *cid == f.id || contains_id(&f.chain, *cid);
                                if !revisit {
                                    let chain = extended_chain(&f);
                                    let path = text::join_path(f.path.as_str(), e.name.as_str());
                                    let child = Frame { path, id: *cid, chain };
                                    proof {
                                        assert(child@ == child_frame(f@, es@[j as int]));
                                        lemma_chain_push_wf(f@);
                                    }
                                    self.stack.push(child);
                                    proof {
                                        assert(self.spec_stack() =~= stack_before.push(
                                            child_frame(f@, es@[j as int]),
                                        ));
                                    }
                                }
                            },
                            EntryKind::Other => {},
                        }
                        proof {
                            lemma_children_step(f@, es@, j as int);
                            assert(self.spec_stack() =~= rest + children_of(
                                f@,
                                es@.skip(j as int),
                            ).reverse());
                        }
                    }
                    proof {
                        assert(es@.skip(0) =~= es@);
                    }
                }
            },
        }
    }

    /// Whether every directory has been dealt with.
    pub fn is_done(&self) -> (r: bool)
        ensures
            r == (self.spec_stack().len() == 0),
    {
        self.stack.len() == 0
    }

    /// Conclude the scan: exactly the repo roots found, sorted
    /// lexicographically, together with the warnings gathered along the way,
    /// or IOError when the scan root itself was unreadable. Partial results
    /// survive unreadable subtrees; only an unreadable root discards the
    /// scan. The sorting makes the outcome deterministic for a given
    /// filesystem snapshot, whatever order the listings presented their
    /// entries in.
    pub fn finish(self) -> (r: Result<ScanOutcome, ScanError>)
        requires
            self.spec_stack().len() == 0,
        ensures
            r is Ok <==> !self.root_failed,
            r matches Ok(out) ==> {
                &&& text::sorted_lex(text::views_of(out.repos@))
                &&& text::views_of(out.repos@).to_multiset() == self.spec_found().to_multiset()
                &&& text::sorted_lex(text::views_of(out.warnings@))
                &&& text::views_of(out.warnings@).to_multiset()
                    == self.spec_warnings().to_multiset()
            },
            r matches Err(e) ==> e == ScanError::IOError,
    {
        if self.root_failed {
            Err(ScanError::IOError)
        } else {
            proof {
                assert(text::views_of(self.found@) =~= self.spec_found());
                assert(text::views_of(self.warnings@) =~= self.spec_warnings());
            }
            Ok(
                ScanOutcome {
                    repos: text::sort_paths(self.found),
                    warnings: text::sort_paths(self.warnings),
                },
            )
        }
    }
}

/// Whether `v` holds `id`.
fn contains_id(v: &Vec<DirId>, id: DirId) -> (r: bool)
    ensures
        r == v@.contains(id),
{
    let mut i: usize = 0;
    while i < v.len()
        invariant
            i <= v@.len(),
            forall|k: int| 0 <= k < i ==> v@[k] != id,
        decreases v@.len() - i,
    {
        if v[i] == id {
            return true;
        }
        i = i + 1;
    }
    proof {
        assert(!v@.contains(id));
    }
    false
}

/// The descent path for a child of `f`: `f`'s own, extended by `f`.
fn extended_chain(f: &Frame) -> (r: Vec<DirId>)
    ensures
        r@ =~= f.chain@.push(f.id),
{
    let mut r: Vec<DirId> = Vec::new();
    let mut i: usize = 0;
    while i < f.chain.len()
        invariant
            i <= f.chain@.len(),
            r@ =~= f.chain@.take(i as int),
        decreases f.chain@.len() - i,
    {
        r.push(f.chain[i]);
        i = i + 1;
    }
    proof {
        assert(f.chain@.take(f.chain@.len() as int) =~= f.chain@);
    }
    r.push(f.id);
    r
}

/// Extending a well-formed frame's descent path by the frame itself keeps it
/// free of duplicates.
proof fn lemma_chain_push_wf(f: FrameV)
    requires
        frame_wf(f),
    ensures
        f.chain.push(f.id).no_duplicates(),
{
    let c = f.chain.push(f.id);
    assert forall|i: int, j: int| 0 <= i < c.len() && 0 <= j < c.len() && i != j implies c[i]
        != c[j] by {
        if i < f.chain.len() && j == f.chain.len() {
            assert(f.chain[i] != f.id) by {
                if f.chain[i] == f.id {
                    assert(f.chain.contains(f.id));
                }
            }
        } else if j < f.chain.len() && i == f.chain.len() {
            assert(f.chain[j] != f.id) by {
                if f.chain[j] == f.id {
                    assert(f.chain.contains(f.id));
                }
            }
        }
    }
}

/// One step of the children computation: going from the entries after `j`
/// to the entries from `j` on prepends at most the frame for entry `j`.
proof fn lemma_children_step(f: FrameV, es: Seq<DirEntry>, j: int)
    requires
        0 <= j < es.len(),
    ensures
        children_of(f, es.skip(j)).reverse() =~= if descends_into(f, es[j]) {
            children_of(f, es.skip(j + 1)).reverse().push(child_frame(f, es[j]))
        } else {
            children_of(f, es.skip(j + 1)).reverse()
        },
{
    assert(es.skip(j).drop_first() =~= es.skip(j + 1));
    assert(es.skip(j).first() == es[j]);
    assert(es.skip(j).len() > 0);
    let rest = children_of(f, es.skip(j + 1));
    if descends_into(f, es[j]) {
        assert(children_of(f, es.skip(j)) =~= seq![child_frame(f, es[j])] + rest);
        assert((seq![child_frame(f, es[j])] + rest).reverse() =~= rest.reverse().push(
            child_frame(f, es[j]),
        ));
    }
}

/// Each descent step deepens the chain by exactly one identity and keeps it
/// free of repeats, so on a filesystem with finitely many distinct directory
/// identities every descent path is shorter than their number: a scan
/// terminates even when symlinks form cycles.
pub proof fn lemma_chain_bounded(f: FrameV, ids: Set<DirId>)
    requires
        frame_wf(f),
        ids.finite(),
        forall|k: int| 0 <= k < f.chain.len() ==> ids.contains(#[trigger] f.chain[k]),
        ids.contains(f.id),
    ensures
        f.chain.len() < ids.len(),
{
    let closed = f.chain.push(f.id);
    lemma_chain_push_wf(f);
    closed.unique_seq_to_set();
    assert(closed.to_set().subset_of(ids)) by {
        assert forall|x: DirId| closed.to_set().contains(x) implies ids.contains(x) by {
            let k = choose|k: int| 0 <= k < closed.len() && closed[k] == x;
            if k < f.chain.len() {
                assert(ids.contains(f.chain[k]));
            }
        }
    }
    vstd::set_lib::lemma_len_subset(closed.to_set(), ids);
}

} // verus!
