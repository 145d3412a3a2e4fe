//! The directory walker: an incremental, cycle-safe enumeration of candidate
//! directories under a root.
//!
//! The walker itself never touches the filesystem. The caller pops the next
//! directory to read with `next_dir`, lists its subdirectories however the
//! platform allows (unreadable directories are simply never offered back),
//! and hands them to `offer`. The walker guarantees that a directory whose
//! base name is on the deny-list is never yielded, and — cycle safety — that
//! no directory is yielded twice within one walk, however often cyclic links
//! make the caller offer it.

use vstd::prelude::*;

use crate::anchors::str_is;

verus! {

/// One directory, as its full path and its base name.
#[derive(Clone, Debug, PartialEq)]
pub struct DirNode {
    pub path: String,
    pub name: String,
}

/// Is a base name on the fixed deny-list of system and noise directories
/// that the walk never descends into?
pub open spec fn spec_denied(name: Seq<char>) -> bool {
    ||| name == "Windows"@
    ||| name == "AppData"@
    ||| name == "System32"@
    ||| name == "WinNT"@
    ||| name == "Program Files"@
    ||| name == "Program Files (x86)"@
    ||| name == "ProgramData"@
    ||| name == "$Recycle.Bin"@
}

/// Deny-list membership, decided executably.
pub fn is_denied(name: &String) -> (r: bool)
    ensures
        r == spec_denied(name@),
{
    str_is(name, "Windows") || str_is(name, "AppData") || str_is(name, "System32") || str_is(
        name,
        "WinNT",
    ) || str_is(name, "Program Files") || str_is(name, "Program Files (x86)") || str_is(
        name,
        "ProgramData",
    ) || str_is(name, "$Recycle.Bin")
}

/// Is a path among the already-visited ones?
fn contains_path(paths: &Vec<String>, path: &String) -> (r: bool)
    ensures
        r == paths.deep_view().contains(path@),
{
    let ghost views = paths.deep_view();
    for i in 0..paths.len()
        invariant
            views == paths.deep_view(),
            views.len() == paths.len(),
            forall|j: int| 0 <= j < i ==> views[j] != path@,
    {
        if paths[i].eq(path) {
            assert(views[i as int] == path@);
            return true;
        }
    }
    false
}

/// Does the walker accept an offered child: not deny-listed, and not already
/// visited within this walk?
pub open spec fn spec_accepts(visited: Seq<Seq<char>>, d: DirNode) -> bool {
    !spec_denied(d.name@) && !visited.contains(d.path@)
}

/// The subsequence of offered children that a walker with the given visited
/// record accepts, in offer order.
pub open spec fn accepted_children(children: Seq<DirNode>, visited: Seq<Seq<char>>) -> Seq<
    DirNode,
> {
    children.filter(|d: DirNode| spec_accepts(visited, d))
}

/// One walk over a subtree.
///
/// `pending` is the frontier of directories not yet yielded; `visited` is
/// every path yielded so far, consulted before each yield so that cyclic
/// links cannot make the walk revisit a directory. Memory stays bounded by
/// the frontier, not by the whole tree: the caller offers one directory's
/// children at a time.
pub struct DirWalker {
    pending: Vec<DirNode>,
    visited: Vec<String>,
}

impl DirWalker {
    /// The frontier still to be examined.
    pub closed spec fn spec_pending(self) -> Seq<DirNode> {
        self.pending@
    }

    /// The paths yielded so far, in yield order.
    pub closed spec fn spec_visited(self) -> Seq<Seq<char>> {
        self.visited.deep_view()
    }

    /// A walk that starts at one root and has yielded nothing.
    pub fn new(root: DirNode) -> (w: DirWalker)
        ensures
            w.spec_pending() == seq![root],
            w.spec_visited() == Seq::<Seq<char>>::empty(),
    {
        let w = DirWalker { pending: vec![root], visited: Vec::new() };
        assert(w.visited.deep_view() =~= Seq::<Seq<char>>::empty());
        w
    }

    /// The next directory the caller should read, if the frontier holds one.
    ///
    /// Pops frontier entries until one is acceptable — not deny-listed, not
    /// yielded before — records it as visited and returns it. Nothing
    /// acceptable is ever dropped: the entries discarded on the way to a
    /// yield, and all of the frontier when `None` comes back, were each
    /// deny-listed or already visited. `None` means the frontier is
    /// exhausted and the walk is over. Every call shrinks the frontier, so a
    /// walk the caller stops feeding terminates.
    pub fn next_dir(&mut self) -> (r: Option<DirNode>)
        ensures
            match r {
                Some(d) => {
                    &&& !spec_denied(d.name@)
                    &&& !old(self).spec_visited().contains(d.path@)
                    &&& old(self).spec_pending().contains(d)
                    &&& final(self).spec_visited() == old(self).spec_visited().push(d.path@)
                    &&& final(self).spec_pending().len() < old(self).spec_pending().len()
                    &&& exists|k: int|
                        {
                            &&& 0 <= k < old(self).spec_pending().len()
                            &&& old(self).spec_pending()[k] == d
                            &&& final(self).spec_pending() == old(self).spec_pending().take(k)
                            &&& forall|j: int|
                                k < j < old(self).spec_pending().len() ==> !spec_accepts(
                                    old(self).spec_visited(),
                                    old(self).spec_pending()[j],
                                )
                        }
                },
                None => {
                    &&& final(self).spec_pending().len() == 0
                    &&& final(self).spec_visited() == old(self).spec_visited()
                    &&& forall|j: int|
                        0 <= j < old(self).spec_pending().len() ==> !spec_accepts(
                            old(self).spec_visited(),
                            old(self).spec_pending()[j],
                        )
                },
            },
    {
        let ghost pre = *self;
        loop
            invariant
                pre == *old(self),
                self.visited@ == pre.visited@,
                self.pending@.len() <= pre.pending@.len(),
                self.pending@ == pre.pending@.take(self.pending@.len() as int),
                forall|j: int|
                    self.pending@.len() <= j < pre.pending@.len() ==> !spec_accepts(
                        pre.spec_visited(),
                        pre.pending@[j],
                    ),
            decreases self.pending@.len(),
        {
            proof {
                assert(self.visited.deep_view() =~= pre.visited.deep_view());
            }
            match self.pending.pop() {
                Some(d) => {
                    let ghost k = self.pending@.len() as int;
                    assert(pre.pending@.contains(d)) by {
                        assert(pre.pending@.take(k + 1)[k] == d);
                        assert(pre.pending@[k] == d);
                    }
                    if !is_denied(&d.name) && !contains_path(&self.visited, &d.path) {
                        self.visited.push(d.path.clone());
                        proof {
                            assert(self.visited.deep_view() =~= pre.visited.deep_view().push(
                                d.path@,
                            ));
                            assert(0 <= k < pre.spec_pending().len());
                            assert(pre.spec_pending()[k] == d);
                            assert(self.spec_pending() == pre.spec_pending().take(k));
                            assert(forall|j: int|
                                k < j < pre.spec_pending().len() ==> !spec_accepts(
                                    pre.spec_visited(),
                                    pre.spec_pending()[j],
                                ));
                            assert(exists|k: int|
                                {
                                    &&& 0 <= k < pre.spec_pending().len()
                                    &&& pre.spec_pending()[k] == d
                                    &&& self.spec_pending() == pre.spec_pending().take(k)
                                    &&& forall|j: int|
                                        k < j < pre.spec_pending().len() ==> !spec_accepts(
                                            pre.spec_visited(),
                                            pre.spec_pending()[j],
                                        )
                                });
                        }
                        return Some(d);
                    } else {
                        assert(!spec_accepts(pre.spec_visited(), pre.pending@[k]));
                    }
                },
                None => {
                    return None;
                },
            }
        }
    }

    /// Hand the walker the subdirectories of the directory it last yielded.
    ///
    /// Exactly the acceptable children — those neither deny-listed nor
    /// already visited — join the frontier, in the order offered; the
    /// visited record is untouched.
    pub fn offer(&mut self, children: Vec<DirNode>)
        ensures
            final(self).spec_visited() == old(self).spec_visited(),
            final(self).spec_pending() == old(self).spec_pending() + accepted_children(
                children@,
                old(self).spec_visited(),
            ),
    {
        let ghost pre = *self;
        let ghost vis = pre.spec_visited();
        for i in 0..children.len()
            invariant
                pre == *old(self),
                vis == pre.spec_visited(),
                self.visited@ == pre.visited@,
                self.pending@ == pre.pending@ + accepted_children(children@.take(i as int), vis),
        {
            let child_ok = !is_denied(&children[i].name) && !contains_path(
                &self.visited,
                &children[i].path,
            );
            proof {
                assert(self.visited.deep_view() =~= vis);
                reveal(Seq::filter);
                assert(children@.take(i + 1).drop_last() =~= children@.take(i as int));
                assert(children@.take(i + 1).last() == children@[i as int]);
                assert(child_ok == spec_accepts(vis, children@[i as int]));
            }
            if child_ok {
                let child = DirNode { path: children[i].path.clone(), name: children[i].name.clone() };
                assert(child == children@[i as int]);
                self.pending.push(child);
                assert(self.pending@ =~= pre.pending@ + accepted_children(
                    children@.take(i + 1),
                    vis,
                ));
            } else {
                assert(self.pending@ =~= pre.pending@ + accepted_children(
                    children@.take(i + 1),
                    vis,
                ));
            }
        }
        proof {
            assert(children@.take(children@.len() as int) =~= children@);
            assert(self.visited.deep_view() =~= pre.visited.deep_view());
        }
    }
}

/// Each yield keeps the visited record free of duplicates: `next_dir` only
/// pushes a path the record did not hold, so a walk that starts from the
/// empty record stays duplicate-free throughout.
pub proof fn lemma_visited_stays_duplicate_free(pre: Seq<Seq<char>>, p: Seq<char>)
    requires
        pre.no_duplicates(),
        !pre.contains(p),
    ensures
        pre.push(p).no_duplicates(),
{
    assert forall|i: int, j: int|
        0 <= i < pre.push(p).len() && 0 <= j < pre.push(p).len() && i != j implies pre.push(p)[i]
        != pre.push(p)[j] by {
        if i < pre.len() && j < pre.len() {
            assert(pre.push(p)[i] == pre[i]);
            assert(pre.push(p)[j] == pre[j]);
        } else if j == pre.len() {
            assert(pre.push(p)[i] == pre[i]);
            if pre[i] == p {
                assert(pre.contains(p));
            }
        } else {
            assert(pre.push(p)[j] == pre[j]);
            if pre[j] == p {
                assert(pre.contains(p));
            }
        }
    }
}

/// Bounded termination of a whole walk: a duplicate-free visited record
/// whose paths all come from a finite universe — the distinct directories
/// the filesystem holds, cyclic links included — can never grow past that
/// universe, so a walk yields at most as many directories as exist and ends
/// in bounded time even on a self-referential link.
pub proof fn lemma_walk_bounded(w: DirWalker, universe: Set<Seq<char>>)
    requires
        w.spec_visited().no_duplicates(),
        universe.finite(),
        forall|i: int|
            0 <= i < w.spec_visited().len() ==> universe.contains(#[trigger] w.spec_visited()[i]),
    ensures
        w.spec_visited().len() <= universe.len(),
{
    let visited = w.spec_visited();
    visited.unique_seq_to_set();
    assert forall|x: Seq<char>| visited.to_set().contains(x) implies universe.contains(x) by {
        assert(visited.contains(x));
        let i = choose|i: int| 0 <= i < visited.len() && visited[i] == x;
        assert(universe.contains(visited[i]));
    }
    assert(visited.to_set().subset_of(universe));
    vstd::set_lib::lemma_len_subset(visited.to_set(), universe);
}

/// Cycle safety of the walk: once a directory has been yielded, no later
/// call of `next_dir` on the same walk can yield it again, however the
/// caller feeds the walker in between. `mid` stands for the walker at any
/// later point whose visited record extends the first yield's.
pub proof fn lemma_walk_never_revisits(
    w0: DirWalker,
    w1: DirWalker,
    mid: DirWalker,
    w2: DirWalker,
    d1: DirNode,
    d2: DirNode,
)
    requires
        w1.spec_visited() == w0.spec_visited().push(d1.path@),
        !w0.spec_visited().contains(d1.path@),
        w1.spec_visited().is_prefix_of(mid.spec_visited()),
        !mid.spec_visited().contains(d2.path@),
        w2.spec_visited() == mid.spec_visited().push(d2.path@),
    ensures
        d1.path@ != d2.path@,
{
    assert(w1.spec_visited()[w0.spec_visited().len() as int] == d1.path@);
    assert(mid.spec_visited()[w0.spec_visited().len() as int] == d1.path@);
    assert(mid.spec_visited().contains(d1.path@));
}

} // verus!
