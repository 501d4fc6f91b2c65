//! Finding the root of an archive.
//!
//! An archive often arrives wrapped in one or more directories. The search
//! starts at a given path and descends for as long as the directory it looks
//! at is not the root and holds exactly one subdirectory. It reads nothing
//! itself: the caller observes each directory the search asks for and hands
//! back what it saw.

use vstd::prelude::*;
use vstd::string::*;

verus! {

/// Where a file named `version` marks `directory` as the root.
pub fn version_marker(directory: &str) -> (marker: String)
    ensures
        marker@ == directory@ + "/version"@,
{
    let mut marker = directory.to_owned();
    marker.append("/version");
    marker
}

/// Where a directory named `namespaces` marks `directory` as the root, if
/// the other marker directory stands beside it.
pub fn namespaces_marker(directory: &str) -> (marker: String)
    ensures
        marker@ == directory@ + "/namespaces"@,
{
    let mut marker = directory.to_owned();
    marker.append("/namespaces");
    marker
}

/// Where a directory named `cluster-scoped-resources` marks `directory` as
/// the root, if the other marker directory stands beside it.
pub fn cluster_scoped_marker(directory: &str) -> (marker: String)
    ensures
        marker@ == directory@ + "/cluster-scoped-resources"@,
{
    let mut marker = directory.to_owned();
    marker.append("/cluster-scoped-resources");
    marker
}

/// What an observer sees of one directory.
#[derive(Clone, Debug, PartialEq, Eq)]
pub struct DirProbe {
    /// The directory holds a file named `version`.
    pub has_version_file: bool,
    /// The directory holds a directory named `namespaces`.
    pub has_namespaces_dir: bool,
    /// The directory holds a directory named `cluster-scoped-resources`.
    pub has_cluster_scoped_dir: bool,
    /// The paths of its immediate subdirectories, in any order; `None` where
    /// the directory could not be listed.
    pub subdirs: Option<Vec<String>>,
}

/// The mathematical content of a [`DirProbe`].
pub struct DirProbeView {
    pub has_version_file: bool,
    pub has_namespaces_dir: bool,
    pub has_cluster_scoped_dir: bool,
    pub subdirs: Option<Seq<Seq<char>>>,
}

impl View for DirProbe {
    type V = DirProbeView;

    open spec fn view(&self) -> DirProbeView {
        DirProbeView {
            has_version_file: self.has_version_file,
            has_namespaces_dir: self.has_namespaces_dir,
            has_cluster_scoped_dir: self.has_cluster_scoped_dir,
            subdirs: match self.subdirs {
                Some(dirs) => Some(dirs@.map_values(|dir: String| dir@)),
                None => None,
            },
        }
    }
}

impl DirProbeView {
    /// The root invariant: a directory is the root of an archive when it
    /// holds a `version` file, or both a `namespaces` and a
    /// `cluster-scoped-resources` directory.
    pub open spec fn is_root(self) -> bool {
        self.has_version_file || (self.has_namespaces_dir && self.has_cluster_scoped_dir)
    }

    /// The one subdirectory that a search goes on to from a directory that
    /// is not the root, where there is exactly one.
    pub open spec fn only_child(self) -> Option<Seq<char>> {
        match self.subdirs {
            Some(dirs) if !self.is_root() && dirs.len() == 1 => Some(dirs[0]),
            _ => None,
        }
    }
}

impl DirProbe {
    /// Whether the observed directory is the root of an archive.
    pub fn is_root(&self) -> (b: bool)
        ensures
            b == self@.is_root(),
    {
        self.has_version_file || (self.has_namespaces_dir && self.has_cluster_scoped_dir)
    }
}

/// Why a search found no root.
#[derive(Clone, Copy, Debug, PartialEq, Eq, Structural)]
pub enum RootError {
    /// A directory on the way was not the root and held no subdirectory, or
    /// more than one: the search does not guess.
    RootNotFound,
    /// A directory on the way was not the root and could not be listed.
    InputUnreadable,
}

impl RootError {
    /// The error in words.
    pub fn message(&self) -> (text: &'static str)
        ensures
            text@ == match *self {
                RootError::RootNotFound => "Cannot determine root of must-gather"@,
                RootError::InputUnreadable => "Cannot read must-gather directory"@,
            },
    {
        match self {
            RootError::RootNotFound => "Cannot determine root of must-gather",
            RootError::InputUnreadable => "Cannot read must-gather directory",
        }
    }
}

/// How far a search has come without failing.
#[derive(Clone, Debug, PartialEq, Eq)]
pub enum RootSearch {
    /// The directory at this path is the root.
    Found(String),
    /// The search must see the directory at this path to go on.
    Unseen(String),
}

/// The mathematical content of a [`RootSearch`].
pub enum RootSearchView {
    Found(Seq<char>),
    Unseen(Seq<char>),
}

impl View for RootSearch {
    type V = RootSearchView;

    open spec fn view(&self) -> RootSearchView {
        match self {
            RootSearch::Found(path) => RootSearchView::Found(path@),
            RootSearch::Unseen(path) => RootSearchView::Unseen(path@),
        }
    }
}

/// The contents of a list of observations.
pub open spec fn views(seen: Seq<DirProbe>) -> Seq<DirProbeView> {
    seen.map_values(|probe: DirProbe| probe@)
}

/// The search from `path`, where `seen` holds what the directories on the
/// way showed, outermost first.
pub open spec fn search(path: Seq<char>, seen: Seq<DirProbeView>) -> Result<
    RootSearchView,
    RootError,
>
    decreases seen.len(),
{
    if seen.len() == 0 {
        Ok(RootSearchView::Unseen(path))
    } else if seen[0].is_root() {
        Ok(RootSearchView::Found(path))
    } else {
        match seen[0].subdirs {
            None => Err(RootError::InputUnreadable),
            Some(dirs) => if dirs.len() == 1 {
                search(dirs[0], seen.drop_first())
            } else {
                Err(RootError::RootNotFound)
            },
        }
    }
}

/// A directory that is not the root and holds a single subdirectory that
/// is the root, gives that subdirectory.
pub proof fn lemma_search_unwraps_one_level(path: Seq<char>, seen: Seq<DirProbeView>)
    requires
        seen.len() >= 2,
        seen[0].only_child() is Some,
        seen[1].is_root(),
    ensures
        search(path, seen) == Ok::<RootSearchView, RootError>(
            RootSearchView::Found(seen[0].only_child()->0),
        ),
{
    assert(seen.drop_first()[0] == seen[1]);
    assert(search(seen[0].only_child()->0, seen.drop_first()) == Ok::<RootSearchView, RootError>(
        RootSearchView::Found(seen[0].only_child()->0),
    ));
}

/// An answer is final: once the search has found the root or failed, more
/// observations change nothing.
pub proof fn lemma_search_answer_is_final(
    path: Seq<char>,
    seen: Seq<DirProbeView>,
    more: Seq<DirProbeView>,
)
    requires
        !(search(path, seen) matches Ok(RootSearchView::Unseen(_))),
    ensures
        search(path, seen + more) == search(path, seen),
    decreases seen.len(),
{
    if seen.len() > 0 {
        assert((seen + more)[0] == seen[0]);
        assert((seen + more).drop_first() == seen.drop_first() + more);
        match seen[0].only_child() {
            Some(child) => lemma_search_answer_is_final(child, seen.drop_first(), more),
            None => {},
        }
    }
}

/// The search goes on where it stopped: with the observation of the
/// directory that it asked for, it is as if it had started there.
pub proof fn lemma_search_goes_on(
    path: Seq<char>,
    seen: Seq<DirProbeView>,
    next: Seq<char>,
    more: Seq<DirProbeView>,
)
    requires
        search(path, seen) == Ok::<RootSearchView, RootError>(RootSearchView::Unseen(next)),
    ensures
        search(path, seen + more) == search(next, more),
    decreases seen.len(),
{
    if seen.len() == 0 {
        assert(seen + more == more);
    } else {
        assert((seen + more)[0] == seen[0]);
        assert((seen + more).drop_first() == seen.drop_first() + more);
        match seen[0].only_child() {
            Some(child) => lemma_search_goes_on(child, seen.drop_first(), next, more),
            None => {},
        }
    }
}

/// What a search from `path` is shown in a directory tree, where `tree` gives
/// what each path shows and the search may look at up to `limit`
/// directories.
pub open spec fn sightings(
    tree: spec_fn(Seq<char>) -> DirProbeView,
    path: Seq<char>,
    limit: nat,
) -> Seq<DirProbeView>
    decreases limit,
{
    if limit == 0 {
        Seq::empty()
    } else {
        match tree(path).only_child() {
            Some(child) => seq![tree(path)] + sightings(tree, child, (limit - 1) as nat),
            None => seq![tree(path)],
        }
    }
}

/// The search is idempotent. In a directory tree that stays as it is, the
/// path that a search gives is that of a root, and a search that starts
/// there gives that same path.
pub proof fn lemma_search_is_idempotent(
    tree: spec_fn(Seq<char>) -> DirProbeView,
    path: Seq<char>,
    limit: nat,
    root: Seq<char>,
    again: nat,
)
    requires
        search(path, sightings(tree, path, limit)) == Ok::<RootSearchView, RootError>(
            RootSearchView::Found(root),
        ),
        again >= 1,
    ensures
        tree(root).is_root(),
        search(root, sightings(tree, root, again)) == Ok::<RootSearchView, RootError>(
            RootSearchView::Found(root),
        ),
    decreases limit,
{
    let seen = sightings(tree, path, limit);
    if limit > 0 {
        assert(seen[0] == tree(path));
        if tree(path).is_root() {
            assert(root == path);
            assert(sightings(tree, root, again)[0] == tree(root));
        } else {
            match tree(path).only_child() {
                Some(child) => {
                    assert(seen.drop_first() == sightings(tree, child, (limit - 1) as nat));
                    lemma_search_is_idempotent(tree, child, (limit - 1) as nat, root, again);
                },
                None => {},
            }
        }
    }
}

/// Find the root of a must-gather directory structure given a path.
///
/// `seen` holds what the search has been shown so far: first the directory at
/// `path`, then each directory it went on to. For each directory in turn:
/// 1. where it holds a `version` file, it is the root;
/// 2. where it holds the directories `namespaces` and
///    `cluster-scoped-resources`, it is the root;
/// 3. where it holds a single subdirectory, the search goes on there;
/// 4. otherwise the search fails.
///
/// Where the observations run out first, the answer names the directory to
/// observe next; the caller adds that observation to `seen` and asks again.
#[verifier::loop_isolation(false)]
pub fn find_must_gather_root(path: String, seen: &Vec<DirProbe>) -> (found: Result<
    RootSearch,
    RootError,
>)
    ensures
        match found {
            Ok(state) => search(path@, views(seen@)) == Ok::<RootSearchView, RootError>(state@),
            Err(error) => search(path@, views(seen@)) == Err::<RootSearchView, RootError>(error),
        },
        // A start that is the root is the answer.
        seen@.len() >= 1 && views(seen@)[0].is_root() ==> found is Ok && found->Ok_0@
            == RootSearchView::Found(path@),
        // One level of wrapping is taken off: a directory that is not the
        // root and holds a single subdirectory that is, gives that
        // subdirectory.
        seen@.len() >= 2 && views(seen@)[0].only_child() is Some && views(seen@)[1].is_root()
            ==> found is Ok && found->Ok_0@ == RootSearchView::Found(
            views(seen@)[0].only_child()->0,
        ),
        // No guess is made: a directory that is not the root and holds no
        // subdirectory, or two or more, gives an error.
        seen@.len() >= 1 && !views(seen@)[0].is_root() && views(seen@)[0].subdirs is Some
            && views(seen@)[0].subdirs->0.len() != 1 ==> found is Err && found->Err_0
            == RootError::RootNotFound,
        // A directory that is not the root and cannot be listed gives
        // another error.
        seen@.len() >= 1 && !views(seen@)[0].is_root() && views(seen@)[0].subdirs is None
            ==> found is Err && found->Err_0 == RootError::InputUnreadable,
{
    proof {
        if seen@.len() >= 2 && views(seen@)[0].only_child() is Some && views(seen@)[1].is_root() {
            lemma_search_unwraps_one_level(path@, views(seen@));
        }
    }
    let mut current = path;
    let mut i: usize = 0;
    proof {
        assert(views(seen@).skip(0) == views(seen@));
    }
    while i < seen.len()
        invariant
            i <= seen.len(),
            search(path@, views(seen@)) == search(current@, views(seen@).skip(i as int)),
        decreases seen.len() - i,
    {
        let here = &seen[i];
        proof {
            assert(views(seen@).skip(i as int)[0] == here@);
            assert(views(seen@).skip(i as int).drop_first() == views(seen@).skip(i + 1));
        }
        if here.is_root() {
            return Ok(RootSearch::Found(current));
        }
        match &here.subdirs {
            None => {
                return Err(RootError::InputUnreadable);
            },
            Some(dirs) => {
                if dirs.len() != 1 {
                    return Err(RootError::RootNotFound);
                }
                current = dirs[0].clone();
            },
        }
        i += 1;
    }
    Ok(RootSearch::Unseen(current))
}

} // verus!
