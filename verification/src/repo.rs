//! The model of the local repository rooted at the projects directory:
//! an initialized flag, at most one remote (named "origin"), and a
//! linear commit history whose entries snapshot the working tree.

use vstd::prelude::*;

use crate::dict::Dict;

verus! {

/// The fixed author and committer name every commit carries.
pub open spec fn author_name_spec() -> Seq<char> {
    "HiveCAD"@
}

/// The fixed author and committer email every commit carries.
pub open spec fn author_email_spec() -> Seq<char> {
    "user@hivecad.local"@
}

/// The mathematical content of one commit.
pub ghost struct CommitView {
    pub message: Seq<char>,
    pub author_name: Seq<char>,
    pub author_email: Seq<char>,
    /// Index of the parent commit; `None` for a root commit.
    pub parent: Option<int>,
    /// The working tree captured by the commit.
    pub tree: Map<Seq<char>, Seq<char>>,
}

/// The mathematical content of the repository.
pub ghost struct RepoView {
    pub initialized: bool,
    /// URL of the remote named "origin", if configured.
    pub origin: Option<Seq<char>>,
    pub commits: Seq<CommitView>,
}

/// One recorded commit: message, fixed identity, parent link, and the
/// tree snapshot taken when it was made.
pub struct CommitRecord {
    pub message: String,
    pub author_name: String,
    pub author_email: String,
    pub parent: Option<usize>,
    pub tree: Dict,
}

impl View for CommitRecord {
    type V = CommitView;

    open spec fn view(&self) -> CommitView {
        CommitView {
            message: self.message@,
            author_name: self.author_name@,
            author_email: self.author_email@,
            parent: match self.parent {
                Some(i) => Some(i as int),
                None => None,
            },
            tree: self.tree@,
        }
    }
}

/// The repository state held beside the project store.
pub struct RepoState {
    pub initialized: bool,
    pub origin_url: Option<String>,
    pub commits: Vec<CommitRecord>,
}

impl View for RepoState {
    type V = RepoView;

    open spec fn view(&self) -> RepoView {
        RepoView {
            initialized: self.initialized,
            origin: match self.origin_url {
                Some(ref u) => Some(u@),
                None => None,
            },
            commits: self.commits@.map_values(|c: CommitRecord| c@),
        }
    }
}

/// History is linear: each commit's parent is its predecessor, and a
/// root commit has none; every tree snapshot is well formed.
pub open spec fn repo_view_wf(r: RepoView) -> bool {
    forall|i: int|
        0 <= i < r.commits.len() ==> (#[trigger] r.commits[i].parent) == (if i == 0 {
            None
        } else {
            Some(i - 1)
        })
}

impl RepoState {
    /// Internal well-formedness: linear history over well-formed trees.
    pub open spec fn wf(&self) -> bool {
        &&& repo_view_wf(self@)
        &&& forall|i: int| 0 <= i < self.commits@.len() ==> (#[trigger] self.commits@[i]).tree.wf()
    }

    /// A repository model for a root with no repository yet.
    pub fn new() -> (r: RepoState)
        ensures
            r.wf(),
            r@ == empty_repo(),
    {
        let r = RepoState { initialized: false, origin_url: None, commits: Vec::new() };
        proof {
            assert(r@.commits =~= Seq::<CommitView>::empty());
            assert(r@ =~= empty_repo());
        }
        r
    }
}

/// The repository model before anything was initialized.
pub open spec fn empty_repo() -> RepoView {
    RepoView { initialized: false, origin: None, commits: Seq::empty() }
}

/// Initializing marks the repository present and touches nothing else;
/// initializing an already-present repository changes nothing.
pub open spec fn repo_init(r: RepoView) -> RepoView {
    RepoView { initialized: true, ..r }
}

/// Setting the remote replaces whatever "origin" pointed at before.
pub open spec fn repo_with_origin(r: RepoView, url: Seq<char>) -> RepoView {
    RepoView { origin: Some(url), ..r }
}

/// The commit appended for a message over a given working tree.
pub open spec fn next_commit(r: RepoView, message: Seq<char>, working: Map<Seq<char>, Seq<char>>)
    -> CommitView {
    CommitView {
        message: message,
        author_name: author_name_spec(),
        author_email: author_email_spec(),
        parent: if r.commits.len() == 0 {
            None
        } else {
            Some(r.commits.len() - 1)
        },
        tree: working,
    }
}

/// Committing appends one commit whose parent is the prior head (none
/// for the first commit) and whose tree snapshots the working tree,
/// whether or not anything changed.
pub open spec fn repo_commit(
    r: RepoView,
    message: Seq<char>,
    working: Map<Seq<char>, Seq<char>>,
) -> RepoView {
    RepoView { commits: r.commits.push(next_commit(r, message, working)), ..r }
}

/// The tree of the head commit; empty before the first commit.
pub open spec fn head_tree(r: RepoView) -> Map<Seq<char>, Seq<char>> {
    if r.commits.len() == 0 {
        Map::empty()
    } else {
        r.commits.last().tree
    }
}

} // verus!
