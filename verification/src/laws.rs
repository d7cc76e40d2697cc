//! The properties the store and the repository shim promise, stated
//! over the spec-level transitions and proved once for all inputs.

use vstd::prelude::*;

use crate::{store_delete, store_read, store_write};
use crate::git::status_of;
use crate::repo::{head_tree, repo_commit, repo_init, repo_with_origin, RepoView};

verus! {

/// Writing a document and reading the same identifier returns exactly
/// the written document, for every store, identifier, and document.
pub proof fn write_then_read(
    m: Map<Seq<char>, Seq<char>>,
    id: Seq<char>,
    doc: Seq<char>,
)
    ensures
        store_read(store_write(m, id, doc), id) == Some(doc),
{
}

/// Reading an identifier that was never written returns nothing, never
/// an error.
pub proof fn read_unwritten(m: Map<Seq<char>, Seq<char>>, id: Seq<char>)
    requires
        !m.dom().contains(id),
    ensures
        store_read(m, id) is None,
{
}

/// Deleting an absent identifier leaves the store exactly as it was.
pub proof fn delete_absent(m: Map<Seq<char>, Seq<char>>, id: Seq<char>)
    requires
        !m.dom().contains(id),
    ensures
        store_delete(m, id) == m,
{
    assert(store_delete(m, id) =~= m);
}

/// After a delete the identifier is gone from the store, so no later
/// listing contains it.
pub proof fn delete_removes(m: Map<Seq<char>, Seq<char>>, id: Seq<char>)
    ensures
        !store_delete(m, id).dom().contains(id),
{
}

/// Initializing twice is the same as initializing once: both succeed
/// and exactly one repository exists, with history and remote untouched.
pub proof fn init_idempotent(r: RepoView)
    ensures
        repo_init(repo_init(r)) == repo_init(r),
        repo_init(r).initialized,
        repo_init(r).commits == r.commits,
        repo_init(r).origin == r.origin,
{
}

/// Setting the remote twice leaves exactly one remote named "origin",
/// pointing at the second URL, as if only the second call had happened.
pub proof fn set_remote_replaces(r: RepoView, first: Seq<char>, second: Seq<char>)
    ensures
        repo_with_origin(repo_with_origin(r, first), second) == repo_with_origin(r, second),
        repo_with_origin(repo_with_origin(r, first), second).origin == Some(second),
{
}

/// A commit always appends exactly one commit carrying the message and
/// the working tree — also when the working tree equals the head tree,
/// so committing with no changes still creates a (possibly empty)
/// commit.
pub proof fn commit_always_appends(
    r: RepoView,
    message: Seq<char>,
    working: Map<Seq<char>, Seq<char>>,
)
    ensures
        repo_commit(r, message, working).commits.len() == r.commits.len() + 1,
        repo_commit(r, message, working).commits.last().message == message,
        repo_commit(r, message, working).commits.last().tree == working,
        forall|i: int|
            0 <= i < r.commits.len() ==> repo_commit(r, message, working).commits[i]
                == r.commits[i],
{
}

/// A commit over a repository with no prior commits is a root commit:
/// it has no parent.
pub proof fn first_commit_has_no_parent(
    r: RepoView,
    message: Seq<char>,
    working: Map<Seq<char>, Seq<char>>,
)
    requires
        r.commits.len() == 0,
    ensures
        repo_commit(r, message, working).commits.last().parent is None,
{
}

/// A commit over a repository with prior commits points at the prior
/// head as its sole parent.
pub proof fn later_commit_points_at_head(
    r: RepoView,
    message: Seq<char>,
    working: Map<Seq<char>, Seq<char>>,
)
    requires
        r.commits.len() > 0,
    ensures
        repo_commit(r, message, working).commits.last().parent == Some(r.commits.len() - 1),
{
}

/// A status over two trees is silent exactly when the trees are equal,
/// so a status taken right after a commit reports nothing.
pub proof fn no_changes_iff_equal(w: Map<Seq<char>, Seq<char>>, t: Map<Seq<char>, Seq<char>>)
    ensures
        (forall|p: Seq<char>| status_of(w, t, p) is None) <==> w =~= t,
{
    if forall|p: Seq<char>| status_of(w, t, p) is None {
        assert forall|p: Seq<char>| #[trigger] w.dom().contains(p) implies t.dom().contains(p)
            && w[p] == t[p] by {
            assert(status_of(w, t, p) is None);
        }
        assert forall|p: Seq<char>| #[trigger] t.dom().contains(p) implies w.dom().contains(
            p,
        ) by {
            assert(status_of(w, t, p) is None);
        }
        assert(w =~= t);
    }
    if w =~= t {
        assert(forall|p: Seq<char>| status_of(w, t, p) is None);
    }
}

/// A commit captures the working tree: right after it, the head tree is
/// the committed working tree, so the status report is clean.
pub proof fn commit_captures_working(
    r: RepoView,
    message: Seq<char>,
    working: Map<Seq<char>, Seq<char>>,
)
    ensures
        head_tree(repo_commit(r, message, working)) == working,
{
}

} // verus!
