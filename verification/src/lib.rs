//! A verified model of a small desktop project store with a git-style
//! sync shim: JSON documents keyed by project identifier under a single
//! root directory, plus a repository with a linear history and one
//! remote, rooted at the same directory.
//!
//! The library holds the decision logic and the state model; the host
//! binary performs the actual filesystem and transport calls and keeps
//! the model in step with the disk.

use vstd::prelude::*;

pub mod dict;
pub mod errors;
pub mod git;
pub mod laws;
pub mod paths;
pub mod repo;

use dict::Dict;
use repo::RepoState;

pub use errors::{OpError, SyncLeg};
pub use git::{
    git_init, git_set_remote, git_commit, git_status, git_sync, sync_advance, sync_credentials,
    format_status_report, status_entries, Credential, FileStatus, InitAction, RemoteUpdate,
    StatusEntry, SyncPhase, fetch_refspec, push_refspec,
};
pub use paths::{default_projects_dir, git_dir_path, project_dir_path, project_file_path,
    projects_root_path};

verus! {

/// The record shape a caller conventionally stores: an identifier, a
/// display name, and an arbitrary payload. The store itself never
/// inspects it; the payload is carried as raw JSON text.
pub struct ProjectData {
    pub id: String,
    pub name: String,
    pub data: String,
}

/// Process-wide state: the root directory path, the project store, and
/// the repository model rooted at the same directory.
pub struct AppState {
    pub projects_dir: String,
    pub store: Dict,
    pub repo: RepoState,
}

/// Writing stores the document under the identifier, replacing any
/// prior document wholesale.
pub open spec fn store_write(
    m: Map<Seq<char>, Seq<char>>,
    id: Seq<char>,
    doc: Seq<char>,
) -> Map<Seq<char>, Seq<char>> {
    m.insert(id, doc)
}

/// Reading returns the stored document, or nothing when the identifier
/// was never written (absence is not an error).
pub open spec fn store_read(m: Map<Seq<char>, Seq<char>>, id: Seq<char>) -> Option<Seq<char>> {
    if m.dom().contains(id) {
        Some(m[id])
    } else {
        None
    }
}

/// Deleting removes the identifier; deleting an absent one changes
/// nothing.
pub open spec fn store_delete(m: Map<Seq<char>, Seq<char>>, id: Seq<char>) -> Map<
    Seq<char>,
    Seq<char>,
> {
    m.remove(id)
}

impl AppState {
    /// The store and repository models are internally well formed.
    pub open spec fn wf(&self) -> bool {
        &&& self.store.wf()
        &&& self.repo.wf()
    }

    /// A fresh state over the given root directory: no projects, no
    /// repository yet.
    pub fn new(projects_dir: String) -> (r: AppState)
        ensures
            r.wf(),
            r.projects_dir@ == projects_dir@,
            r.store@ == Map::<Seq<char>, Seq<char>>::empty(),
            r.repo@ == repo::empty_repo(),
    {
        AppState { projects_dir, store: Dict::new(), repo: RepoState::new() }
    }
}

/// Get the root directory path.
pub fn get_projects_dir(state: &AppState) -> (r: Result<String, OpError>)
    ensures
        r matches Ok(p) && p@ == state.projects_dir@,
{
    Ok(state.projects_dir.clone())
}

/// Store a document under a project identifier, replacing any prior
/// content in full; repeated identical writes are idempotent.
pub fn write_project(state: &mut AppState, project_id: String, data: String) -> (r: Result<
    (),
    OpError,
>)
    requires
        old(state).wf(),
    ensures
        final(state).wf(),
        r is Ok,
        final(state).store@ == store_write(old(state).store@, project_id@, data@),
        final(state).projects_dir == old(state).projects_dir,
        final(state).repo == old(state).repo,
{
    state.store.set(project_id, data);
    Ok(())
}

/// Return the document stored under the identifier, or `None` when the
/// identifier is absent; absence is not an error.
pub fn read_project(state: &AppState, project_id: String) -> (r: Result<Option<String>, OpError>)
    requires
        state.wf(),
    ensures
        r matches Ok(doc) && (match doc {
            Some(d) => store_read(state.store@, project_id@) == Some(d@),
            None => store_read(state.store@, project_id@) is None,
        }),
{
    match state.store.get(&project_id) {
        Some(d) => Ok(Some(d.clone())),
        None => Ok(None),
    }
}

/// List the stored project identifiers: exactly the written-and-not-
/// deleted identifiers, one occurrence each, in no guaranteed order.
/// A fresh root lists as empty rather than failing.
pub fn list_projects(state: &AppState) -> (r: Result<Vec<String>, OpError>)
    requires
        state.wf(),
    ensures
        r matches Ok(ids) && {
            &&& ids@.len() == state.store@.dom().len()
            &&& forall|i: int|
                0 <= i < ids@.len() ==> state.store@.dom().contains(#[trigger] ids@[i]@)
            &&& forall|k: Seq<char>|
                state.store@.dom().contains(k) ==> exists|i: int|
                    0 <= i < ids@.len() && ids@[i]@ == k
            &&& forall|i: int, j: int| 0 <= i < j < ids@.len() ==> ids@[i]@ != ids@[j]@
        },
{
    Ok(state.store.keys())
}

/// Remove the project if present; removing an absent project succeeds
/// as a no-op.
pub fn delete_project(state: &mut AppState, project_id: String) -> (r: Result<(), OpError>)
    requires
        old(state).wf(),
    ensures
        final(state).wf(),
        r is Ok,
        final(state).store@ == store_delete(old(state).store@, project_id@),
        final(state).projects_dir == old(state).projects_dir,
        final(state).repo == old(state).repo,
{
    state.store.remove(&project_id);
    Ok(())
}

} // verus!
