//! The repository operations: initialize, configure the single remote,
//! stage-and-commit the working tree, report status, and drive the
//! fetch-then-push sync.
//!
//! Every operation here is a decision over the model. The host binary
//! carries each decision out against the real repository and, for sync,
//! hands the outcome of each transport leg back to `sync_advance`.

use vstd::prelude::*;

use crate::AppState;
use crate::dict::Dict;
use crate::errors::{OpError, SyncLeg};
use crate::repo::{
    head_tree, next_commit, repo_commit, repo_init, repo_with_origin, CommitRecord,
};

verus! {

/// What initializing asks of the host: create a repository, or nothing
/// because one is already present.
#[derive(Clone, Copy, Debug, PartialEq, Eq, Structural)]
pub enum InitAction {
    AlreadyInitialized,
    CreateRepository,
}

/// Initialize the repository at the root. A second initialization is a
/// successful no-op: afterwards exactly one repository exists either way.
pub fn git_init(state: &mut AppState) -> (r: InitAction)
    requires
        old(state).wf(),
    ensures
        final(state).wf(),
        (r == InitAction::CreateRepository) <==> !old(state).repo@.initialized,
        final(state).repo@ == repo_init(old(state).repo@),
        final(state).store == old(state).store,
        final(state).projects_dir == old(state).projects_dir,
{
    let r = if state.repo.initialized {
        InitAction::AlreadyInitialized
    } else {
        InitAction::CreateRepository
    };
    state.repo.initialized = true;
    proof {
        assert(state.repo@ == repo_init(old(state).repo@));
    }
    r
}

/// What setting the remote asks of the host: whether an existing remote
/// named "origin" must be deleted before the new one is created.
pub struct RemoteUpdate {
    pub removed_existing: bool,
}

/// Point the remote named "origin" at the URL, deleting any prior
/// remote of that name first; afterwards exactly one remote exists and
/// it carries the given URL. Fails when no repository is initialized.
pub fn git_set_remote(state: &mut AppState, url: String) -> (r: Result<RemoteUpdate, OpError>)
    requires
        old(state).wf(),
    ensures
        final(state).wf(),
        !old(state).repo@.initialized ==> (r matches Err(e) && e matches OpError::RepositoryMissing
            && *final(state) == *old(state)),
        old(state).repo@.initialized ==> (r matches Ok(u) && (u.removed_existing <==> old(
            state,
        ).repo@.origin is Some) && final(state).repo@ == repo_with_origin(
            old(state).repo@,
            url@,
        ) && final(state).store == old(state).store && final(state).projects_dir == old(
            state,
        ).projects_dir),
{
    if !state.repo.initialized {
        return Err(OpError::RepositoryMissing);
    }
    let removed_existing = state.repo.origin_url.is_some();
    state.repo.origin_url = Some(url);
    proof {
        assert(state.repo@ == repo_with_origin(old(state).repo@, url@));
    }
    Ok(RemoteUpdate { removed_existing })
}

/// Stage the whole working tree and commit it with the fixed identity,
/// the prior head (if any) as sole parent, whether or not anything
/// changed. Fails only when no repository is initialized.
pub fn git_commit(state: &mut AppState, message: String) -> (r: Result<(), OpError>)
    requires
        old(state).wf(),
    ensures
        final(state).wf(),
        !old(state).repo@.initialized ==> (r matches Err(e) && e matches OpError::RepositoryMissing
            && *final(state) == *old(state)),
        old(state).repo@.initialized ==> r is Ok && final(state).repo@ == repo_commit(
            old(state).repo@,
            message@,
            old(state).store@,
        ) && final(state).store == old(state).store && final(state).projects_dir == old(
            state,
        ).projects_dir,
{
    if !state.repo.initialized {
        return Err(OpError::RepositoryMissing);
    }
    let tree = state.store.snapshot();
    let n = state.repo.commits.len();
    let parent: Option<usize> = if n == 0 {
        None
    } else {
        Some(n - 1)
    };
    let rec = CommitRecord {
        message,
        author_name: "HiveCAD".to_owned(),
        author_email: "user@hivecad.local".to_owned(),
        parent,
        tree,
    };
    proof {
        assert(state.repo@.commits.len() == n);
        assert(rec@ == next_commit(old(state).repo@, rec.message@, old(state).store@));
    }
    state.repo.commits.push(rec);
    proof {
        let f = |c: CommitRecord| c@;
        assert(state.repo.commits@.map_values(f) =~= old(state).repo.commits@.map_values(f).push(
            rec@,
        ));
        assert(state.repo@ == repo_commit(old(state).repo@, rec.message@, old(state).store@));
        assert forall|i: int|
            0 <= i < state.repo@.commits.len() implies (#[trigger] state.repo@.commits[i].parent)
            == (if i == 0 {
            None
        } else {
            Some(i - 1)
        }) by {
            if i < n {
                assert(state.repo@.commits[i] == old(state).repo@.commits[i]);
            }
        }
        assert forall|i: int| 0 <= i < state.repo.commits@.len() implies (
        #[trigger] state.repo.commits@[i]).tree.wf() by {
            if i < n {
                assert(state.repo.commits@[i] == old(state).repo.commits@[i]);
            }
        }
    }
    Ok(())
}

/// How one path differs between the working tree and the head commit.
#[derive(Clone, Copy, Debug, PartialEq, Eq, Structural)]
pub enum FileStatus {
    New,
    Modified,
    Deleted,
}

/// One line of a status report: a changed path and how it changed.
pub struct StatusEntry {
    pub status: FileStatus,
    pub path: String,
}

/// The status of one path between working tree and committed tree:
/// `None` when the path is unchanged or absent from both.
pub open spec fn status_of(
    w: Map<Seq<char>, Seq<char>>,
    t: Map<Seq<char>, Seq<char>>,
    p: Seq<char>,
) -> Option<FileStatus> {
    if w.dom().contains(p) {
        if !t.dom().contains(p) {
            Some(FileStatus::New)
        } else if w[p] != t[p] {
            Some(FileStatus::Modified)
        } else {
            None
        }
    } else if t.dom().contains(p) {
        Some(FileStatus::Deleted)
    } else {
        None
    }
}

/// The status of one path, decided from the two trees.
fn path_status(working: &Dict, tree: &Dict, p: &String) -> (r: Option<FileStatus>)
    requires
        working.wf(),
        tree.wf(),
    ensures
        r == status_of(working@, tree@, p@),
{
    match working.get(p) {
        Some(v) => match tree.get(p) {
            None => Some(FileStatus::New),
            Some(u) => if *v == *u {
                None
            } else {
                Some(FileStatus::Modified)
            },
        },
        None => match tree.get(p) {
            Some(_) => Some(FileStatus::Deleted),
            None => None,
        },
    }
}

/// The entries make a faithful difference report between working tree
/// and committed tree: every entry names a path with exactly that
/// status, every changed path appears, and no path appears twice.
pub open spec fn describes_changes(
    es: Seq<StatusEntry>,
    w: Map<Seq<char>, Seq<char>>,
    t: Map<Seq<char>, Seq<char>>,
) -> bool {
    &&& forall|i: int|
        0 <= i < es.len() ==> status_of(w, t, #[trigger] es[i].path@) == Some(es[i].status)
    &&& forall|p: Seq<char>|
        status_of(w, t, p) is Some ==> exists|i: int| 0 <= i < es.len() && es[i].path@ == p
    &&& forall|i: int, j: int| 0 <= i < j < es.len() ==> es[i].path@ != es[j].path@
}

/// Every changed path between the two trees, each exactly once.
pub fn status_entries(working: &Dict, tree: &Dict) -> (r: Vec<StatusEntry>)
    requires
        working.wf(),
        tree.wf(),
    ensures
        describes_changes(r@, working@, tree@),
{
    let ghost w = working@;
    let ghost t = tree@;
    let wkeys = working.keys();
    let tkeys = tree.keys();
    let mut r: Vec<StatusEntry> = Vec::new();
    let mut i: usize = 0;
    while i < wkeys.len()
        invariant
            working.wf(),
            tree.wf(),
            w == working@,
            t == tree@,
            i <= wkeys@.len(),
            forall|a: int| 0 <= a < wkeys@.len() ==> w.dom().contains(#[trigger] wkeys@[a]@),
            forall|k: Seq<char>|
                w.dom().contains(k) ==> exists|a: int| 0 <= a < wkeys@.len() && wkeys@[a]@ == k,
            forall|a: int, b: int| 0 <= a < b < wkeys@.len() ==> wkeys@[a]@ != wkeys@[b]@,
            forall|idx: int|
                0 <= idx < r@.len() ==> status_of(w, t, #[trigger] r@[idx].path@) == Some(
                    r@[idx].status,
                ),
            forall|idx: int| 0 <= idx < r@.len() ==> w.dom().contains(#[trigger] r@[idx].path@),
            forall|j: int|
                0 <= j < i && status_of(w, t, #[trigger] wkeys@[j]@) is Some ==> exists|idx: int|
                    0 <= idx < r@.len() && r@[idx].path@ == wkeys@[j]@,
            forall|idx: int, j: int|
                0 <= idx < r@.len() && i <= j < wkeys@.len() ==> (#[trigger] r@[idx].path@) != (
                #[trigger] wkeys@[j]@),
            forall|a: int, b: int| 0 <= a < b < r@.len() ==> r@[a].path@ != r@[b].path@,
        decreases wkeys@.len() - i,
    {
        let k = &wkeys[i];
        let ghost prev = r@;
        match path_status(working, tree, k) {
            Some(st) => {
                r.push(StatusEntry { status: st, path: k.clone() });
            },
            None => {
            },
        }
        proof {
            assert forall|jj: int|
                0 <= jj < i + 1 && status_of(w, t, #[trigger] wkeys@[jj]@) is Some implies exists|
                idx: int,
            | 0 <= idx < r@.len() && r@[idx].path@ == wkeys@[jj]@ by {
                if jj < i {
                    let idx0 = choose|idx: int|
                        0 <= idx < prev.len() && prev[idx].path@ == wkeys@[jj]@;
                    assert(r@[idx0].path@ == wkeys@[jj]@);
                } else {
                    assert(r@[r@.len() - 1].path@ == wkeys@[jj]@);
                }
            }
        }
        i += 1;
    }
    let mut j: usize = 0;
    while j < tkeys.len()
        invariant
            working.wf(),
            tree.wf(),
            w == working@,
            t == tree@,
            j <= tkeys@.len(),
            forall|a: int| 0 <= a < tkeys@.len() ==> t.dom().contains(#[trigger] tkeys@[a]@),
            forall|k: Seq<char>|
                t.dom().contains(k) ==> exists|a: int| 0 <= a < tkeys@.len() && tkeys@[a]@ == k,
            forall|a: int, b: int| 0 <= a < b < tkeys@.len() ==> tkeys@[a]@ != tkeys@[b]@,
            forall|idx: int|
                0 <= idx < r@.len() ==> status_of(w, t, #[trigger] r@[idx].path@) == Some(
                    r@[idx].status,
                ),
            forall|k: Seq<char>|
                w.dom().contains(k) && status_of(w, t, k) is Some ==> exists|idx: int|
                    0 <= idx < r@.len() && r@[idx].path@ == k,
            forall|a: int|
                0 <= a < j && status_of(w, t, #[trigger] tkeys@[a]@) is Some ==> exists|idx: int|
                    0 <= idx < r@.len() && r@[idx].path@ == tkeys@[a]@,
            forall|idx: int, a: int|
                0 <= idx < r@.len() && j <= a < tkeys@.len() ==> (#[trigger] r@[idx].path@) != (
                #[trigger] tkeys@[a]@) || w.dom().contains(r@[idx].path@),
            forall|a: int, b: int| 0 <= a < b < r@.len() ==> r@[a].path@ != r@[b].path@,
        decreases tkeys@.len() - j,
    {
        let k = &tkeys[j];
        let ghost prev = r@;
        match working.get(k) {
            None => {
                proof {
                    assert(status_of(w, t, k@) == Some(FileStatus::Deleted));
                }
                r.push(StatusEntry { status: FileStatus::Deleted, path: k.clone() });
            },
            Some(_) => {
            },
        }
        proof {
            assert forall|k2: Seq<char>|
                w.dom().contains(k2) && status_of(w, t, k2) is Some implies exists|idx: int|
                0 <= idx < r@.len() && r@[idx].path@ == k2 by {
                let idx0 = choose|idx: int| 0 <= idx < prev.len() && prev[idx].path@ == k2;
                assert(r@[idx0].path@ == k2);
            }
            assert forall|a: int|
                0 <= a < j + 1 && status_of(w, t, #[trigger] tkeys@[a]@) is Some implies exists|
                idx: int,
            | 0 <= idx < r@.len() && r@[idx].path@ == tkeys@[a]@ by {
                if a < j {
                    let idx0 = choose|idx: int|
                        0 <= idx < prev.len() && prev[idx].path@ == tkeys@[a]@;
                    assert(r@[idx0].path@ == tkeys@[a]@);
                } else if w.dom().contains(tkeys@[a]@) {
                    let idx0 = choose|idx: int|
                        0 <= idx < prev.len() && prev[idx].path@ == tkeys@[a]@;
                    assert(r@[idx0].path@ == tkeys@[a]@);
                } else {
                    assert(r@[r@.len() - 1].path@ == tkeys@[a]@);
                }
            }
        }
        j += 1;
    }
    proof {
        assert forall|p: Seq<char>| status_of(w, t, p) is Some implies exists|idx: int|
            0 <= idx < r@.len() && r@[idx].path@ == p by {
            if !w.dom().contains(p) {
                assert(t.dom().contains(p));
                let a = choose|a: int| 0 <= a < tkeys@.len() && tkeys@[a]@ == p;
                assert(status_of(w, t, tkeys@[a]@) is Some);
            }
        }
    }
    r
}

/// The fixed label each status kind prints as.
pub open spec fn status_label(s: FileStatus) -> Seq<char> {
    match s {
        FileStatus::New => "New"@,
        FileStatus::Modified => "Modified"@,
        FileStatus::Deleted => "Deleted"@,
    }
}

/// One report line: the status label, a separator, and the path.
pub open spec fn status_line(e: StatusEntry) -> Seq<char> {
    status_label(e.status) + ": "@ + e.path@
}

/// The whole report: the lines in order, joined by newlines; empty for
/// no entries.
pub open spec fn report_of(s: Seq<StatusEntry>) -> Seq<char>
    decreases s.len(),
{
    if s.len() == 0 {
        Seq::empty()
    } else if s.len() == 1 {
        status_line(s[0])
    } else {
        report_of(s.drop_last()) + "\n"@ + status_line(s.last())
    }
}

/// A report over at least one entry is never the empty string.
proof fn lemma_report_nonempty(s: Seq<StatusEntry>)
    requires
        s.len() > 0,
    ensures
        report_of(s).len() > 0,
    decreases s.len(),
{
    reveal_strlit(": ");
    reveal_strlit("\n");
    if s.len() == 1 {
        assert(status_line(s[0]).len() >= ": "@.len());
    } else {
        lemma_report_nonempty(s.drop_last());
    }
}

/// Render the entries as newline-joined `<status>: <path>` lines.
pub fn format_status_report(entries: &Vec<StatusEntry>) -> (r: String)
    ensures
        r@ == report_of(entries@),
{
    let mut out = String::new();
    let mut i: usize = 0;
    while i < entries.len()
        invariant
            i <= entries@.len(),
            out@ == report_of(entries@.subrange(0, i as int)),
        decreases entries@.len() - i,
    {
        if i > 0 {
            out.append("\n");
        }
        let e = &entries[i];
        match e.status {
            FileStatus::New => out.append("New"),
            FileStatus::Modified => out.append("Modified"),
            FileStatus::Deleted => out.append("Deleted"),
        }
        out.append(": ");
        out.append(e.path.as_str());
        proof {
            let sub = entries@.subrange(0, i as int);
            let sub1 = entries@.subrange(0, i + 1 as int);
            assert(sub1.drop_last() =~= sub);
            assert(sub1.last() == entries@[i as int]);
            assert(out@ =~= report_of(sub1));
        }
        i += 1;
    }
    proof {
        assert(entries@.subrange(0, entries@.len() as int) =~= entries@);
    }
    out
}

/// Report every changed path between the working tree and the head
/// commit's tree as newline-joined `<status>: <path>` lines; the empty
/// string exactly when nothing changed. Fails when no repository is
/// initialized.
pub fn git_status(state: &AppState) -> (r: Result<String, OpError>)
    requires
        state.wf(),
    ensures
        !state.repo@.initialized ==> (r matches Err(e) && e matches OpError::RepositoryMissing),
        state.repo@.initialized ==> (r matches Ok(s) && (exists|es: Seq<StatusEntry>|
            s@ == report_of(es) && describes_changes(es, state.store@, head_tree(state.repo@)))
            && ((s@.len() == 0) <==> state.store@ =~= head_tree(state.repo@))),
{
    if !state.repo.initialized {
        return Err(OpError::RepositoryMissing);
    }
    let n = state.repo.commits.len();
    let entries = if n == 0 {
        let head = Dict::new();
        status_entries(&state.store, &head)
    } else {
        proof {
            assert(state.repo@.commits[n - 1] == state.repo.commits@[n - 1]@);
        }
        status_entries(&state.store, &state.repo.commits[n - 1].tree)
    };
    let ghost w = state.store@;
    let ghost t = head_tree(state.repo@);
    let report = format_status_report(&entries);
    proof {
        assert(report@ == report_of(entries@) && describes_changes(entries@, w, t));
        if entries@.len() == 0 {
            assert forall|p: Seq<char>| #[trigger]
                w.dom().contains(p) implies t.dom().contains(p) && w[p] == t[p] by {
                assert(status_of(w, t, p) is None);
            }
            assert forall|p: Seq<char>| #[trigger] t.dom().contains(p) implies w.dom().contains(
                p,
            ) by {
                assert(status_of(w, t, p) is None);
            }
            assert(w =~= t);
        } else {
            lemma_report_nonempty(entries@);
            let p = entries@[0].path@;
            assert(status_of(w, t, p) is Some);
            assert(!(w =~= t));
        }
    }
    Ok(report)
}

/// The credential a sync leg presents: a fixed sentinel username with
/// the caller's bearer token as password.
pub struct Credential {
    pub username: String,
    pub password: String,
}

/// The credential for a sync: none without a token; with a token, the
/// fixed username "x-access-token" and the token as password. The token
/// is used transiently and never stored.
pub fn sync_credentials(token: Option<String>) -> (r: Option<Credential>)
    ensures
        match token {
            Some(t) => r matches Some(c) && c.username@ == "x-access-token"@ && c.password@ == t@,
            None => r is None,
        },
{
    match token {
        Some(t) => Some(Credential { username: String::from_str("x-access-token"), password: t }),
        None => None,
    }
}

/// The branch fetched from the remote.
pub fn fetch_refspec() -> (r: String)
    ensures
        r@ == "main"@,
{
    String::from_str("main")
}

/// The refspec pushed to the remote.
pub fn push_refspec() -> (r: String)
    ensures
        r@ == "refs/heads/main:refs/heads/main"@,
{
    String::from_str("refs/heads/main:refs/heads/main")
}

/// Where a sync stands: which transport leg is owed next, or how it
/// ended. A sync is fetch-then-push, with no merge, rebase, or conflict
/// detection between the legs.
#[derive(Debug)]
pub enum SyncPhase {
    FetchPending,
    PushPending,
    Complete,
    Failed(OpError),
}

/// Begin a sync: owed a fetch first, provided a repository is
/// initialized and a remote is configured; the local model does not
/// change, whatever the transport later does.
pub fn git_sync(state: &AppState) -> (r: Result<SyncPhase, OpError>)
    ensures
        !state.repo@.initialized ==> (r matches Err(e) && e matches OpError::RepositoryMissing),
        state.repo@.initialized && state.repo@.origin is None ==> (r matches Err(e)
            && e matches OpError::RemoteMissing),
        state.repo@.initialized && state.repo@.origin is Some ==> (r matches Ok(p)
            && p matches SyncPhase::FetchPending),
{
    if !state.repo.initialized {
        return Err(OpError::RepositoryMissing);
    }
    match state.repo.origin_url {
        None => Err(OpError::RemoteMissing),
        Some(_) => Ok(SyncPhase::FetchPending),
    }
}

/// Advance a sync by the outcome of the leg just performed: a
/// successful fetch owes the push, a successful push completes, and a
/// failed leg ends the sync with a transport error naming that leg.
/// A finished sync stays as it ended.
pub fn sync_advance(phase: SyncPhase, outcome: Result<(), String>) -> (r: SyncPhase)
    ensures
        phase is FetchPending && outcome is Ok ==> r is PushPending,
        phase is PushPending && outcome is Ok ==> r is Complete,
        outcome matches Err(d) ==> (phase is FetchPending ==> (r matches SyncPhase::Failed(e)
            && e matches OpError::Transport(leg, det) && leg == SyncLeg::Fetch && det@ == d@)),
        outcome matches Err(d) ==> (phase is PushPending ==> (r matches SyncPhase::Failed(e)
            && e matches OpError::Transport(leg, det) && leg == SyncLeg::Push && det@ == d@)),
        phase is Complete ==> r == phase,
        phase is Failed ==> r == phase,
{
    match phase {
        SyncPhase::FetchPending => match outcome {
            Ok(_) => SyncPhase::PushPending,
            Err(d) => SyncPhase::Failed(OpError::Transport(SyncLeg::Fetch, d)),
        },
        SyncPhase::PushPending => match outcome {
            Ok(_) => SyncPhase::Complete,
            Err(d) => SyncPhase::Failed(OpError::Transport(SyncLeg::Push, d)),
        },
        SyncPhase::Complete => SyncPhase::Complete,
        SyncPhase::Failed(e) => SyncPhase::Failed(e),
    }
}

} // verus!
