//! The on-disk layout under the root directory, as path strings:
//! `<root>/projects/<id>/project.json` per project, `<root>/.git` for
//! the repository metadata.

use vstd::prelude::*;

verus! {

/// The directory all projects live under.
pub fn projects_root_path(root: &str) -> (r: String)
    ensures
        r@ == root@ + "/projects"@,
{
    String::from_str(root).concat("/projects")
}

/// The subdirectory holding one project.
pub fn project_dir_path(root: &str, id: &str) -> (r: String)
    ensures
        r@ == root@ + "/projects/"@ + id@,
{
    let r = String::from_str(root).concat("/projects/").concat(id);
    proof {
        assert(r@ =~= root@ + "/projects/"@ + id@);
    }
    r
}

/// The single document file of one project.
pub fn project_file_path(root: &str, id: &str) -> (r: String)
    ensures
        r@ == root@ + "/projects/"@ + id@ + "/project.json"@,
{
    let r = project_dir_path(root, id).concat("/project.json");
    proof {
        assert(r@ =~= root@ + "/projects/"@ + id@ + "/project.json"@);
    }
    r
}

/// The repository metadata directory whose presence means a repository
/// already exists at the root.
pub fn git_dir_path(root: &str) -> (r: String)
    ensures
        r@ == root@ + "/.git"@,
{
    String::from_str(root).concat("/.git")
}

/// The root directory used at startup: the per-user document location
/// if one is known, else the current directory, with the application's
/// folder name appended. The directory is created by the host if absent.
pub fn default_projects_dir(document_dir: Option<String>) -> (r: String)
    ensures
        match document_dir {
            Some(d) => r@ == d@ + "/HiveCAD"@,
            None => r@ == "./HiveCAD"@,
        },
{
    match document_dir {
        Some(d) => d.concat("/HiveCAD"),
        None => String::from_str("./HiveCAD"),
    }
}

} // verus!
