use hivecad::{
    default_projects_dir, delete_project, get_projects_dir, list_projects, project_dir_path,
    project_file_path, projects_root_path, git_dir_path, read_project, write_project, AppState,
    ProjectData,
};

fn fresh() -> AppState {
    AppState::new(String::from("/home/user/Documents/HiveCAD"))
}

#[test]
fn write_then_read_returns_written_bytes() {
    let mut st = fresh();
    let doc = String::from("{\"id\":\"p1\",\"name\":\"Demo\",\"data\":{}}");
    write_project(&mut st, String::from("p1"), doc.clone()).unwrap();
    let got = read_project(&st, String::from("p1")).unwrap();
    assert_eq!(got, Some(doc));
}

#[test]
fn overwrite_replaces_document_wholesale() {
    let mut st = fresh();
    write_project(&mut st, String::from("p1"), String::from("first")).unwrap();
    write_project(&mut st, String::from("p1"), String::from("second")).unwrap();
    let got = read_project(&st, String::from("p1")).unwrap();
    assert_eq!(got, Some(String::from("second")));
    let ids = list_projects(&st).unwrap();
    assert_eq!(ids.len(), 1);
    assert_eq!(st.store.len(), 1);
}

#[test]
fn repeated_identical_write_is_idempotent() {
    let mut st = fresh();
    write_project(&mut st, String::from("p1"), String::from("doc")).unwrap();
    write_project(&mut st, String::from("p1"), String::from("doc")).unwrap();
    assert_eq!(read_project(&st, String::from("p1")).unwrap(), Some(String::from("doc")));
    assert_eq!(list_projects(&st).unwrap().len(), 1);
}

#[test]
fn read_unwritten_is_not_found_not_error() {
    let st = fresh();
    let got = read_project(&st, String::from("never")).unwrap();
    assert_eq!(got, None);
}

#[test]
fn read_deleted_is_not_found() {
    let mut st = fresh();
    write_project(&mut st, String::from("p1"), String::from("doc")).unwrap();
    delete_project(&mut st, String::from("p1")).unwrap();
    assert_eq!(read_project(&st, String::from("p1")).unwrap(), None);
}

#[test]
fn delete_missing_project_succeeds() {
    let mut st = fresh();
    delete_project(&mut st, String::from("ghost")).unwrap();
    assert_eq!(list_projects(&st).unwrap().len(), 0);
}

#[test]
fn delete_removes_from_listing() {
    let mut st = fresh();
    write_project(&mut st, String::from("a"), String::from("1")).unwrap();
    write_project(&mut st, String::from("b"), String::from("2")).unwrap();
    delete_project(&mut st, String::from("a")).unwrap();
    let ids = list_projects(&st).unwrap();
    assert_eq!(ids.len(), 1);
    assert!(ids.contains(&String::from("b")));
    assert!(!ids.contains(&String::from("a")));
}

#[test]
fn list_on_fresh_root_is_empty_not_error() {
    let st = fresh();
    let ids = list_projects(&st).unwrap();
    assert!(ids.is_empty());
}

#[test]
fn list_names_every_written_project_once() {
    let mut st = fresh();
    write_project(&mut st, String::from("a"), String::from("1")).unwrap();
    write_project(&mut st, String::from("b"), String::from("2")).unwrap();
    write_project(&mut st, String::from("a"), String::from("3")).unwrap();
    let mut ids = list_projects(&st).unwrap();
    ids.sort();
    assert_eq!(ids, vec![String::from("a"), String::from("b")]);
}

#[test]
fn projects_dir_is_returned_as_given() {
    let st = fresh();
    assert_eq!(
        get_projects_dir(&st).unwrap(),
        String::from("/home/user/Documents/HiveCAD")
    );
}

#[test]
fn layout_paths_are_exact() {
    assert_eq!(projects_root_path("/r"), "/r/projects");
    assert_eq!(project_dir_path("/r", "p1"), "/r/projects/p1");
    assert_eq!(project_file_path("/r", "p1"), "/r/projects/p1/project.json");
    assert_eq!(git_dir_path("/r"), "/r/.git");
}

#[test]
fn default_root_under_documents_or_cwd() {
    assert_eq!(
        default_projects_dir(Some(String::from("/home/u/Documents"))),
        "/home/u/Documents/HiveCAD"
    );
    assert_eq!(default_projects_dir(None), "./HiveCAD");
}

#[test]
fn project_data_carries_fields() {
    let p = ProjectData {
        id: String::from("p1"),
        name: String::from("Demo"),
        data: String::from("{}"),
    };
    assert_eq!(p.id, "p1");
    assert_eq!(p.name, "Demo");
    assert_eq!(p.data, "{}");
}
