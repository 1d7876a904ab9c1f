use file_browser::paths::child_path;
use file_browser::paths::next_ancestor;
use file_browser::{check_contained, confirm_on_disk, resolve, OpError, ServerRoot};

fn root() -> ServerRoot {
    ServerRoot::new("/srv/data").expect("a valid root")
}

#[test]
fn root_accepts_normal_absolute_paths() {
    assert!(ServerRoot::new("/srv/data").is_some());
    assert!(ServerRoot::new("/").is_some());
    assert_eq!(ServerRoot::new("/srv/data").unwrap().as_str(), "/srv/data");
}

#[test]
fn root_refuses_other_paths() {
    assert!(ServerRoot::new("").is_none());
    assert!(ServerRoot::new("srv/data").is_none());
    assert!(ServerRoot::new("/srv/../data").is_none());
    assert!(ServerRoot::new("/srv/./data").is_none());
    assert!(ServerRoot::new("/srv/data/").is_none());
    assert!(ServerRoot::new("/srv//data").is_none());
}

#[test]
fn resolve_joins_relative_paths() {
    assert_eq!(resolve(&root(), "/docs").unwrap().as_str(), "/srv/data/docs");
    assert_eq!(resolve(&root(), "docs/readme.txt").unwrap().as_str(), "/srv/data/docs/readme.txt");
    assert_eq!(resolve(&root(), "///docs").unwrap().as_str(), "/srv/data/docs");
}

#[test]
fn resolve_empty_is_root() {
    assert_eq!(resolve(&root(), "").unwrap().as_str(), "/srv/data");
    assert_eq!(resolve(&root(), "/").unwrap().as_str(), "/srv/data");
}

#[test]
fn resolve_removes_dot_segments() {
    assert_eq!(resolve(&root(), "a/./b/../c").unwrap().as_str(), "/srv/data/a/c");
    assert_eq!(resolve(&root(), "docs/..").unwrap().as_str(), "/srv/data");
}

#[test]
fn resolve_refuses_escapes() {
    assert_eq!(resolve(&root(), "..").unwrap_err(), OpError::PathEscapesRoot);
    assert_eq!(resolve(&root(), "/../etc/passwd").unwrap_err(), OpError::PathEscapesRoot);
    assert_eq!(resolve(&root(), "docs/../../data2").unwrap_err(), OpError::PathEscapesRoot);
    assert_eq!(resolve(&root(), "a/../../../..").unwrap_err(), OpError::PathEscapesRoot);
}

#[test]
fn resolve_under_slash_root() {
    let r = ServerRoot::new("/").unwrap();
    assert_eq!(resolve(&r, "../../x").unwrap().as_str(), "/x");
    assert_eq!(resolve(&r, "").unwrap().as_str(), "/");
}

#[test]
fn contained_requires_segment_prefix() {
    assert_eq!(check_contained(&root(), "/srv/data").unwrap(), "/srv/data");
    assert_eq!(check_contained(&root(), "/srv/data/x/y").unwrap(), "/srv/data/x/y");
    assert_eq!(check_contained(&root(), "/srv/database").unwrap_err(), OpError::PathEscapesRoot);
    assert_eq!(check_contained(&root(), "/srv").unwrap_err(), OpError::PathEscapesRoot);
    assert_eq!(check_contained(&root(), "/srv/data/../x").unwrap_err(), OpError::PathEscapesRoot);
    assert_eq!(check_contained(&root(), "srv/data/x").unwrap_err(), OpError::PathEscapesRoot);
}

#[test]
fn child_path_appends_plain_names() {
    assert_eq!(child_path("/srv/data/docs", "new").unwrap(), "/srv/data/docs/new");
    assert_eq!(child_path("/", "new").unwrap(), "/new");
    assert_eq!(child_path("/srv/data", "..a").unwrap(), "/srv/data/..a");
}

#[test]
fn child_path_refuses_other_names() {
    assert_eq!(child_path("/srv/data", "").unwrap_err(), OpError::InvalidName);
    assert_eq!(child_path("/srv/data", ".").unwrap_err(), OpError::InvalidName);
    assert_eq!(child_path("/srv/data", "..").unwrap_err(), OpError::InvalidName);
    assert_eq!(child_path("/srv/data", "a/b").unwrap_err(), OpError::InvalidName);
    assert_eq!(child_path("/srv/data", "../etc").unwrap_err(), OpError::InvalidName);
    assert_eq!(child_path("/srv/data", "a\0b").unwrap_err(), OpError::InvalidName);
}

#[test]
fn trim_slashes_drops_leading_separators() {
    assert_eq!(file_browser::paths::trim_slashes("//a/b/"), "a/b/");
    assert_eq!(file_browser::paths::trim_slashes("a"), "a");
    assert_eq!(file_browser::paths::trim_slashes("///"), "");
}

#[test]
fn resolved_path_remembers_its_text() {
    let p = resolve(&root(), "/docs/./a").unwrap();
    assert_eq!(p.as_str(), "/srv/data/docs/a");
    assert_eq!(p.relative_str(), "/docs/./a");
    let c = p.child("b.txt").unwrap();
    assert_eq!(c.as_str(), "/srv/data/docs/a/b.txt");
    assert_eq!(c.relative_str(), "/docs/./a/b.txt");
    assert_eq!(p.child("..").unwrap_err(), OpError::InvalidName);
}

#[test]
fn confirm_on_disk_accepts_inside_locations() {
    let p = resolve(&root(), "docs/new").unwrap();
    let c = confirm_on_disk(p, "/srv/data/docs", "/srv/data/docs").unwrap();
    assert_eq!(c.as_str(), "/srv/data/docs/new");
    assert_eq!(c.relative_str(), "docs/new");
    let p = resolve(&root(), "docs").unwrap();
    assert!(confirm_on_disk(p, "/srv/data/docs", "/srv/data/other/place").is_ok());
}

#[test]
fn confirm_on_disk_refuses_links_leading_out() {
    let p = resolve(&root(), "docs/new").unwrap();
    assert_eq!(confirm_on_disk(p, "/srv/data/docs", "/etc").unwrap_err(), OpError::PathEscapesRoot);
    let p = resolve(&root(), "docs/new").unwrap();
    assert_eq!(confirm_on_disk(p, "/srv/data/doc", "/srv/data/doc").unwrap_err(), OpError::PathEscapesRoot);
    let p = resolve(&root(), "docs/new").unwrap();
    assert_eq!(confirm_on_disk(p, "/srv", "/srv").unwrap_err(), OpError::PathEscapesRoot);
    let p = resolve(&root(), "docs").unwrap();
    assert_eq!(confirm_on_disk(p, "/srv/data/docs/x", "/srv/data/docs/x").unwrap_err(), OpError::PathEscapesRoot);
}

#[test]
fn ancestors_stop_at_the_root() {
    let p = resolve(&root(), "a/b/c").unwrap();
    assert_eq!(next_ancestor(&p, "/srv/data/a/b/c").unwrap(), "/srv/data/a/b");
    assert_eq!(next_ancestor(&p, "/srv/data/a").unwrap(), "/srv/data");
    assert_eq!(next_ancestor(&p, "/srv/data"), None);
    assert_eq!(next_ancestor(&p, "/srv").unwrap(), "/");
    assert_eq!(next_ancestor(&p, "/"), None);
}
