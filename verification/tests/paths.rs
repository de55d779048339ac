use simple_http_server::paths::{absolutize, HybridPathBuf};
use simple_http_server::routes::relativize_if_descendant;
use std::path::PathBuf;

fn utf8(path: &str) -> HybridPathBuf {
    HybridPathBuf::Utf8(path.to_string())
}

fn std_of(path: HybridPathBuf) -> PathBuf {
    match path {
        HybridPathBuf::Utf8(text) => PathBuf::from(text),
        HybridPathBuf::NonUtf8(held) => held,
    }
}

#[test]
fn from_std_path_buf_keeps_text_as_text() {
    let path = HybridPathBuf::from_std_path_buf(PathBuf::from("/srv/site"));
    assert_eq!(path.as_str(), Some("/srv/site"));
    assert_eq!(std_of(path.clone()), PathBuf::from("/srv/site"));
}

#[test]
fn classify_absolute_and_relative() {
    assert!(utf8("/srv/site").is_absolute());
    assert!(utf8("/").is_absolute());
    assert!(!utf8("img/x.png").is_absolute());
    assert!(!utf8("").is_absolute());
    assert!(!utf8("./a").is_absolute());
    assert!(HybridPathBuf::NonUtf8(PathBuf::from("/srv")).is_absolute());
    assert!(!HybridPathBuf::NonUtf8(PathBuf::from("srv")).is_absolute());
}

#[test]
fn parent_of_a_path() {
    assert_eq!(utf8("/srv/site/config.toml").parent().unwrap().as_str(), Some("/srv/site"));
    assert_eq!(utf8("config.toml").parent().unwrap().as_str(), Some(""));
    assert!(utf8("/").parent().is_none());
    assert!(utf8("").parent().is_none());
    let held = HybridPathBuf::NonUtf8(PathBuf::from("/srv/site/config.toml"));
    assert_eq!(std_of(held.parent().unwrap()), PathBuf::from("/srv/site"));
    assert!(HybridPathBuf::NonUtf8(PathBuf::from("/")).parent().is_none());
}

#[test]
fn join_of_two_paths() {
    assert_eq!(utf8("/srv").join(&utf8("site")).as_str(), Some("/srv/site"));
    assert_eq!(utf8("/srv/").join(&utf8("site")).as_str(), Some("/srv/site"));
    assert_eq!(utf8("/srv").join(&utf8("/etc")).as_str(), Some("/etc"));
    let held = HybridPathBuf::NonUtf8(PathBuf::from("/srv"));
    assert_eq!(std_of(held.join(&utf8("site"))), PathBuf::from("/srv/site"));
    assert_eq!(std_of(utf8("/srv").join(&held)), PathBuf::from("/srv"));
}

#[test]
fn join_text_below_a_root() {
    assert_eq!(utf8("/srv/site").join_text("img/x.png").as_str(), Some("/srv/site/img/x.png"));
    let held = HybridPathBuf::NonUtf8(PathBuf::from("/srv/site"));
    let joined = held.join_text("img/x.png");
    assert_eq!(joined.as_str(), None);
    assert_eq!(std_of(joined), PathBuf::from("/srv/site/img/x.png"));
}

#[test]
fn absolutize_joins_relative_paths_onto_the_root() {
    let root = utf8("/srv/site");
    assert_eq!(absolutize("img/x.png", &root).as_str(), Some("/srv/site/img/x.png"));
    assert_eq!(absolutize("404.html", &root).as_str(), Some("/srv/site/404.html"));
}

#[test]
fn absolutize_leaves_absolute_paths_unchanged() {
    let root = utf8("/srv/site");
    assert_eq!(absolutize("/etc/passwd", &root).as_str(), Some("/etc/passwd"));
    assert_eq!(absolutize("/srv/site/a", &root).as_str(), Some("/srv/site/a"));
    let held = HybridPathBuf::NonUtf8(PathBuf::from("/srv/site"));
    assert_eq!(absolutize("/etc/passwd", &held).as_str(), Some("/etc/passwd"));
}

#[test]
fn descendant_of_the_root_is_made_relative() {
    let root = utf8("/srv/site");
    assert_eq!(
        relativize_if_descendant("/srv/site/img/x.png", &root),
        Some("img/x.png".to_string())
    );
    assert_eq!(relativize_if_descendant("/srv/site/a.txt", &root), Some("a.txt".to_string()));
}

#[test]
fn path_outside_the_root_is_no_descendant() {
    let root = utf8("/srv/site");
    assert_eq!(relativize_if_descendant("/etc/passwd", &root), None);
    // only whole components count
    assert_eq!(relativize_if_descendant("/srv/sitemap.xml", &root), None);
    assert_eq!(relativize_if_descendant("/srv", &root), None);
}

#[test]
fn the_root_itself_is_no_descendant() {
    let root = utf8("/srv/site");
    assert_eq!(relativize_if_descendant("/srv/site", &root), None);
    assert_eq!(relativize_if_descendant("/srv/site/", &root), None);
}

#[test]
fn relative_path_is_no_descendant() {
    let root = utf8("/srv/site");
    assert_eq!(relativize_if_descendant("img/x.png", &root), None);
    assert_eq!(relativize_if_descendant("srv/site/a", &root), None);
}

#[test]
fn nothing_descends_from_a_root_that_is_not_text() {
    let root = HybridPathBuf::NonUtf8(PathBuf::from("/srv/site"));
    assert_eq!(relativize_if_descendant("/srv/site/img/x.png", &root), None);
}

#[test]
fn absolutize_then_relativize_gives_the_relative_path_back() {
    let root = utf8("/srv/site");
    for rel in ["img/x.png", "a.txt", "deep/er/still/file.html", "a b/c d.txt"] {
        let absolute = absolutize(rel, &root);
        let text = absolute.as_str().unwrap().to_string();
        assert_eq!(relativize_if_descendant(&text, &root), Some(rel.to_string()));
    }
}

#[test]
fn round_trip_does_not_keep_what_the_path_rules_drop() {
    let root = utf8("/srv/site");
    // a leading `.` is no component of the rest
    let absolute = absolutize("./a", &root);
    assert_eq!(absolute.as_str(), Some("/srv/site/./a"));
    assert_eq!(relativize_if_descendant("/srv/site/./a", &root), Some("a".to_string()));
    // the empty path leads to the root itself, which is no descendant
    let absolute = absolutize("", &root);
    assert_eq!(absolute.as_str(), Some("/srv/site/"));
    assert_eq!(relativize_if_descendant("/srv/site/", &root), None);
}
