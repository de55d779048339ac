use simple_http_server::paths::HybridPathBuf;
use simple_http_server::routes::{FileObject, GetRoutes};
use std::path::PathBuf;

fn infer(path: &str) -> FileObject {
    FileObject::InferMime(path.to_string())
}

fn explicit(mime_type: &str, path: &str) -> FileObject {
    FileObject::ExplicitMime { mime_type: mime_type.to_string(), path: path.to_string() }
}

fn paths_of(files: &[FileObject]) -> Vec<String> {
    files.iter().map(|f| f.path().clone()).collect()
}

#[test]
fn file_object_path_accessors() {
    let mut file = explicit("text/css", "style.css");
    assert_eq!(file.path(), "style.css");
    *file.path_mut() = "other.css".to_string();
    assert_eq!(file.path(), "other.css");
    match &file {
        FileObject::ExplicitMime { mime_type, .. } => assert_eq!(mime_type, "text/css"),
        _ => panic!("the kind of the file changed"),
    }
    assert_eq!(file.into_path(), "other.css");

    let mut file = infer("a.txt");
    assert_eq!(file.path(), "a.txt");
    file.path_mut().push_str(".bak");
    assert_eq!(file.path(), "a.txt.bak");
    assert_eq!(file.into_path(), "a.txt.bak");
}

#[test]
fn with_path_keeps_the_kind_and_the_type() {
    let moved = explicit("text/css", "style.css").with_path("s.css".to_string());
    match moved {
        FileObject::ExplicitMime { mime_type, path } => {
            assert_eq!(mime_type, "text/css");
            assert_eq!(path, "s.css");
        }
        _ => panic!("the kind of the file changed"),
    }
    let moved = infer("a.txt").with_path("b.txt".to_string());
    match moved {
        FileObject::InferMime(path) => assert_eq!(path, "b.txt"),
        _ => panic!("the kind of the file changed"),
    }
}

#[test]
fn descendant_classification() {
    let root = HybridPathBuf::Utf8("/srv/site".to_string());
    let mut routes = GetRoutes {
        direct: vec![infer("/srv/site/img/x.png"), infer("/etc/passwd")],
        map: vec![],
    };
    let report = routes.relativize_direct_routes(&root);
    assert_eq!(paths_of(&routes.direct), vec!["img/x.png".to_string()]);
    assert_eq!(
        report.made_to_rel,
        vec![("/srv/site/img/x.png".to_string(), "img/x.png".to_string())]
    );
    assert_eq!(report.parent, vec!["/etc/passwd".to_string()]);
}

#[test]
fn relativize_keeps_order_and_relative_entries() {
    let root = HybridPathBuf::Utf8("/srv/site".to_string());
    let mut routes = GetRoutes {
        direct: vec![
            infer("a.txt"),
            infer("/elsewhere/b.txt"),
            explicit("text/x-c", "/srv/site/src/c.c"),
            infer("d/e.html"),
            infer("/srv/site/f.css"),
            infer("/srv/other/g.js"),
        ],
        map: vec![("key".to_string(), infer("/srv/site/kept/as/is.txt"))],
    };
    let report = routes.relativize_direct_routes(&root);
    assert_eq!(
        paths_of(&routes.direct),
        vec!["a.txt".to_string(), "src/c.c".to_string(), "d/e.html".to_string(), "f.css".to_string()]
    );
    match &routes.direct[1] {
        FileObject::ExplicitMime { mime_type, .. } => assert_eq!(mime_type, "text/x-c"),
        _ => panic!("the kind of the file changed"),
    }
    assert_eq!(
        report.made_to_rel,
        vec![
            ("/srv/site/src/c.c".to_string(), "src/c.c".to_string()),
            ("/srv/site/f.css".to_string(), "f.css".to_string()),
        ]
    );
    assert_eq!(
        report.parent,
        vec!["/elsewhere/b.txt".to_string(), "/srv/other/g.js".to_string()]
    );
    // the keyed entries are not touched
    assert_eq!(routes.map.len(), 1);
    assert_eq!(routes.map[0].0, "key");
    assert_eq!(routes.map[0].1.path(), "/srv/site/kept/as/is.txt");
}

#[test]
fn relativize_drops_the_root_itself() {
    let root = HybridPathBuf::Utf8("/srv/site".to_string());
    let mut routes = GetRoutes { direct: vec![infer("/srv/site"), infer("/srv/site/")], map: vec![] };
    let report = routes.relativize_direct_routes(&root);
    assert!(routes.direct.is_empty());
    assert!(report.made_to_rel.is_empty());
    assert_eq!(report.parent, vec!["/srv/site".to_string(), "/srv/site/".to_string()]);
}

#[test]
fn relativize_of_empty_list() {
    let root = HybridPathBuf::Utf8("/srv/site".to_string());
    let mut routes = GetRoutes { direct: vec![], map: vec![] };
    let report = routes.relativize_direct_routes(&root);
    assert!(routes.direct.is_empty());
    assert!(report.made_to_rel.is_empty());
    assert!(report.parent.is_empty());
}

#[test]
fn relativize_below_a_root_that_is_not_text() {
    let root = HybridPathBuf::NonUtf8(PathBuf::from("/srv/site"));
    let mut routes = GetRoutes {
        direct: vec![infer("/srv/site/img/x.png"), infer("rel.txt")],
        map: vec![],
    };
    let report = routes.relativize_direct_routes(&root);
    assert_eq!(paths_of(&routes.direct), vec!["rel.txt".to_string()]);
    assert!(report.made_to_rel.is_empty());
    assert_eq!(report.parent, vec!["/srv/site/img/x.png".to_string()]);
}

#[test]
fn second_pass_changes_nothing() {
    let root = HybridPathBuf::Utf8("/srv/site".to_string());
    let mut routes = GetRoutes {
        direct: vec![
            infer("a.txt"),
            infer("/srv/site/img/x.png"),
            infer("/etc/passwd"),
            explicit("text/css", "/srv/site/s.css"),
        ],
        map: vec![],
    };
    routes.relativize_direct_routes(&root);
    let first = paths_of(&routes.direct);
    assert_eq!(first, vec!["a.txt".to_string(), "img/x.png".to_string(), "s.css".to_string()]);
    let report = routes.relativize_direct_routes(&root);
    assert_eq!(paths_of(&routes.direct), first);
    assert!(report.parent.is_empty());
    assert!(report.made_to_rel.is_empty());
}
