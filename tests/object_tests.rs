use cimfs::object::{ancestor_sources, merge_ancestors, resolve_sources};
use cimfs::path::source_open_path;
use cimfs::{AncestorProbe, CimError, Object, SourceProbe};

fn dirs(n: usize) -> SourceProbe {
    SourceProbe {
        source_exists: true,
        ancestors: vec![AncestorProbe { is_file: false, exists: true }; n],
    }
}

fn rel(o: &Object) -> String {
    o.get_relative_path().unwrap().clone()
}

#[test]
fn test_resolve() {
    let mut t = Object::new("src/bin/cimutil.rs");

    let ancestors = t.resolve_relative_path(true, &dirs(2));
    println!("{:#?}", ancestors);
    let ancestors = ancestors.unwrap();
    assert_eq!(rel(&t), "src\\bin\\cimutil.rs");
    assert_eq!(ancestors.len(), 2);
    assert_eq!(rel(&ancestors[0]), "src");
    assert_eq!(rel(&ancestors[1]), "src\\bin");
}

#[test]
fn relative_path_of_nested_file() {
    let mut o = Object::new("a/b/file.txt");
    let anc = o.resolve_relative_path(true, &dirs(2)).unwrap();
    assert_eq!(rel(&o), "a\\b\\file.txt");
    assert_eq!(anc.len(), 2);
    assert_eq!(rel(&anc[0]), "a");
    assert_eq!(anc[0].source_path(), "a");
    assert_eq!(rel(&anc[1]), "a\\b");
    assert_eq!(anc[1].source_path(), "a/b");
}

#[test]
fn ancestor_sources_are_listed_outermost_first() {
    assert_eq!(ancestor_sources("a/b/file.txt"), vec!["a".to_string(), "a/b".to_string()]);
    assert_eq!(ancestor_sources("file.txt"), Vec::<String>::new());
    assert_eq!(ancestor_sources("../src/x.rs"), vec!["../src".to_string()]);
}

#[test]
fn drive_and_root_are_dropped() {
    let mut o = Object::new("C:\\root\\a\\file.txt");
    o.resolve_relative_path(false, &dirs(0)).unwrap();
    assert_eq!(rel(&o), "root\\a\\file.txt");
    let mut o = Object::new("/usr/lib");
    o.resolve_relative_path(false, &dirs(0)).unwrap();
    assert_eq!(rel(&o), "usr\\lib");
}

#[test]
fn unc_and_verbatim_prefixes_are_dropped() {
    let cases = [
        ("\\\\server\\share\\x\\y", "x\\y"),
        ("\\\\?\\C:\\x", "x"),
        ("\\\\?\\UNC\\srv\\share\\d\\f", "d\\f"),
        ("\\\\.\\pipe\\p", "p"),
    ];
    for (src, want) in cases {
        let mut o = Object::new(src);
        o.resolve_relative_path(false, &dirs(0)).unwrap();
        assert_eq!(rel(&o), want);
    }
}

#[test]
fn dot_components_are_stripped() {
    let mut o = Object::new("../src/./file.txt");
    let anc = o.resolve_relative_path(true, &dirs(1)).unwrap();
    assert_eq!(rel(&o), "src\\file.txt");
    assert_eq!(anc.len(), 1);
    assert_eq!(rel(&anc[0]), "src");
    assert_eq!(anc[0].source_path(), "../src");
}

#[test]
fn path_without_names_is_invalid() {
    for src in [".", "C:\\", "/", ".."] {
        let mut o = Object::new(src);
        assert_eq!(o.resolve_relative_path(false, &dirs(0)).unwrap_err(), CimError::InvalidPath);
        assert_eq!(o.get_relative_path().unwrap_err(), CimError::Unresolved);
    }
}

#[test]
fn missing_source_is_invalid() {
    let mut o = Object::new("gone/file.txt");
    let probe = SourceProbe { source_exists: false, ancestors: vec![] };
    assert_eq!(o.resolve_relative_path(true, &probe).unwrap_err(), CimError::InvalidPath);
    assert_eq!(o.get_relative_path().unwrap_err(), CimError::Unresolved);
}

#[test]
fn unresolved_descriptor_has_no_relative_path() {
    let o = Object::new("a/b");
    assert_eq!(o.get_relative_path().unwrap_err(), CimError::Unresolved);
    assert_eq!(o.source_path(), "a/b");
}

#[test]
fn second_resolution_changes_nothing() {
    let mut o = Object::new("a/b/c.txt");
    let first = o.resolve_relative_path(true, &dirs(2)).unwrap();
    assert_eq!(first.len(), 2);
    let missing = SourceProbe { source_exists: false, ancestors: vec![] };
    let second = o.resolve_relative_path(true, &missing).unwrap();
    assert!(second.is_empty());
    assert_eq!(rel(&o), "a\\b\\c.txt");
    let mut again = Object::new("a/b/c.txt");
    again.resolve_relative_path(false, &dirs(0)).unwrap();
    assert_eq!(rel(&again), rel(&o));
}

#[test]
fn ancestor_that_is_a_file_ends_the_walk() {
    let mut o = Object::new("a/b/c/d");
    let probe = SourceProbe {
        source_exists: true,
        ancestors: vec![
            AncestorProbe { is_file: false, exists: true },
            AncestorProbe { is_file: true, exists: true },
            AncestorProbe { is_file: false, exists: true },
        ],
    };
    let anc = o.resolve_relative_path(true, &probe).unwrap();
    assert_eq!(anc.len(), 1);
    assert_eq!(rel(&anc[0]), "a\\b\\c");
}

#[test]
fn missing_ancestor_is_invalid() {
    let mut o = Object::new("a/b/c");
    let probe = SourceProbe {
        source_exists: true,
        ancestors: vec![
            AncestorProbe { is_file: false, exists: false },
            AncestorProbe { is_file: false, exists: true },
        ],
    };
    assert_eq!(o.resolve_relative_path(true, &probe).unwrap_err(), CimError::InvalidPath);
    let mut short = Object::new("a/b/c");
    let probe = SourceProbe { source_exists: true, ancestors: vec![] };
    assert_eq!(short.resolve_relative_path(true, &probe).unwrap_err(), CimError::InvalidPath);
}

#[test]
fn all_existing_ancestors_are_gathered_parent_first() {
    let mut o = Object::new("r/s/t/u/v.txt");
    let anc = o.resolve_relative_path(true, &dirs(4)).unwrap();
    let paths: Vec<String> = anc.iter().map(rel).collect();
    assert_eq!(paths, vec!["r", "r\\s", "r\\s\\t", "r\\s\\t\\u"]);
}

#[test]
fn shared_ancestors_of_siblings_merge_once() {
    let mut x = Object::new("a/b/x.txt");
    let mut y = Object::new("a/b/y.txt");
    let mut z = Object::new("a/c/z.txt");
    let mut set: Vec<Object> = Vec::new();
    for o in [&mut x, &mut y, &mut z] {
        let found = o.resolve_relative_path(true, &dirs(2)).unwrap();
        merge_ancestors(&mut set, &found);
    }
    let paths: Vec<String> = set.iter().map(rel).collect();
    assert_eq!(paths, vec!["a", "a\\b", "a\\c"]);
}

#[test]
fn open_path_drops_verbatim_marker() {
    assert_eq!(source_open_path("\\\\?\\C:\\src\\f.txt"), "C:\\src\\f.txt");
    assert_eq!(source_open_path("\\\\?\\\\\\?\\x"), "x");
    assert_eq!(source_open_path("C:\\plain"), "C:\\plain");
}

#[test]
fn sources_resolve_with_shared_ancestors_once() {
    let items = vec![
        ("a/b/x.txt".to_string(), dirs(2)),
        ("a/b/y.txt".to_string(), dirs(2)),
        ("a/c".to_string(), dirs(1)),
    ];
    let (ancestors, objects) = resolve_sources(&items).unwrap();
    let anc: Vec<String> = ancestors.iter().map(rel).collect();
    assert_eq!(anc, vec!["a", "a\\b"]);
    let objs: Vec<String> = objects.iter().map(rel).collect();
    assert_eq!(objs, vec!["a\\b\\x.txt", "a\\b\\y.txt", "a\\c"]);
    assert_eq!(objects[1].source_path(), "a/b/y.txt");
}

#[test]
fn one_missing_source_fails_all() {
    let items = vec![
        ("a/x.txt".to_string(), dirs(1)),
        ("gone.txt".to_string(), SourceProbe { source_exists: false, ancestors: vec![] }),
    ];
    assert_eq!(resolve_sources(&items).unwrap_err(), CimError::InvalidPath);
}

#[test]
fn merge_keeps_found_order_after_existing() {
    let mut deep = Object::new("p/q/r/f");
    let found = deep.resolve_relative_path(true, &dirs(3)).unwrap();
    let mut other = Object::new("z/f");
    let mut set = other.resolve_relative_path(true, &dirs(1)).unwrap();
    merge_ancestors(&mut set, &found);
    merge_ancestors(&mut set, &found);
    let paths: Vec<String> = set.iter().map(rel).collect();
    assert_eq!(paths, vec!["z", "p", "p\\q", "p\\q\\r"]);
}
