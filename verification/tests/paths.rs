use haxby::paths::PathValue;

#[test]
fn appending_and_popping_components() {
    let mut p = PathValue::new("/usr/lib");
    p.append("aria");
    assert_eq!(p.prettyprint(), "/usr/lib/aria");
    assert!(p.pop());
    assert_eq!(p.prettyprint(), "/usr/lib");
    p.append("/etc");
    assert_eq!(p.prettyprint(), "/etc");
    assert!(p.pop());
    assert_eq!(p.prettyprint(), "/");
    assert!(!p.pop());
    assert_eq!(p.prettyprint(), "/");
}

#[test]
fn names_and_extensions() {
    let p = PathValue::new("/home/user/notes.txt");
    assert_eq!(p.filename(), Some("notes.txt".to_owned()));
    assert_eq!(p.extension(), Some("txt".to_owned()));
    assert!(p.is_absolute());
    let q = PathValue::new("docs/..");
    assert_eq!(q.filename(), None);
    assert_eq!(q.extension(), None);
    assert!(!q.is_absolute());
    assert_eq!(PathValue::new("archive").extension(), None);
}

#[test]
fn equal_paths_by_components() {
    assert!(PathValue::new("/a//b").equals(&PathValue::new("/a/b")));
    assert!(!PathValue::new("/a/b").equals(&PathValue::new("/a/c")));
}

#[test]
fn common_ancestor_of_two_paths() {
    let a = PathValue::new("/srv/data/logs");
    let b = PathValue::new("/srv/data/cache/x");
    assert_eq!(a.common_ancestor(&b).map(|p| p.prettyprint()), Some("/srv/data".to_owned()));
    let c = PathValue::new("relative/path");
    assert!(a.common_ancestor(&c).is_none());
}
