use dvida_kernel::hal::path::Path;

#[test]
fn test_absolute_path_only() {
    let path = Path::from_str("/usr/local/bin");
    assert!(path.is_some());

    let path = Path::from_str("usr/local/bin");
    assert!(path.is_none());
}

#[test]
fn test_is_absolute() {
    let path = Path::from_str("/usr/local/bin").unwrap();
    assert!(path.is_absolute());
    assert!(!path.is_relative());
}

#[test]
fn test_components() {
    let path = Path::from_str("/usr/local/bin").unwrap();
    let components: Vec<String> = path.components().into_vec();
    assert_eq!(components, vec!["usr", "local", "bin"]);
}

#[test]
fn test_components_skip_empty() {
    let path = Path::from_str("//usr///local/").unwrap();
    let components: Vec<String> = path.components().into_vec();
    assert_eq!(components, vec!["usr", "local"]);
}

#[test]
fn test_components_from_both_ends() {
    let path = Path::from_str("/a/b/c").unwrap();
    let mut c = path.components();
    assert_eq!(c.next_back(), Some(String::from("c")));
    assert_eq!(c.next(), Some(String::from("a")));
    assert_eq!(c.next(), Some(String::from("b")));
    assert_eq!(c.next(), None);
    assert_eq!(c.next_back(), None);
}

#[test]
fn test_file_name() {
    let path = Path::from_str("/usr/local/bin/rustc").unwrap();
    assert_eq!(path.file_name(), Some(String::from("rustc")));
}

#[test]
fn test_file_name_of_root() {
    let path = Path::from_str("/").unwrap();
    assert_eq!(path.file_name(), None);
}

#[test]
fn test_parent() {
    let path = Path::from_str("/usr/local/bin").unwrap();
    let parent = path.parent().unwrap();
    assert_eq!(parent.as_str(), "/usr/local");

    let root = Path::from_str("/").unwrap();
    assert!(root.parent().is_none());
}

#[test]
fn test_parent_of_top_level() {
    let path = Path::from_str("/usr").unwrap();
    assert_eq!(path.parent().unwrap().as_str(), "/");
}

#[test]
fn test_extension() {
    let path = Path::from_str("/path/to/file.txt").unwrap();
    assert_eq!(path.extension(), Some(String::from("txt")));

    let path = Path::from_str("/path/to/.hidden").unwrap();
    assert_eq!(path.extension(), None);
}

#[test]
fn test_normalize() {
    let path = Path::from_str("/usr/./local/../bin").unwrap();
    let normalized = path.normalize();
    assert_eq!(normalized.as_str(), "/usr/bin");

    let path = Path::from_str("/usr/local/../../bin").unwrap();
    let normalized = path.normalize();
    assert_eq!(normalized.as_str(), "/bin");
}

#[test]
fn test_normalize_past_root() {
    let path = Path::from_str("/../..").unwrap();
    assert_eq!(path.normalize().as_str(), "/");
}

#[test]
fn test_normalize_twice_is_once() {
    let path = Path::from_str("/a/./b/../c//d/..").unwrap();
    let once = path.normalize();
    let twice = once.normalize();
    assert_eq!(once.as_str(), twice.as_str());
}

#[test]
fn test_join() {
    let path = Path::from_str("/usr/local").unwrap();
    let joined = path.join("bin");
    assert_eq!(joined.as_str(), "/usr/local/bin");

    let path = Path::from_str("/usr/local").unwrap();
    let joined = path.join("/etc");
    assert_eq!(joined.as_str(), "/etc");
}

#[test]
fn test_new_and_into_string() {
    let p = Path::new(String::from("/x/y")).unwrap();
    assert!(Path::new(String::from("x")).is_none());
    assert!(p.equals(&Path::from_str("/x/y").unwrap()));
    assert_eq!(p.into_string(), String::from("/x/y"));
}
