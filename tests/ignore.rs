use sbak::ignore::{EntryPath, IgnoreError, IgnoreStack};
use sbak::parser::parse;
use sbak::pattern::Patterns;

#[test]
fn test_entry_path_new_sucess_with_absolute_path_win() {
    let root = "\\\\?\\C:\\Users\\test\\Documents\\important";
    let entry = "\\\\?\\C:\\Users\\test\\Documents\\important\\some_dir\\an_file.txt";

    let ep = EntryPath::from_path(root, entry, false).unwrap();

    assert_eq!(ep.parts(), &["some_dir".to_owned(), "an_file.txt".to_owned()],);
}

#[test]
fn test_entry_path_new_sucess_with_absolute_path_unix() {
    let root = "/home/test/Documents/important";
    let entry = "/home/test/Documents/important/some_dir/an_file.txt";

    let ep = EntryPath::from_path(root, entry, false).unwrap();

    assert_eq!(ep.parts(), &["some_dir".to_owned(), "an_file.txt".to_owned()],);
}

#[test]
fn test_entry_path_new_sucess_with_relative_path_win() {
    let root = "important";
    let entry = "important\\some_dir\\an_file.txt";

    let ep = EntryPath::from_path(root, entry, false).unwrap();

    assert_eq!(ep.parts(), &["some_dir".to_owned(), "an_file.txt".to_owned()],);
}

#[test]
fn test_entry_path_new_sucess_with_relative_path_unix() {
    let root = "important";
    let entry = "important/some_dir/an_file.txt";

    let ep = EntryPath::from_path(root, entry, false).unwrap();

    assert_eq!(ep.parts(), &["some_dir".to_owned(), "an_file.txt".to_owned()],);
}

#[test]
fn test_entry_path_new_sucess_with_root_win() {
    let root = "\\\\?\\C:\\Users\\test\\Documents\\important";
    let entry = "\\\\?\\C:\\Users\\test\\Documents\\important";

    let ep = EntryPath::from_path(root, entry, false).unwrap();

    assert_eq!(ep.parts().len(), 0);
}

#[test]
fn test_entry_path_new_sucess_with_root_unix() {
    let root = "/home/test/Documents/important";
    let entry = "/home/test/Documents/important";

    let ep = EntryPath::from_path(root, entry, false).unwrap();

    assert_eq!(ep.parts().len(), 0);
}

#[test]
fn test_entry_path_new_fails_with_parent() {
    let root = "/home/test/Documents/important";
    let entry = "/home/test/Documents/important/../a/b/c.txt";

    let err = EntryPath::from_path(root, entry, false).unwrap_err();
    match err {
        IgnoreError::NotChild(ref e, ref r) => {
            assert_eq!(e, "/home/test/Documents");
            assert_eq!(r, root);
        }
        e => panic!("{:?}", e),
    }
}

#[test]
fn test_entry_path_new_success_with_parent() {
    let root = "/home/test/Documents/important";
    let entry = "/home/test/Documents/important/a/../b/c.txt";

    let ep = EntryPath::from_path(root, entry, false).unwrap();
    assert_eq!(ep.parts(), &["b".to_owned(), "c.txt".to_owned()],);
}

#[test]
fn entry_outside_root_is_not_child() {
    let err = EntryPath::from_path("/a/b", "/a/c/d", false).unwrap_err();
    assert_eq!(err, IgnoreError::NotChild("/a/c/d".to_owned(), "/a/b".to_owned()));
}

#[test]
fn current_dir_component_is_unexpected() {
    let err = EntryPath::from_path("/a", "/a/./b", false).unwrap_err();
    assert_eq!(err, IgnoreError::UnexpectedComponent(".".to_owned()));
}

#[test]
fn stack_defers_to_parent_and_root_allows() {
    let bank = parse("*.tmp").unwrap();
    let root = IgnoreStack::new("/src", bank);
    let top = root.child("src", parse("*.log\n!keep.tmp").unwrap());
    assert!(top.ignored("/src/x.log", false).unwrap());
    assert!(top.ignored("/src/y.tmp", false).unwrap());
    assert!(!top.ignored("/src/keep.tmp", false).unwrap());
    assert!(!top.ignored("/src/a.txt", false).unwrap());
    let sub = top.child("d", Patterns::empty());
    assert!(sub.ignored("/src/d/z.log", false).unwrap());
    assert!(!sub.ignored("/src/d/z.txt", false).unwrap());
}

#[test]
fn anchored_pattern_applies_only_in_its_directory() {
    let root = IgnoreStack::new("/s", Patterns::empty());
    let top = root.child("s", Patterns::empty());
    let sub = top.child("d", parse("/only").unwrap());
    assert!(sub.ignored("/s/d/only", false).unwrap());
    assert!(!sub.ignored("/s/d/e/only", false).unwrap());
    assert!(!top.ignored("/s/only", false).unwrap());
}

#[test]
fn backslash_is_part_of_a_name_in_slash_paths() {
    let ep = EntryPath::from_path("/src", "/src/a\\b.txt", false).unwrap();
    assert_eq!(ep.parts(), &["a\\b.txt".to_owned()]);
    let win = EntryPath::from_path("C:\\src", "C:\\src\\d\\f.txt", false).unwrap();
    assert_eq!(win.parts(), &["d".to_owned(), "f.txt".to_owned()]);
}

#[test]
fn windows_stack_joins_with_backslash() {
    let root = IgnoreStack::new("C:\\s", Patterns::empty());
    let top = root.child("s", Patterns::empty());
    let sub = top.child("d", parse("/only").unwrap());
    assert!(sub.ignored("C:\\s\\d\\only", false).unwrap());
    assert!(!sub.ignored("C:\\s\\d\\e\\only", false).unwrap());
}
