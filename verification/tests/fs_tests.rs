use rustos::fs::RamFs;

#[test]
fn new_fs_lists_empty_root() {
    let fs = RamFs::new();
    assert_eq!(fs.list_dir("/"), Some(vec![]));
    assert_eq!(fs.list_dir(""), Some(vec![]));
    assert!(fs.list_files().is_empty());
}

#[test]
fn read_after_write_gives_content() {
    let mut fs = RamFs::new();
    fs.write_file("notes.txt", b"hello");
    assert_eq!(fs.read_file("notes.txt"), Some(b"hello".to_vec()));
    assert_eq!(fs.read_file("/notes.txt"), Some(b"hello".to_vec()));
    assert_eq!(fs.read_file("missing.txt"), None);
}

#[test]
fn write_makes_directories_on_the_way() {
    let mut fs = RamFs::new();
    fs.write_file("a/b/c.txt", b"x");
    assert_eq!(fs.list_dir("a"), Some(vec![(String::from("b"), true)]));
    assert_eq!(fs.list_dir("a/b"), Some(vec![(String::from("c.txt"), false)]));
    assert_eq!(fs.read_file("a/b/c.txt"), Some(b"x".to_vec()));
    assert_eq!(fs.read_file("a/b"), None);
}

#[test]
fn write_blocked_by_file_does_nothing() {
    let mut fs = RamFs::new();
    fs.write_file("f", b"1");
    fs.write_file("f/g", b"2");
    assert_eq!(fs.read_file("f"), Some(b"1".to_vec()));
    assert_eq!(fs.read_file("f/g"), None);
    assert_eq!(fs.list_files(), vec![String::from("f")]);
}

#[test]
fn overwrite_replaces_content() {
    let mut fs = RamFs::new();
    fs.write_file("x", b"old");
    fs.write_file("x", b"new");
    assert_eq!(fs.read_file("x"), Some(b"new".to_vec()));
}

#[test]
fn write_to_root_path_does_nothing() {
    let mut fs = RamFs::new();
    fs.write_file("/", b"data");
    fs.write_file("", b"data");
    assert!(fs.list_files().is_empty());
}

#[test]
fn listing_is_sorted_by_name() {
    let mut fs = RamFs::new();
    fs.write_file("zeta", b"");
    fs.mkdir("alpha");
    fs.write_file("Beta", b"");
    fs.write_file("beta", b"");
    assert_eq!(
        fs.list_dir("/"),
        Some(vec![
            (String::from("Beta"), false),
            (String::from("alpha"), true),
            (String::from("beta"), false),
            (String::from("zeta"), false),
        ])
    );
}

#[test]
fn mkdir_then_list() {
    let mut fs = RamFs::new();
    fs.mkdir("docs/letters");
    assert_eq!(fs.list_dir("docs"), Some(vec![(String::from("letters"), true)]));
    assert_eq!(fs.list_dir("docs/letters"), Some(vec![]));
}

#[test]
fn mkdir_over_file_keeps_file() {
    let mut fs = RamFs::new();
    fs.write_file("f", b"1");
    fs.mkdir("f");
    assert_eq!(fs.read_file("f"), Some(b"1".to_vec()));
    assert_eq!(fs.list_dir("f"), None);
}

#[test]
fn list_dir_of_file_or_missing_is_none() {
    let mut fs = RamFs::new();
    fs.write_file("f", b"1");
    assert_eq!(fs.list_dir("f"), None);
    assert_eq!(fs.list_dir("nothing"), None);
}

#[test]
fn delete_removes_subtree() {
    let mut fs = RamFs::new();
    fs.write_file("d/e/f.txt", b"1");
    fs.write_file("d/g.txt", b"2");
    fs.write_file("h.txt", b"3");
    assert!(fs.delete_file("d/e"));
    assert_eq!(fs.read_file("d/e/f.txt"), None);
    assert_eq!(fs.read_file("d/g.txt"), Some(b"2".to_vec()));
    assert_eq!(fs.list_dir("d"), Some(vec![(String::from("g.txt"), false)]));
    assert!(!fs.delete_file("d/e"));
}

#[test]
fn delete_root_or_missing_is_false() {
    let mut fs = RamFs::new();
    fs.write_file("a", b"1");
    assert!(!fs.delete_file("/"));
    assert!(!fs.delete_file(""));
    assert!(!fs.delete_file("b"));
    assert_eq!(fs.read_file("a"), Some(b"1".to_vec()));
}

#[test]
fn list_files_in_path_order() {
    let mut fs = RamFs::new();
    fs.write_file("b.txt", b"");
    fs.write_file("a/z.txt", b"");
    fs.write_file("a/c/d.txt", b"");
    fs.mkdir("empty");
    assert_eq!(
        fs.list_files(),
        vec![String::from("a/c/d.txt"), String::from("a/z.txt"), String::from("b.txt")]
    );
}

#[test]
fn path_components_drop_empty_names() {
    let parts = rustos::fs::path_components("//a///bc/");
    assert_eq!(parts, vec![vec!['a'], vec!['b', 'c']]);
    assert!(rustos::fs::path_components("///").is_empty());
}

#[test]
fn written_file_is_listed_in_its_directory() {
    let mut fs = RamFs::new();
    fs.mkdir("docs");
    fs.write_file("docs/b.txt", b"1");
    fs.write_file("/docs/a.txt", b"22");
    let listing = fs.list_dir("docs").unwrap();
    assert!(listing.contains(&(String::from("a.txt"), false)));
    assert!(listing.contains(&(String::from("b.txt"), false)));
    fs.write_file("docs/sub/c.txt", b"");
    assert!(fs.list_dir("docs/sub").unwrap().contains(&(String::from("c.txt"), false)));
    assert!(fs.list_dir("docs").unwrap().contains(&(String::from("sub"), true)));
}
