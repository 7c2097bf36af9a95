use drhpotter::filesystem::FakeFilesystem;

#[test]
fn test_filesystem_creation() {
    let fs = FakeFilesystem::new();
    assert!(fs.dir_exists("/root"));
    assert!(fs.dir_exists("/etc"));
}

#[test]
fn test_read_passwd() {
    let fs = FakeFilesystem::new();
    let passwd = fs.read_file("/etc/passwd");
    assert!(passwd.is_some());
    assert!(passwd.unwrap().contains("root"));
}

#[test]
fn test_list_root() {
    let fs = FakeFilesystem::new();
    let entries = fs.list_dir("/");
    assert!(entries.contains(&"root".to_string()));
    assert!(entries.contains(&"etc".to_string()));
    assert!(entries.contains(&"tmp".to_string()));
}

#[test]
fn test_list_etc() {
    let fs = FakeFilesystem::new();
    let entries = fs.list_dir("/etc");
    assert!(entries.contains(&"passwd".to_string()));
    assert!(entries.contains(&"hosts".to_string()));
}

#[test]
fn fresh_root_listing_is_sorted_without_duplicates() {
    let fs = FakeFilesystem::new();
    let entries = fs.list_dir("/");
    let mut sorted = entries.clone();
    sorted.sort();
    sorted.dedup();
    assert_eq!(entries, sorted);
    assert_eq!(entries, vec!["bin", "etc", "home", "root", "sbin", "tmp", "usr", "var"]);
}

#[test]
fn absent_paths_read_nothing() {
    let fs = FakeFilesystem::new();
    assert!(fs.read_file("/etc/missing").is_none());
    assert!(!fs.dir_exists("/etc/missing"));
    assert!(fs.list_dir("/etc/missing").is_empty());
    assert!(fs.read_file("/etc").is_none());
    assert!(!fs.dir_exists("/etc/passwd"));
}

#[test]
fn paths_are_read_by_component() {
    let fs = FakeFilesystem::new();
    assert!(fs.dir_exists("/etc/"));
    assert!(fs.dir_exists("//etc/./"));
    assert_eq!(fs.read_file("/etc//hostname"), Some("honeypot\n"));
}

#[test]
fn written_files_are_listed_and_replaced() {
    let mut fs = FakeFilesystem::new();
    fs.write_file("/tmp/a.sh", "echo one".to_string());
    fs.write_file("/tmp/b", "b".to_string());
    fs.write_file("/tmp/a.sh", "echo two".to_string());
    assert_eq!(fs.read_file("/tmp/a.sh"), Some("echo two"));
    assert_eq!(fs.list_dir("/tmp"), vec!["a.sh", "b"]);
}
