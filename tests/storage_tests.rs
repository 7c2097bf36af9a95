use drhpotter::storage::FileStorage;

#[test]
fn test_file_storage() {
    let mut storage = FileStorage::new("/var/lib/captured".to_string());
    let content = b"test malware content";
    let stored = storage.store_file(content);
    let hash = stored.digest;
    assert!(!hash.is_empty());
    assert_eq!(hash.len(), 64);
    assert!(storage.is_stored(&hash));
}

#[test]
fn test_duplicate_storage() {
    let mut storage = FileStorage::new("/var/lib/captured".to_string());
    let content = b"duplicate content";
    let first = storage.store_file(content);
    let second = storage.store_file(content);
    assert_eq!(first.digest, second.digest);
    assert!(first.write);
    assert!(!second.write);
}

#[test]
fn digest_is_sha256_in_lower_hex() {
    let mut storage = FileStorage::new("store".to_string());
    let empty = storage.store_file(b"");
    assert_eq!(empty.digest, "e3b0c44298fc1c149afbf4c8996fb92427ae41e4649b934ca495991b7852b855");
    let abc = storage.store_file(b"abc");
    assert_eq!(abc.digest, "ba7816bf8f01cfea414140de5dae2223b00361a396177a9cb410ff61f20015ad");
    assert_eq!(abc.path, "store/ba7816bf8f01cfea414140de5dae2223b00361a396177a9cb410ff61f20015ad");
}

#[test]
fn paths_join_like_a_directory() {
    let storage = FileStorage::new("/data/".to_string());
    assert_eq!(storage.get_path("ab"), "/data/ab");
    assert_eq!(storage.get_path("/abs"), "/abs");
    let default = FileStorage::default();
    assert_eq!(default.get_path("ab"), "./captured_files/ab");
    let empty = FileStorage::new(String::new());
    assert_eq!(empty.get_path("ab"), "ab");
    assert!(!default.is_stored("ab"));
}
