use std::path::PathBuf;

use mosquito_core::{AddFileError, FileId, FileStore, PathProbe, RemoveError, SharedFile};

/// The file name of a path, as the app extracts it before registering.
fn name_of(path: &str) -> Option<String> {
    std::path::Path::new(path)
        .file_name()
        .map(|n| n.to_string_lossy().into_owned())
}

/// Registers `path` as an existing regular file holding `contents`.
fn add_file(store: &mut FileStore, path: &str, contents: &[u8]) -> Result<SharedFile, AddFileError> {
    store.add(
        PathBuf::from(path),
        name_of(path),
        PathProbe::File { size: contents.len() as u64 },
    )
}

#[test]
fn new_store_is_empty() {
    let store = FileStore::new();
    assert!(store.list().is_empty());
}

#[test]
fn add_assigns_sequential_ids() {
    let mut store = FileStore::new();
    let first = add_file(&mut store, "/tmp/share/a.txt", b"hello").unwrap();
    let second = add_file(&mut store, "/tmp/share/b.txt", b"world").unwrap();

    assert_eq!(first.id, FileId(0));
    assert_eq!(second.id, FileId(1));
}

#[test]
fn add_captures_name_and_size() {
    let path = "/tmp/share/report.pdf";
    let mut store = FileStore::new();
    let file = add_file(&mut store, path, b"0123456789").unwrap();

    assert_eq!(file.name, "report.pdf");
    assert_eq!(file.size, 10);
    assert_eq!(file.path, PathBuf::from(path));
}

#[test]
fn add_nonexistent_file_is_an_error() {
    let mut store = FileStore::new();
    let path = "/definitely/not/here.txt";
    let err = store
        .add(PathBuf::from(path), name_of(path), PathProbe::Missing)
        .unwrap_err();
    assert!(matches!(err, AddFileError::NotFound(_)));
}

#[test]
fn add_directory_is_an_error() {
    let mut store = FileStore::new();
    let path = "/tmp/share";
    let err = store
        .add(PathBuf::from(path), name_of(path), PathProbe::Directory)
        .unwrap_err();
    assert!(matches!(err, AddFileError::IsADirectory(_)));
}

#[test]
fn get_finds_file_by_id() {
    let mut store = FileStore::new();
    let added = add_file(&mut store, "/tmp/share/a.txt", b"hi").unwrap();

    assert_eq!(store.get(added.id).unwrap().name, "a.txt");
    assert!(store.get(FileId(999)).is_none());
}

#[test]
fn remove_deletes_the_entry() {
    let mut store = FileStore::new();
    let added = add_file(&mut store, "/tmp/share/a.txt", b"hi").unwrap();

    let removed = store.remove(added.id).unwrap();
    assert_eq!(removed.id, added.id);
    assert!(store.get(added.id).is_none());
    assert!(store.list().is_empty());
}

#[test]
fn remove_unknown_id_is_an_error() {
    let mut store = FileStore::new();
    assert!(matches!(
        store.remove(FileId(42)),
        Err(RemoveError::NotFound(FileId(42)))
    ));
}

#[test]
fn list_preserves_insertion_order() {
    let mut store = FileStore::new();
    for name in ["c.txt", "a.txt", "b.txt"] {
        add_file(&mut store, &format!("/tmp/share/{name}"), b"x").unwrap();
    }
    let names: Vec<_> = store.list().iter().map(|f| f.name.as_str()).collect();
    assert_eq!(names, ["c.txt", "a.txt", "b.txt"]);
}

#[test]
fn ids_are_never_reused_after_removal() {
    let mut store = FileStore::new();
    let first = add_file(&mut store, "/tmp/share/a.txt", b"a").unwrap();
    store.remove(first.id).unwrap();
    let second = add_file(&mut store, "/tmp/share/b.txt", b"b").unwrap();

    assert_eq!(second.id, FileId(1)); // not 0 again
}

#[test]
fn clear_removes_everything() {
    let mut store = FileStore::new();
    add_file(&mut store, "/tmp/share/a.txt", b"a").unwrap();

    store.clear();

    assert!(store.list().is_empty());
}

#[test]
fn non_ascii_file_names_are_kept() {
    let mut store = FileStore::new();
    let file = add_file(&mut store, "/tmp/share/résumé final.txt", b"x").unwrap();

    assert_eq!(file.name, "résumé final.txt");
}

// --- further cases ---

#[test]
fn unreadable_metadata_is_an_error_and_changes_nothing() {
    let mut store = FileStore::new();
    let err = store
        .add(
            PathBuf::from("/tmp/share/locked.txt"),
            Some("locked.txt".to_string()),
            PathProbe::Unreadable(std::io::Error::other("permission denied")),
        )
        .unwrap_err();
    assert!(matches!(err, AddFileError::Metadata(_)));
    assert!(store.list().is_empty());
    assert_eq!(store.next_id(), 0);
}

#[test]
fn errors_carry_the_path_and_their_message() {
    let mut store = FileStore::new();
    let err = store
        .add(PathBuf::from("/nope"), name_of("/nope"), PathProbe::Missing)
        .unwrap_err();
    assert!(matches!(err, AddFileError::NotFound(p) if p == PathBuf::from("/nope")));
    let err = store
        .add(PathBuf::from("/tmp"), name_of("/tmp"), PathProbe::Directory)
        .unwrap_err();
    assert!(matches!(err, AddFileError::IsADirectory(p) if p == PathBuf::from("/tmp")));
    let err = store.remove(FileId(7)).unwrap_err();
    assert_eq!(err.message(), "no shared file with id 7");
}

#[test]
fn a_path_without_file_name_is_shown_as_file() {
    let mut store = FileStore::new();
    let file = store
        .add(PathBuf::from("/"), name_of("/"), PathProbe::File { size: 3 })
        .unwrap();
    assert_eq!(file.name, "file");
}

#[test]
fn failed_adds_do_not_consume_ids() {
    let mut store = FileStore::new();
    store
        .add(PathBuf::from("/x"), name_of("/x"), PathProbe::Missing)
        .unwrap_err();
    let file = add_file(&mut store, "/tmp/share/a.txt", b"a").unwrap();
    assert_eq!(file.id, FileId(0));
}

#[test]
fn ids_are_never_reused_after_clear() {
    let mut store = FileStore::new();
    add_file(&mut store, "/tmp/share/a.txt", b"a").unwrap();
    add_file(&mut store, "/tmp/share/b.txt", b"b").unwrap();
    store.clear();
    let file = add_file(&mut store, "/tmp/share/c.txt", b"c").unwrap();
    assert_eq!(file.id, FileId(2));
}

#[test]
fn removing_one_keeps_the_others_in_order() {
    let mut store = FileStore::new();
    for name in ["a.txt", "b.txt", "c.txt"] {
        add_file(&mut store, &format!("/tmp/share/{name}"), b"x").unwrap();
    }
    let removed = store.remove(FileId(1)).unwrap();
    assert_eq!(removed.name, "b.txt");
    let names: Vec<_> = store.list().iter().map(|f| f.name.as_str()).collect();
    assert_eq!(names, ["a.txt", "c.txt"]);
    assert_eq!(store.get(FileId(2)).unwrap().name, "c.txt");
    assert!(store.remove(FileId(1)).is_err());
}

#[test]
fn file_ids_are_shown_as_decimal_numbers() {
    assert_eq!(FileId(0).to_string(), "0");
    assert_eq!(FileId(42).to_string(), "42");
    assert_eq!(FileId(u64::MAX).to_string(), "18446744073709551615");
}

#[test]
fn default_store_is_empty_and_starts_at_id_zero() {
    let mut store = FileStore::default();
    assert!(store.list().is_empty());
    let file = add_file(&mut store, "/tmp/share/a.txt", b"a").unwrap();
    assert_eq!(file.id, FileId(0));
}
