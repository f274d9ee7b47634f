use std::io;

use droptail::domain::content::ContentItem;
use droptail::file_selection::{EntryKind, FileSelectionError, PathProbe, WalkEntry, inspect_files, inspect_folder};
use droptail::path::ItemPath;

fn probe(path: &str, kind: Result<EntryKind, io::Error>) -> PathProbe {
    PathProbe { path: ItemPath::from_str(path), kind }
}

#[test]
fn files_use_metadata_and_duplicate_paths_are_ignored() {
    let file = "/tmp/droptail-files/report.txt";
    let items = inspect_files(vec![probe(file, Ok(EntryKind::File(9))), probe(file, Ok(EntryKind::File(9)))])
        .expect("selected file must be readable");

    assert_eq!(items.len(), 1);
    assert_eq!(items[0].path(), &ItemPath::from_str(file));
    assert_eq!(items[0].size_bytes(), Some(9));
}

#[test]
fn folder_scan_counts_regular_files_recursively_without_calculating_size() {
    let walk = vec![WalkEntry::File, WalkEntry::Folder, WalkEntry::File];
    let items = inspect_folder(probe("/tmp/droptail-folder", Ok(EntryKind::Folder)), walk)
        .expect("selected folder must be readable");

    assert!(matches!(items[0], ContentItem::Folder { file_count: 2, .. }));
    assert_eq!(items[0].size_bytes(), None);
}

#[test]
fn the_same_place_spelled_twice_is_one_item() {
    let items = inspect_files(vec![
        probe("a/b.txt", Ok(EntryKind::File(1))),
        probe("a//b.txt", Ok(EntryKind::File(1))),
        probe("a/./b.txt", Ok(EntryKind::File(1))),
        probe("./a/b.txt", Ok(EntryKind::File(1))),
        probe("c.txt", Ok(EntryKind::File(3))),
    ])
    .expect("files must be accepted");
    assert_eq!(items.len(), 3);
    assert_eq!(items[1].path(), &ItemPath::from_str("./a/b.txt"));
    assert_eq!(items[2].name(), "c.txt");
}

#[test]
fn the_first_unusable_path_decides_the_error() {
    let result = inspect_files(vec![
        probe("ok.txt", Ok(EntryKind::File(1))),
        probe("dir", Ok(EntryKind::Folder)),
        probe("gone.txt", Err(io::Error::from(io::ErrorKind::NotFound))),
    ]);
    assert!(matches!(result, Err(FileSelectionError::FileExpected(p)) if p == ItemPath::from_str("dir")));

    let result = inspect_files(vec![
        probe("gone.txt", Err(io::Error::from(io::ErrorKind::NotFound))),
        probe("dir", Ok(EntryKind::Folder)),
    ]);
    match result {
        Err(FileSelectionError::FileSystem { path, source }) => {
            assert_eq!(path, ItemPath::from_str("gone.txt"));
            assert_eq!(source.kind(), io::ErrorKind::NotFound);
        }
        other => panic!("unexpected result {other:?}"),
    }

    let result = inspect_files(vec![probe("dev", Ok(EntryKind::Other))]);
    assert!(matches!(result, Err(FileSelectionError::FileExpected(_))));
    assert!(inspect_files(Vec::new()).expect("nothing chosen is nothing added").is_empty());
}

#[test]
fn a_folder_must_be_a_readable_folder() {
    let result = inspect_folder(probe("file.txt", Ok(EntryKind::File(3))), Vec::new());
    assert!(matches!(result, Err(FileSelectionError::FolderExpected(p)) if p == ItemPath::from_str("file.txt")));

    let result = inspect_folder(probe("gone", Err(io::Error::from(io::ErrorKind::PermissionDenied))), Vec::new());
    assert!(matches!(result, Err(FileSelectionError::FileSystem { .. })));

    let walk = vec![
        WalkEntry::File,
        WalkEntry::Unreadable {
            path: ItemPath::from_str("photos/locked"),
            source: io::Error::from(io::ErrorKind::PermissionDenied),
        },
        WalkEntry::File,
    ];
    match inspect_folder(probe("photos", Ok(EntryKind::Folder)), walk) {
        Err(FileSelectionError::FileSystem { path, .. }) => assert_eq!(path, ItemPath::from_str("photos/locked")),
        other => panic!("unexpected result {other:?}"),
    }

    let items = inspect_folder(probe("/data/empty", Ok(EntryKind::Folder)), vec![WalkEntry::Other, WalkEntry::Folder])
        .expect("an empty folder can be chosen");
    assert_eq!(items[0].name(), "empty");
    assert!(matches!(items[0], ContentItem::Folder { file_count: 0, .. }));
}
