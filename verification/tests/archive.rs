use std::io;

use droptail::archive::{
    ArchiveEntryKind, ArchiveError, ArchivePaths, ArchiveRequest, ProducerOutcome, completion, entry_kind, is_hidden,
    selected_file_entry, walk_includes, walked_archive_path,
};
use droptail::domain::content::{ArchiveDefaults, ArchiveFormat, CompressionLevel, ContentItem, ContentSelection, SendMethod};
use droptail::path::ItemPath;

fn p(s: &str) -> ItemPath {
    ItemPath::from_str(s)
}

#[test]
fn entries_have_kinds_from_their_file_types() {
    assert!(matches!(entry_kind(&p("f"), true, false, false), Ok(ArchiveEntryKind::File)));
    assert!(matches!(entry_kind(&p("d"), false, true, false), Ok(ArchiveEntryKind::Directory)));
    assert!(matches!(entry_kind(&p("l"), false, false, true), Ok(ArchiveEntryKind::Symlink)));
    assert!(matches!(entry_kind(&p("fifo"), false, false, false), Err(ArchiveError::UnsupportedFileType(x)) if x == p("fifo")));
}

#[test]
fn a_selected_file_is_archived_under_its_name() {
    let entry = selected_file_entry(&p("/tmp/x/report.txt"), "report.txt", ArchiveEntryKind::File).expect("a file is archived");
    assert_eq!(entry.archive_path, p("report.txt"));
    assert_eq!(entry.source, p("/tmp/x/report.txt"));
    assert!(matches!(
        selected_file_entry(&p("/tmp/x"), "x", ArchiveEntryKind::Directory),
        Err(ArchiveError::FileExpected(_))
    ));
}

#[test]
fn walks_skip_hidden_entries_unless_asked() {
    assert!(is_hidden(b".secret"));
    assert!(!is_hidden(b"visible"));
    assert!(walk_includes(0, false, b".root"));
    assert!(!walk_includes(1, false, b".hidden"));
    assert!(walk_includes(1, true, b".hidden"));
    assert!(walk_includes(2, false, b"public"));
}

#[test]
fn walked_entries_go_below_the_folder_name_when_it_is_included() {
    assert_eq!(walked_archive_path(true, "photos", 0, &p("")), Some(p("photos")));
    assert_eq!(walked_archive_path(true, "photos", 2, &p("a/b.jpg")), Some(p("photos/a/b.jpg")));
    assert_eq!(walked_archive_path(false, "photos", 0, &p("")), None);
    assert_eq!(walked_archive_path(false, "photos", 1, &p("public/nested.txt")), Some(p("public/nested.txt")));
}

#[test]
fn an_archive_path_can_be_taken_once() {
    let mut paths = ArchivePaths::new();
    assert!(paths.claim(&p("a/b.txt")).is_ok());
    assert!(paths.claim(&p("c.txt")).is_ok());
    assert!(matches!(paths.claim(&p("a//b.txt")), Err(ArchiveError::DuplicatePath(x)) if x == p("a//b.txt")));
}

#[test]
fn the_producer_result_is_known_after_joining() {
    assert!(completion(true, ProducerOutcome::Finished).is_ok());
    assert!(matches!(completion(false, ProducerOutcome::Finished), Err(ArchiveError::WorkerPanicked)));
    assert!(matches!(completion(true, ProducerOutcome::Running), Err(ArchiveError::WorkerPanicked)));
    assert!(matches!(
        completion(true, ProducerOutcome::Failed(ArchiveError::DuplicatePath(p("x")))),
        Err(ArchiveError::DuplicatePath(_))
    ));
}

#[test]
fn only_broken_pipes_are_broken_pipes() {
    assert!(ArchiveError::Output(io::Error::from(io::ErrorKind::BrokenPipe)).is_broken_pipe());
    assert!(!ArchiveError::Output(io::Error::from(io::ErrorKind::NotFound)).is_broken_pipe());
    assert!(ArchiveError::FileSystem { path: p("x"), source: io::Error::from(io::ErrorKind::BrokenPipe) }.is_broken_pipe());
    assert!(ArchiveError::Zip(zip::result::ZipError::Io(io::Error::from(io::ErrorKind::BrokenPipe))).is_broken_pipe());
    assert!(!ArchiveError::Zip(zip::result::ZipError::FileNotFound).is_broken_pipe());
    assert!(!ArchiveError::WorkerPanicked.is_broken_pipe());
}

#[test]
fn a_request_carries_the_archive_name() {
    let mut selection = ContentSelection::default();
    let defaults = ArchiveDefaults { format: ArchiveFormat::Zip, compression: CompressionLevel::Fast };
    selection.add(vec![ContentItem::file(p("a.txt"), 1), ContentItem::file(p("b.txt"), 2)], defaults);
    selection.set_send_method(SendMethod::Archive, defaults);
    let settings = selection.archive_settings().expect("archiving has settings").clone();
    let request = ArchiveRequest::new(selection.items().to_vec(), settings);
    assert_eq!(request.name(), "Taildrop 2 items.zip");
    assert_eq!(request.items().len(), 2);
}

#[test]
fn a_selected_folder_must_still_be_a_folder() {
    assert!(droptail::archive::check_selected_folder(&p("dir"), true).is_ok());
    assert!(matches!(
        droptail::archive::check_selected_folder(&p("dir"), false),
        Err(ArchiveError::FolderExpected(x)) if x == p("dir")
    ));
}
