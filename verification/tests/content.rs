use droptail::domain::content::{
    ArchiveDefaults, ArchiveFormat, ArchiveOption, CompressionLevel, ContentItem, ContentSelection, SendMethod,
    archive_name, display_name,
};
use droptail::path::ItemPath;

fn defaults() -> ArchiveDefaults {
    ArchiveDefaults { format: ArchiveFormat::Tar, compression: CompressionLevel::Balanced }
}

fn file(path: &str, size: u64) -> ContentItem {
    ContentItem::file(ItemPath::from_str(path), size)
}

fn names(selection: &ContentSelection) -> Vec<String> {
    selection.items().iter().map(|item| item.name().to_owned()).collect()
}

#[test]
fn selection_preserves_latest_items_and_owns_send_method_invariants() {
    let first = file("first.txt", 5);
    let second = file("second.txt", 6);
    let refreshed_second = file("second.txt", 7);
    let folder = ContentItem::folder(ItemPath::from_str("assets"), 12);
    let mut selection = ContentSelection::default();

    selection.add(vec![second.clone()], defaults());
    selection.add(vec![first.clone(), refreshed_second], defaults());
    assert_eq!(selection.item_count(), 2);
    assert_eq!(selection.total_size_bytes(), Some(12));
    assert_eq!(selection.send_method(), SendMethod::Separate);
    assert!(selection.can_send_separately());

    selection.set_send_method(SendMethod::Archive, defaults());
    assert_eq!(selection.send_method(), SendMethod::Archive);
    assert!(selection.can_send_separately());

    selection.set_send_method(SendMethod::Separate, defaults());
    assert_eq!(selection.send_method(), SendMethod::Separate);

    selection.add(vec![folder.clone()], defaults());
    assert_eq!(selection.send_method(), SendMethod::Archive);
    assert!(!selection.can_send_separately());
    assert_eq!(selection.total_size_bytes(), None);
    assert!(selection
        .archive_settings()
        .expect("folder selection must have archive settings")
        .archive_name
        .ends_with(".tar"));

    selection.set_archive_format(ArchiveFormat::TarZst);
    let archive = selection
        .archive_settings()
        .expect("folder selection must have archive settings");
    assert_eq!(archive.format, ArchiveFormat::TarZst);
    assert!(archive.archive_name.ends_with(".tar.zst"));

    selection.set_send_method(SendMethod::Separate, defaults());
    assert_eq!(selection.send_method(), SendMethod::Archive);

    selection.remove(folder.path(), defaults());
    selection.set_send_method(SendMethod::Separate, defaults());
    assert_eq!(selection.send_method(), SendMethod::Separate);
    assert_eq!(selection.total_size_bytes(), Some(12));
}

#[test]
fn separately_sent_files_can_be_moved_in_both_directions() {
    let mut selection = ContentSelection::default();
    selection.add(
        vec![file("first.txt", 1), file("second.txt", 2), file("third.txt", 3)],
        defaults(),
    );

    selection.move_item(0, 2);
    assert_eq!(names(&selection), ["second.txt", "third.txt", "first.txt"]);

    selection.move_item(2, 0);
    assert_eq!(names(&selection), ["first.txt", "second.txt", "third.txt"]);
}

#[test]
fn an_empty_selection_has_no_items() {
    let selection = ContentSelection::default();
    assert!(selection.is_empty());
    assert_eq!(selection.item_count(), 0);
    assert_eq!(selection.total_size_bytes(), Some(0));
    assert_eq!(selection.send_method(), SendMethod::Separate);
    assert!(!selection.can_send_separately());
    assert!(selection.archive_settings().is_none());
}

#[test]
fn formats_have_their_extensions_and_levels_their_numbers() {
    assert_eq!(ArchiveFormat::Tar.extension(), "tar");
    assert_eq!(ArchiveFormat::TarZst.extension(), "tar.zst");
    assert_eq!(ArchiveFormat::TarGz.extension(), "tar.gz");
    assert_eq!(ArchiveFormat::Zip.extension(), "zip");
    assert_eq!(CompressionLevel::Fast.zstd_level(), 1);
    assert_eq!(CompressionLevel::Balanced.zstd_level(), 3);
    assert_eq!(CompressionLevel::Smaller.zstd_level(), 9);
    assert_eq!(CompressionLevel::Fast.gzip_level(), flate2::Compression::fast());
    assert_eq!(CompressionLevel::Balanced.gzip_level(), flate2::Compression::default());
    assert_eq!(CompressionLevel::Smaller.gzip_level(), flate2::Compression::best());
    assert_eq!(CompressionLevel::Balanced.gzip_level().level(), 6);
    assert_eq!(CompressionLevel::Fast.zip_level(), 1);
    assert_eq!(CompressionLevel::Balanced.zip_level(), 6);
    assert_eq!(CompressionLevel::Smaller.zip_level(), 9);
}

#[test]
fn items_are_named_after_the_last_path_component() {
    let item = file("/home/user/report.pdf", 42);
    assert_eq!(item.name(), "report.pdf");
    assert_eq!(item.size_bytes(), Some(42));
    assert!(!item.is_folder());
    let folder = ContentItem::folder(ItemPath::from_str("/data/photos/"), 3);
    assert_eq!(folder.name(), "photos");
    assert_eq!(folder.size_bytes(), None);
    assert!(folder.is_folder());
    assert_eq!(display_name(&ItemPath::from_str("/")), "/");
    assert_eq!(display_name(&ItemPath::from_str("a/b/..")), "a/b/..");
}

#[test]
fn archive_names_follow_the_items() {
    let one = vec![file("/tmp/notes.txt", 1)];
    assert_eq!(archive_name(&one, ArchiveFormat::TarZst), "notes.tar.zst");
    let folder = vec![ContentItem::folder(ItemPath::from_str("/tmp/photos"), 2)];
    assert_eq!(archive_name(&folder, ArchiveFormat::Zip), "photos.zip");
    let many = vec![file("/tmp/a.txt", 1), file("/tmp/b.txt", 2), file("/tmp/c.txt", 3)];
    assert_eq!(archive_name(&many, ArchiveFormat::TarGz), "Taildrop 3 items.tar.gz");
}

#[test]
fn adding_an_item_again_keeps_its_place_and_takes_the_new_size() {
    let mut selection = ContentSelection::default();
    selection.add(vec![file("dir/a.txt", 1), file("dir/b.txt", 2)], defaults());
    selection.add(vec![file("dir//a.txt", 10)], defaults());
    assert_eq!(names(&selection), ["a.txt", "b.txt"]);
    assert_eq!(selection.items()[0].size_bytes(), Some(10));
    assert_eq!(selection.total_size_bytes(), Some(12));
}

#[test]
fn removing_the_last_item_empties_the_selection() {
    let mut selection = ContentSelection::default();
    selection.add(vec![file("a.txt", 1)], defaults());
    selection.remove(&ItemPath::from_str("a.txt"), defaults());
    assert!(selection.is_empty());
}

#[test]
fn archive_settings_can_be_changed_while_archiving() {
    let mut selection = ContentSelection::default();
    selection.add(vec![file("a.txt", 1), file("b.txt", 2)], defaults());
    selection.set_send_method(SendMethod::Archive, defaults());
    selection.set_archive_name("bundle.tar".to_owned());
    selection.set_archive_compression(CompressionLevel::Smaller);
    selection.set_archive_option(ArchiveOption::FollowSymlinks, true);
    selection.set_archive_option(ArchiveOption::IncludeHiddenFiles, false);
    let settings = selection.archive_settings().expect("archiving has settings");
    assert_eq!(settings.archive_name, "bundle.tar");
    assert_eq!(settings.compression, CompressionLevel::Smaller);
    assert!(settings.follow_symlinks);
    assert!(!settings.include_hidden_files);
    assert!(settings.include_selected_folder);
}

fn assert_shape(selection: &ContentSelection) {
    assert_eq!(selection.is_empty(), selection.items().is_empty());
    if selection.items().iter().any(|item| item.is_folder()) {
        assert_eq!(selection.send_method(), SendMethod::Archive);
    }
    assert_eq!(selection.send_method() == SendMethod::Archive, selection.archive_settings().is_some());
    let items = selection.items();
    for (i, a) in items.iter().enumerate() {
        for b in &items[i + 1..] {
            assert_ne!(a.path(), b.path());
        }
    }
}

#[test]
fn every_reached_selection_keeps_its_shape() {
    let mut selection = ContentSelection::default();
    assert_shape(&selection);
    selection.add(vec![file("a.txt", 1), file("b.txt", 2), file("a.txt", 3)], defaults());
    assert_shape(&selection);
    selection.move_item(0, 1);
    assert_shape(&selection);
    selection.add(vec![ContentItem::folder(ItemPath::from_str("docs"), 4)], defaults());
    assert_shape(&selection);
    selection.set_archive_option(ArchiveOption::FollowSymlinks, true);
    selection.set_archive_name("bundle.tar".to_owned());
    assert_shape(&selection);
    selection.remove(&ItemPath::from_str("docs"), defaults());
    assert_shape(&selection);
    selection.set_send_method(SendMethod::Separate, defaults());
    assert_shape(&selection);
    selection.remove(&ItemPath::from_str("a.txt"), defaults());
    selection.remove(&ItemPath::from_str("b.txt"), defaults());
    assert_shape(&selection);
    assert!(selection.is_empty());
}
