//! Sample selections: nothing, three files sent one by one, the same files
//! packed, and a folder with a file.

use vstd::prelude::*;
use crate::models::{
    ArchiveFormat, ArchiveSettings, CompressionLevel, ContentItem, ContentItemKind, ContentKind,
    ContentPreview, ContentSummary, SendMethod,
};

verus! {

pub const KIB: u64 = 1024;
pub const MIB: u64 = 1024 * KIB;
pub const FILES_TOTAL_BYTES: u64 = 1_964_947_538;
pub const FOLDER_TOTAL_BYTES: u64 = 1_428_076_626;

/// Whether an item has the given identifier, name, size and kind.
pub open spec fn item_is(item: ContentItem, id: Seq<char>, name: Seq<char>, size_bytes: u64, kind: ContentItemKind) -> bool {
    &&& item.id@ == id
    &&& item.name@ == name
    &&& item.size_bytes == size_bytes
    &&& item.kind == kind
}

/// The three sample files.
pub open spec fn is_sample_files(items: Seq<ContentItem>) -> bool {
    &&& items.len() == 3
    &&& item_is(items[0], "presentation"@, "presentation.pdf"@, 18_350_080, ContentItemKind::File)
    &&& item_is(items[1], "dataset"@, "dataset.csv.zst"@, (652 * MIB) as u64, ContentItemKind::File)
    &&& item_is(items[2], "recording"@, "recording.mkv"@, 1_256_277_934, ContentItemKind::File)
}

/// Sample archive settings under the given name: a balanced `.tar.zst` that
/// keeps the selected folder and hidden files and does not follow links.
pub open spec fn is_sample_archive(s: ArchiveSettings, name: Seq<char>) -> bool {
    &&& s.archive_name@ == name
    &&& s.format == ArchiveFormat::TarZst
    &&& s.compression == CompressionLevel::Balanced
    &&& s.include_selected_folder
    &&& s.include_hidden_files
    &&& !s.follow_symlinks
}

pub fn fetch_empty_preview() -> (r: ContentPreview)
    ensures
        r.kind == ContentKind::Empty,
        r.summary == (ContentSummary { item_count: 0, total_size_bytes: 0, method: SendMethod::Separate }),
        r.items@.len() == 0,
        r.archive is None,
{
    ContentPreview {
        kind: ContentKind::Empty,
        summary: ContentSummary { item_count: 0, total_size_bytes: 0, method: SendMethod::Separate },
        items: Vec::new(),
        archive: None,
    }
}

pub fn fetch_files_preview() -> (r: ContentPreview)
    ensures
        r.kind == ContentKind::Files,
        r.summary == (ContentSummary { item_count: 3, total_size_bytes: FILES_TOTAL_BYTES, method: SendMethod::Separate }),
        is_sample_files(r.items@),
        r.archive is None,
{
    ContentPreview {
        kind: ContentKind::Files,
        summary: ContentSummary { item_count: 3, total_size_bytes: FILES_TOTAL_BYTES, method: SendMethod::Separate },
        items: selected_files(),
        archive: None,
    }
}

pub fn fetch_packed_files_preview() -> (r: ContentPreview)
    ensures
        r.kind == ContentKind::Archive,
        r.summary == (ContentSummary { item_count: 3, total_size_bytes: FILES_TOTAL_BYTES, method: SendMethod::Archive }),
        is_sample_files(r.items@),
        r.archive matches Some(s) && is_sample_archive(s, "Taildrop files.tar.zst"@),
{
    ContentPreview {
        kind: ContentKind::Archive,
        summary: ContentSummary { item_count: 3, total_size_bytes: FILES_TOTAL_BYTES, method: SendMethod::Archive },
        items: selected_files(),
        archive: Some(archive_settings("Taildrop files.tar.zst")),
    }
}

pub fn fetch_folder_preview() -> (r: ContentPreview)
    ensures
        r.kind == ContentKind::Archive,
        r.summary == (ContentSummary { item_count: 2, total_size_bytes: FOLDER_TOTAL_BYTES, method: SendMethod::Archive }),
        r.items@.len() == 2,
        item_is(r.items@[0], "project-assets"@, "Project Assets/"@, FOLDER_TOTAL_BYTES, ContentItemKind::Folder { child_count: 412 }),
        item_is(r.items@[1], "readme"@, "README.md"@, 18_022, ContentItemKind::File),
        r.archive matches Some(s) && is_sample_archive(s, "Project Assets + 1 item.tar.zst"@),
{
    ContentPreview {
        kind: ContentKind::Archive,
        summary: ContentSummary { item_count: 2, total_size_bytes: FOLDER_TOTAL_BYTES, method: SendMethod::Archive },
        items: vec![
            ContentItem {
                id: "project-assets".to_owned(),
                name: "Project Assets/".to_owned(),
                size_bytes: FOLDER_TOTAL_BYTES,
                kind: ContentItemKind::Folder { child_count: 412 },
            },
            ContentItem {
                id: "readme".to_owned(),
                name: "README.md".to_owned(),
                size_bytes: 18_022,
                kind: ContentItemKind::File,
            },
        ],
        archive: Some(archive_settings("Project Assets + 1 item.tar.zst")),
    }
}

/// The preview after removing an item: the sample data has nothing left.
pub fn remove_item(item_id: &str) -> (r: ContentPreview)
    ensures
        r.kind == ContentKind::Empty,
        r.summary == (ContentSummary { item_count: 0, total_size_bytes: 0, method: SendMethod::Separate }),
        r.items@.len() == 0,
        r.archive is None,
{
    fetch_empty_preview()
}

fn selected_files() -> (r: Vec<ContentItem>)
    ensures
        is_sample_files(r@),
{
    vec![
        ContentItem {
            id: "presentation".to_owned(),
            name: "presentation.pdf".to_owned(),
            size_bytes: 18_350_080,
            kind: ContentItemKind::File,
        },
        ContentItem {
            id: "dataset".to_owned(),
            name: "dataset.csv.zst".to_owned(),
            size_bytes: 652 * MIB,
            kind: ContentItemKind::File,
        },
        ContentItem {
            id: "recording".to_owned(),
            name: "recording.mkv".to_owned(),
            size_bytes: 1_256_277_934,
            kind: ContentItemKind::File,
        },
    ]
}

fn archive_settings(archive_name: &str) -> (r: ArchiveSettings)
    ensures
        is_sample_archive(r, archive_name@),
{
    ArchiveSettings {
        archive_name: archive_name.to_owned(),
        format: ArchiveFormat::TarZst,
        compression: CompressionLevel::Balanced,
        include_selected_folder: true,
        include_hidden_files: true,
        follow_symlinks: false,
    }
}

} // verus!
