use droptail::mock_api::content::{
    FILES_TOTAL_BYTES, FOLDER_TOTAL_BYTES, fetch_empty_preview, fetch_files_preview, fetch_folder_preview,
    fetch_packed_files_preview, remove_item,
};
use droptail::mock_api::devices::fetch_devices;
use droptail::mock_api::preferences::{fetch_preferences, update_preference};
use droptail::mock_api::transfer::cancel_transfer;
use droptail::models::{
    ArchiveFormat, CompressionLevel, ConnectionKind, ContentItemKind, ContentKind, ContentSummary, DeviceKind,
    PreferenceChange, SendMethod,
};

#[test]
fn sample_previews_hold_the_sample_selections() {
    let empty = fetch_empty_preview();
    assert_eq!(empty.kind, ContentKind::Empty);
    assert!(!empty.summary.is_ready());
    assert!(empty.items.is_empty());

    let files = fetch_files_preview();
    assert_eq!(files.kind, ContentKind::Files);
    assert!(files.summary.is_ready());
    assert_eq!(files.summary.total_size_bytes, FILES_TOTAL_BYTES);
    assert_eq!(files.summary.method, SendMethod::Separate);
    let names: Vec<&str> = files.items.iter().map(|i| i.name.as_str()).collect();
    assert_eq!(names, ["presentation.pdf", "dataset.csv.zst", "recording.mkv"]);
    assert_eq!(files.items[1].size_bytes, 652 * 1024 * 1024);
    assert!(files.archive.is_none());

    let packed = fetch_packed_files_preview();
    assert_eq!(packed.summary.method, SendMethod::Archive);
    let archive = packed.archive.expect("packed files have archive settings");
    assert_eq!(archive.archive_name, "Taildrop files.tar.zst");
    assert_eq!(archive.format, ArchiveFormat::TarZst);
    assert_eq!(archive.compression, CompressionLevel::Balanced);

    let folder = fetch_folder_preview();
    assert_eq!(folder.summary.item_count, 2);
    assert_eq!(folder.summary.total_size_bytes, FOLDER_TOTAL_BYTES);
    assert_eq!(folder.items[0].kind, ContentItemKind::Folder { child_count: 412 });
    assert_eq!(folder.items[1].name, "README.md");
    assert_eq!(
        folder.archive.expect("a folder is archived").archive_name,
        "Project Assets + 1 item.tar.zst"
    );

    assert_eq!(remove_item("readme").kind, ContentKind::Empty);
}

#[test]
fn the_sample_tailnet_selects_the_phone() {
    let list = fetch_devices();
    assert_eq!(list.devices.len(), 4);
    assert_eq!(list.selected_id, "pixel-9");
    assert_eq!(list.devices[1].kind, DeviceKind::Phone);
    assert!(list.devices[0].is_online());
    assert!(!list.devices[3].is_online());
    assert_eq!(list.devices[3].connection, ConnectionKind::Offline);
    assert_eq!(list.devices[3].name, "旧笔记本");
}

#[test]
fn sample_preferences_and_sinks() {
    let preferences = fetch_preferences();
    assert!(preferences.notify_after_transfer);
    assert!(preferences.inhibit_suspend);
    assert_eq!(preferences.default_format, ArchiveFormat::Auto);
    assert_eq!(preferences.compression_level, CompressionLevel::Balanced);
    update_preference(PreferenceChange::InhibitSuspend(false));
    cancel_transfer("mock-transfer-001");
    let summary = ContentSummary { item_count: 1, total_size_bytes: 0, method: SendMethod::Separate };
    assert!(summary.is_ready());
}
