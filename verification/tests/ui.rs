use std::time::Duration;

use droptail::application::Application;
use droptail::domain::content::{ArchiveDefaults, ArchiveFormat, CompressionLevel, ContentItem, ContentSelection};
use droptail::domain::device::{Connection, Device, DeviceList, IpAddress};
use droptail::domain::preferences::PreferenceChange;
use droptail::domain::transfer::TransferItemState;
use droptail::path::ItemPath;
use droptail::ui::choices::{compression_at, compression_index, compression_name, compression_named, format_at, format_index};
use droptail::ui::desktop::{SuspendInhibition, notification_body};
use droptail::ui::panels::{
    DevicePanel, DevicePanelMsg, DevicePanelOutput, PreferencesDialogMsg, content_description, item_detail,
    online_label, preference_change, queue_state_label, rate_text, transferred_text,
};
use droptail::ui::window::{
    CloseDecision, PrimaryAction, close_confirmation, close_decision, footer_subtitle, footer_title, offline_visibility,
    page_name, primary_action, primary_enabled, primary_label,
};

fn defaults() -> ArchiveDefaults {
    ArchiveDefaults { format: ArchiveFormat::TarZst, compression: CompressionLevel::Balanced }
}

fn device(id: &str, name: &str, connection: Connection) -> Device {
    Device {
        id: id.to_owned(),
        name: name.to_owned(),
        platform: "linux".to_owned(),
        address: IpAddress::V4([100, 64, 0, 9]),
        connection,
    }
}

#[test]
fn the_footer_describes_the_selection_and_the_target() {
    let mut app = Application::new();
    assert_eq!(footer_title(&app), "尚未选择内容");
    assert_eq!(footer_subtitle(&app), "分别发送");
    assert_eq!(page_name(&app), "compose");
    assert_eq!(primary_label(&app), "发送");
    assert!(!primary_enabled(&app));
    assert_eq!(primary_action(&app), PrimaryAction::Nothing);

    app.replace_devices(DeviceList::new(vec![device("pc", "Studio PC", Connection::Direct)]));
    assert_eq!(footer_title(&app), "尚未选择内容 → Studio PC");

    app.add_content(
        vec![
            ContentItem::file(ItemPath::from_str("a.bin"), 1536),
            ContentItem::file(ItemPath::from_str("b.bin"), 512),
        ],
        defaults(),
    );
    assert_eq!(footer_title(&app), "2 个项目 · 2.0 KiB → Studio PC");
    assert!(primary_enabled(&app));
    assert_eq!(primary_action(&app), PrimaryAction::Start);

    app.add_content(vec![ContentItem::folder(ItemPath::from_str("dir"), 3)], defaults());
    assert_eq!(footer_title(&app), "3 个项目 → Studio PC");
    assert_eq!(footer_subtitle(&app), "打包后发送");
}

#[test]
fn while_sending_the_window_shows_progress_and_asks_before_closing() {
    let mut app = Application::new();
    app.replace_devices(DeviceList::new(vec![device("pc", "PC", Connection::Direct)]));
    app.add_content(vec![ContentItem::file(ItemPath::from_str("a.bin"), 1)], defaults());
    assert_eq!(close_decision(&app), CloseDecision::Quit);
    let _task = app.start_transfer(Duration::from_secs(1));
    assert_eq!(page_name(&app), "progress");
    assert_eq!(footer_title(&app), "正在发送 1 个文件");
    assert_eq!(footer_subtitle(&app), "关闭窗口前应确认是否停止当前传输");
    assert_eq!(primary_label(&app), "停止发送");
    assert_eq!(primary_action(&app), PrimaryAction::Stop);
    assert_eq!(close_decision(&app), CloseDecision::Confirm { item_count: 1 });
    assert_eq!(close_confirmation(1), "当前传输尚未完成。关闭窗口会停止这 1 个文件的发送。");

    app.cancel_transfer();
    assert_eq!(footer_title(&app), "正在停止 1 个文件的发送");
    assert_eq!(footer_subtitle(&app), "正在等待当前请求停止");
    assert_eq!(primary_label(&app), "正在停止…");
    assert!(!primary_enabled(&app));
    assert_eq!(close_decision(&app), CloseDecision::Quit);
}

#[test]
fn the_device_panel_asks_for_one_refresh_at_a_time() {
    let list = DeviceList::new(vec![device("on", "On", Connection::Direct), device("off", "Off", Connection::Offline)]);
    let mut panel = DevicePanel::new(list);
    assert!(!panel.refreshing());
    assert_eq!(panel.update(DevicePanelMsg::Refresh), Some(DevicePanelOutput::RefreshRequested));
    assert!(panel.refreshing());
    assert_eq!(panel.update(DevicePanelMsg::Refresh), None);
    assert_eq!(panel.update(DevicePanelMsg::RefreshFinished), None);
    assert_eq!(panel.update(DevicePanelMsg::Refresh), Some(DevicePanelOutput::RefreshRequested));

    assert_eq!(panel.update(DevicePanelMsg::Select(0)), Some(DevicePanelOutput::Selected("on".to_owned())));
    assert_eq!(panel.update(DevicePanelMsg::Select(1)), None);

    let fewer = DeviceList::new(vec![device("x", "X", Connection::Direct)]);
    assert_eq!(panel.update(DevicePanelMsg::Show(fewer)), None);
    assert_eq!(panel.devices().len(), 1);
    assert!(panel.refreshing());
}

#[test]
fn panels_describe_items_and_progress() {
    let mut selection = ContentSelection::default();
    assert_eq!(content_description(&selection), "拖放或通过文件选择器添加");
    selection.add(vec![ContentItem::file(ItemPath::from_str("a.bin"), 2048)], defaults());
    assert_eq!(content_description(&selection), "1 个项目 · 2.0 KiB");
    assert_eq!(item_detail(&selection.items()[0]), "文件");
    assert_eq!(item_detail(&ContentItem::folder(ItemPath::from_str("d"), 12)), "12 个文件");
    assert_eq!(online_label(true), "● 在线");
    assert_eq!(online_label(false), "● 离线");
    assert_eq!(transferred_text(1024, 1_048_576), "1.0 KiB / 1.0 MiB");
    assert_eq!(rate_text(40_055_603, 40), "38.2 MiB/s   约 40 秒");
    assert_eq!(queue_state_label(TransferItemState::Sending), "发送中");
    assert_eq!(queue_state_label(TransferItemState::Waiting), "等待");
    assert_eq!(queue_state_label(TransferItemState::Sent), "已发送");
}

#[test]
fn list_positions_and_toggle_names_read_back() {
    for format in [ArchiveFormat::Tar, ArchiveFormat::TarZst, ArchiveFormat::TarGz, ArchiveFormat::Zip] {
        assert_eq!(format_at(format_index(format)), Some(format));
    }
    assert_eq!(format_index(ArchiveFormat::TarGz), 2);
    assert_eq!(format_at(4), None);
    for level in [CompressionLevel::Fast, CompressionLevel::Balanced, CompressionLevel::Smaller] {
        assert_eq!(compression_at(compression_index(level)), Some(level));
        assert_eq!(compression_named(compression_name(level)), Some(level));
    }
    assert_eq!(compression_name(CompressionLevel::Balanced), "balanced");
    assert_eq!(compression_at(3), None);
    assert_eq!(compression_named("fastest"), None);
}

#[test]
fn the_preferences_dialog_reports_changes() {
    match preference_change(PreferencesDialogMsg::SpeedSampleInterval(500)) {
        Some(PreferenceChange::SpeedSampleInterval(d)) => assert_eq!(d, Duration::from_millis(500)),
        other => panic!("unexpected change {other:?}"),
    }
    assert!(matches!(
        preference_change(PreferencesDialogMsg::DefaultFormat(3)),
        Some(PreferenceChange::DefaultFormat(ArchiveFormat::Zip))
    ));
    assert!(preference_change(PreferencesDialogMsg::DefaultFormat(9)).is_none());
    assert!(matches!(
        preference_change(PreferencesDialogMsg::CompressionLevel(0)),
        Some(PreferenceChange::CompressionLevel(CompressionLevel::Fast))
    ));
    assert!(matches!(
        preference_change(PreferencesDialogMsg::ShowOfflineDevices(true)),
        Some(PreferenceChange::ShowOfflineDevices(true))
    ));
    assert_eq!(offline_visibility(&PreferenceChange::ShowOfflineDevices(false)), Some(false));
    assert_eq!(offline_visibility(&PreferenceChange::InhibitSuspend(true)), None);
}

#[test]
fn suspend_is_held_off_once_and_released_once() {
    let mut inhibition = SuspendInhibition::new();
    assert!(!inhibition.is_inhibited());
    inhibition.record(0);
    assert!(!inhibition.is_inhibited());
    inhibition.record(42);
    assert!(inhibition.is_inhibited());
    assert_eq!(inhibition.release(), Some(42));
    assert_eq!(inhibition.release(), None);
    assert_eq!(notification_body("Pixel 9", 3), "已向 Pixel 9 发送 3 个文件。");
}
