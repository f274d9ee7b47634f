use std::time::Duration;

use droptail::application::Application;
use droptail::domain::content::{ArchiveDefaults, ArchiveFormat, CompressionLevel, ContentItem, SendMethod};
use droptail::domain::device::{Connection, Device, DeviceList, IpAddress};
use droptail::domain::transfer::TransferItemState;
use droptail::path::ItemPath;
use droptail::transfer::TransferPayload;

fn defaults() -> ArchiveDefaults {
    ArchiveDefaults { format: ArchiveFormat::TarZst, compression: CompressionLevel::Balanced }
}

fn device(id: &str, name: &str, connection: Connection) -> Device {
    Device {
        id: id.to_owned(),
        name: name.to_owned(),
        platform: "linux".to_owned(),
        address: IpAddress::V4([100, 64, 0, 9]),
        connection,
    }
}

fn ready_application() -> Application {
    let mut app = Application::new();
    app.replace_devices(DeviceList::new(vec![
        device("laptop", "Laptop", Connection::Direct),
        device("phone", "Phone", Connection::Derp("fra".to_owned())),
    ]));
    app.add_content(
        vec![
            ContentItem::file(ItemPath::from_str("/tmp/a.bin"), 4),
            ContentItem::file(ItemPath::from_str("/tmp/b.bin"), 6),
        ],
        defaults(),
    );
    app
}

#[test]
fn a_separate_transfer_sends_each_file_to_the_selected_device() {
    let mut app = ready_application();
    app.select_device("phone");
    let task = app.start_transfer(Duration::from_millis(250));
    let (id, target, payload, interval, _token) = task.into_parts();
    assert_eq!(id, 1);
    assert_eq!(target, "phone");
    assert_eq!(interval, Duration::from_millis(250));
    match payload {
        TransferPayload::Separate(files) => {
            let names: Vec<&str> = files.iter().map(|f| f.name.as_str()).collect();
            assert_eq!(names, ["a.bin", "b.bin"]);
            assert_eq!(files[1].size, 6);
        }
        TransferPayload::Archive(_) => panic!("files are sent one by one"),
    }
    let snapshot = app.transfer().expect("the transfer is under way");
    assert_eq!(snapshot.id(), 1);
    assert_eq!(snapshot.target().id, "phone");
    assert_eq!(snapshot.item_count(), 2);
    assert_eq!(snapshot.progress_bytes(), Some((0, 10)));
    assert_eq!(snapshot.queue()[0].state, TransferItemState::Sending);
    assert_eq!(snapshot.queue()[1].state, TransferItemState::Waiting);
}

#[test]
fn events_of_the_transfer_under_way_advance_it_and_others_are_ignored() {
    let mut app = ready_application();
    let task = app.start_transfer(Duration::from_secs(1));
    let (id, _, _, _, _) = task.into_parts();

    assert!(!app.record_transfer_sample(id + 1, 0, 1, 1));
    assert!(app.record_transfer_sample(id, 0, 3, 100));
    assert_eq!(app.transfer().expect("under way").progress_bytes(), Some((3, 10)));
    assert!(!app.finish_transfer_item(id + 1, 0));
    assert!(app.finish_transfer_item(id, 0));
    assert_eq!(app.transfer().expect("under way").current_name(), "b.bin");

    assert!(!app.end_transfer(id + 1));
    assert!(app.end_transfer(id));
    assert!(app.transfer().is_none());
    assert!(!app.end_transfer(id));

    let next = app.start_transfer(Duration::from_secs(1)).into_parts().0;
    assert_eq!(next, id + 1);
}

#[test]
fn cancelling_marks_the_transfer_and_trips_its_token() {
    let mut app = ready_application();
    let task = app.start_transfer(Duration::from_secs(1));
    let token = task.cancellation_token();
    assert!(!token.is_cancelled());
    app.cancel_transfer();
    assert!(token.is_cancelled());
    assert!(app.transfer().expect("still shown until it stops").is_cancelling());
}

#[test]
fn a_folder_is_sent_as_one_archive() {
    let mut app = Application::new();
    app.replace_devices(DeviceList::new(vec![device("laptop", "Laptop", Connection::Direct)]));
    app.add_content(vec![ContentItem::folder(ItemPath::from_str("/home/u/photos"), 5)], defaults());
    assert_eq!(app.content().send_method(), SendMethod::Archive);
    let task = app.start_transfer(Duration::from_secs(1));
    match task.into_parts().2 {
        TransferPayload::Archive(request) => assert_eq!(request.name(), "photos.tar.zst"),
        TransferPayload::Separate(_) => panic!("a folder must be archived"),
    }
    let snapshot = app.transfer().expect("under way");
    assert_eq!(snapshot.current_name(), "photos.tar.zst");
    assert_eq!(snapshot.progress_bytes(), None);
}

#[test]
fn offline_devices_can_be_hidden_and_the_selection_stays() {
    let mut app = Application::new();
    app.replace_devices(DeviceList::new(vec![
        device("old", "Old", Connection::Offline),
        device("new", "New", Connection::Direct),
    ]));
    assert_eq!(app.visible_devices(true).devices().len(), 2);
    assert_eq!(app.visible_devices(false).devices().len(), 1);
    assert_eq!(app.selected_device().map(|d| d.id.as_str()), Some("new"));
    app.remove_content(&ItemPath::from_str("nothing"), defaults());
    assert!(app.content().is_empty());
}
