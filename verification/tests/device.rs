use droptail::domain::device::{Connection, Device, DeviceList, IpAddress};

fn device(id: &str, name: &str, connection: Connection) -> Device {
    Device {
        id: id.to_owned(),
        name: name.to_owned(),
        platform: "Linux".to_owned(),
        address: IpAddress::V4([100, 64, 0, 1]),
        connection,
    }
}

#[test]
fn list_selects_an_online_device_and_can_hide_offline_devices() {
    let offline = device("offline", "A", Connection::Offline);
    let online = device("online", "B", Connection::Direct);
    let list = DeviceList::new(vec![offline, online.clone()]);

    assert_eq!(list.selected(), Some(&online));
    let visible = list.with_offline_visible(false);
    assert_eq!(visible.devices(), &[online]);
    assert_eq!(visible.selected_index(), Some(0));

    let offline_only = DeviceList::new(vec![device("offline", "A", Connection::Offline)]);
    assert_eq!(offline_only.selected(), None);
    assert!(offline_only.with_offline_visible(false).devices().is_empty());
    assert_eq!(DeviceList::default().selected(), None);
}

#[test]
fn online_devices_come_first_then_by_name_without_case() {
    let list = DeviceList::new(vec![
        device("3", "zeta", Connection::Direct),
        device("1", "old", Connection::Offline),
        device("2", "Alpha", Connection::Derp("fra".to_owned())),
        device("4", "beta", Connection::PeerRelay("relay".to_owned())),
    ]);
    let ids: Vec<&str> = list.devices().iter().map(|d| d.id.as_str()).collect();
    assert_eq!(ids, ["2", "4", "3", "1"]);
    assert_eq!(list.selected_index(), Some(0));
    assert_eq!(list.with_offline_visible(true).devices().len(), 4);
    assert_eq!(list.with_offline_visible(false).devices().len(), 3);
}

#[test]
fn equal_names_are_ordered_by_identifier() {
    let list = DeviceList::new(vec![
        device("b", "Same", Connection::Direct),
        device("a", "same", Connection::Direct),
    ]);
    let ids: Vec<&str> = list.devices().iter().map(|d| d.id.as_str()).collect();
    assert_eq!(ids, ["a", "b"]);
}

#[test]
fn selecting_a_device_makes_it_the_target() {
    let mut list = DeviceList::new(vec![
        device("a", "A", Connection::Direct),
        device("b", "B", Connection::Direct),
    ]);
    assert_eq!(list.selected().map(|d| d.id.as_str()), Some("a"));
    list.select("b");
    assert_eq!(list.selected().map(|d| d.id.as_str()), Some("b"));
    assert_eq!(list.selected_index(), Some(1));
}

#[test]
fn only_offline_is_not_online() {
    assert!(!Connection::Offline.is_online());
    assert!(Connection::Direct.is_online());
    assert!(Connection::Derp("x".to_owned()).is_online());
    assert!(Connection::PeerRelay("y".to_owned()).is_online());
    assert!(device("a", "A", Connection::Direct).is_online());
}

#[test]
fn names_are_compared_in_lower_case() {
    let list = DeviceList::new(vec![
        device("1", "B", Connection::Direct),
        device("2", "a", Connection::Direct),
        device("3", "Ä", Connection::Direct),
    ]);
    let names: Vec<&str> = list.devices().iter().map(|d| d.name.as_str()).collect();
    assert_eq!(names, ["a", "B", "Ä"]);
}
