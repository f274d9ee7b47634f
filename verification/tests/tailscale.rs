use droptail::domain::device::{Connection, Device, IpAddress};
use droptail::tailscale::{
    LocalApiError, PeerStatus, StatusResponse, TailnetStatus, connection, devices_from_status, display_name,
    file_put_rejection, file_put_url, preferred_address, status_reply_error,
};

fn peer(id: &str, host_name: &str, dns_name: &str, os: &str, ips: Vec<IpAddress>) -> PeerStatus {
    PeerStatus {
        id: id.to_owned(),
        host_name: host_name.to_owned(),
        dns_name: dns_name.to_owned(),
        os: os.to_owned(),
        tailscale_ips: ips,
        cur_addr: String::new(),
        relay: String::new(),
        peer_relay: String::new(),
        online: true,
        taildrop_target: 1,
    }
}

fn v4(a: u8, b: u8, c: u8, d: u8) -> IpAddress {
    IpAddress::V4([a, b, c, d])
}

fn fixture() -> StatusResponse {
    let mut direct = peer(
        "node-direct",
        "direct-host",
        "desktop.example.ts.net.",
        "linux",
        vec![IpAddress::V6([0xfd7a, 0x115c, 0xa1e0, 0, 0, 0, 0, 2]), v4(100, 64, 0, 2)],
    );
    direct.cur_addr = "192.0.2.2:41641".to_owned();
    direct.relay = "fra".to_owned();
    let mut relay = peer("node-relay", "Pixel 9", "", "android", vec![v4(100, 64, 0, 3)]);
    relay.relay = "fra".to_owned();
    let mut peer_relay = peer("node-peer-relay", "", "studio.example.ts.net.", "windows", vec![v4(100, 64, 0, 4)]);
    peer_relay.cur_addr = "192.0.2.4:41641".to_owned();
    peer_relay.relay = "lhr".to_owned();
    peer_relay.peer_relay = "100.64.0.10:1:vni:7".to_owned();
    let mut offline = peer("node-offline", "", "iphone.example.ts.net.", "iOS", vec![v4(100, 64, 0, 5)]);
    offline.online = false;
    offline.taildrop_target = 5;
    let mut unsupported = peer("node-unsupported", "", "nas.example.ts.net.", "linux", vec![v4(100, 64, 0, 6)]);
    unsupported.taildrop_target = 7;
    StatusResponse {
        backend_state: "Running".to_owned(),
        magic_dns_suffix: "legacy.example.ts.net".to_owned(),
        current_tailnet: Some(TailnetStatus { magic_dns_suffix: "example.ts.net".to_owned() }),
        peers: vec![direct, relay, peer_relay, offline, unsupported],
    }
}

fn device<'a>(devices: &'a [Device], id: &str) -> &'a Device {
    devices.iter().find(|device| device.id == id).expect("fixture device must exist")
}

#[test]
fn status_maps_only_taildrop_targets_and_preserves_connection_details() {
    let devices = devices_from_status(&fixture()).expect("fixture must be valid");
    assert_eq!(devices.len(), 4);

    let direct = device(&devices, "node-direct");
    assert_eq!(direct.name, "desktop");
    assert_eq!(direct.platform, "linux");
    assert_eq!(direct.address, v4(100, 64, 0, 2));
    assert_eq!(direct.connection, Connection::Direct);

    let relay = device(&devices, "node-relay");
    assert_eq!(relay.name, "Pixel 9");
    assert_eq!(relay.platform, "android");
    assert_eq!(relay.connection, Connection::Derp("fra".to_owned()));

    let peer_relay = device(&devices, "node-peer-relay");
    assert_eq!(peer_relay.connection, Connection::PeerRelay("100.64.0.10:1:vni:7".to_owned()));

    let offline = device(&devices, "node-offline");
    assert_eq!(offline.connection, Connection::Offline);
    assert!(!devices.iter().any(|device| device.id == "node-unsupported"));
}

#[test]
fn status_rejects_a_disconnected_backend() {
    let status = StatusResponse {
        backend_state: "Stopped".to_owned(),
        magic_dns_suffix: String::new(),
        current_tailnet: None,
        peers: Vec::new(),
    };
    let error = devices_from_status(&status).expect_err("a stopped backend cannot provide send targets");
    assert!(matches!(error, LocalApiError::NotRunning { .. }));
}

#[test]
fn file_put_url_escapes_target_and_filename_as_path_segments() {
    let url = file_put_url("node/id", "report #?.txt").expect("the LocalAPI origin is a valid URL");

    assert_eq!(url, "http://local-tailscaled.sock/localapi/v0/file-put/node%2Fid/report%20%23%3F.txt");
}

#[test]
fn target_errors_name_the_device() {
    let mut status = fixture();
    status.peers = vec![peer("", "host", "", "linux", vec![v4(1, 2, 3, 4)])];
    assert!(matches!(devices_from_status(&status), Err(LocalApiError::MissingStableId { name }) if name == "host"));

    status.peers = vec![peer("id", "host", "", "linux", vec![])];
    assert!(matches!(devices_from_status(&status), Err(LocalApiError::MissingAddress { name }) if name == "host"));

    status.peers = vec![peer("id", "host", "", "linux", vec![v4(1, 2, 3, 4)])];
    assert!(matches!(devices_from_status(&status), Err(LocalApiError::MissingConnection { name }) if name == "host"));

    status.peers = vec![peer("id", "  ", "", "linux", vec![v4(1, 2, 3, 4)])];
    assert!(matches!(devices_from_status(&status), Err(LocalApiError::MissingName)));
}

#[test]
fn names_drop_the_tailnet_suffix() {
    let p = peer("id", "host", "laptop.example.ts.net.", "linux", vec![]);
    assert_eq!(display_name(&p, "example.ts.net").as_deref(), Some("laptop"));
    assert_eq!(display_name(&p, ".example.ts.net.").as_deref(), Some("laptop"));
    assert_eq!(display_name(&p, "other.net").as_deref(), Some("laptop.example.ts.net"));
    assert_eq!(display_name(&p, "").as_deref(), Some("laptop.example.ts.net"));
    let bare = peer("id", "  host name ", "", "linux", vec![]);
    assert_eq!(display_name(&bare, "example.ts.net").as_deref(), Some("host name"));
    let only_suffix = peer("id", "h", "example.ts.net.", "linux", vec![]);
    assert_eq!(display_name(&only_suffix, "example.ts.net").as_deref(), Some("example.ts.net"));
}

#[test]
fn the_first_ipv4_address_is_preferred() {
    let v6 = IpAddress::V6([1, 2, 3, 4, 5, 6, 7, 8]);
    assert_eq!(preferred_address(&[v6, v4(1, 1, 1, 1), v4(2, 2, 2, 2)]), Some(v4(1, 1, 1, 1)));
    assert_eq!(preferred_address(&[v6]), Some(v6));
    assert_eq!(preferred_address(&[]), None);
}

#[test]
fn an_online_peer_prefers_a_peer_relay_then_a_direct_path_then_derp() {
    let mut p = peer("id", "h", "", "linux", vec![]);
    assert_eq!(connection(&p), None);
    p.relay = "fra".to_owned();
    assert_eq!(connection(&p), Some(Connection::Derp("fra".to_owned())));
    p.cur_addr = "1.2.3.4:5".to_owned();
    assert_eq!(connection(&p), Some(Connection::Direct));
    p.peer_relay = "r".to_owned();
    assert_eq!(connection(&p), Some(Connection::PeerRelay("r".to_owned())));
    p.online = false;
    assert_eq!(connection(&p), Some(Connection::Offline));
}

#[test]
fn replies_other_than_success_are_errors() {
    assert!(status_reply_error(200).is_none());
    assert!(status_reply_error(204).is_none());
    assert!(matches!(status_reply_error(503), Some(LocalApiError::HttpStatus { status: 503 })));
    assert!(matches!(status_reply_error(199), Some(LocalApiError::HttpStatus { status: 199 })));
    match file_put_rejection(403, "  not allowed\n") {
        LocalApiError::FilePutRejected { status, message } => {
            assert_eq!(status, 403);
            assert_eq!(message, "not allowed");
        }
        other => panic!("unexpected error {other:?}"),
    }
}
