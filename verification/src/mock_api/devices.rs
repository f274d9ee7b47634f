//! A sample tailnet: three online devices and an offline laptop, with the
//! phone selected.

use vstd::prelude::*;
use crate::models::{ConnectionKind, Device, DeviceKind, DeviceList};

verus! {

/// Whether a device has the given identifier, name, kind, platform,
/// address and connection.
pub open spec fn device_is(
    d: Device,
    id: Seq<char>,
    name: Seq<char>,
    kind: DeviceKind,
    platform: Seq<char>,
    address: Seq<char>,
    connection: ConnectionKind,
) -> bool {
    &&& d.id@ == id
    &&& d.name@ == name
    &&& d.kind == kind
    &&& d.platform@ == platform
    &&& d.address@ == address
    &&& d.connection == connection
}

pub fn fetch_devices() -> (r: DeviceList)
    ensures
        r.devices@.len() == 4,
        device_is(r.devices@[0], "thinkpad-x1"@, "ThinkPad X1"@, DeviceKind::Computer, "Linux"@, "100.82.14.27"@, ConnectionKind::Online),
        device_is(r.devices@[1], "pixel-9"@, "Pixel 9"@, DeviceKind::Phone, "Android"@, "100.96.33.8"@, ConnectionKind::Online),
        device_is(r.devices@[2], "studio-pc"@, "Studio PC"@, DeviceKind::Computer, "Windows"@, "100.121.5.19"@, ConnectionKind::Online),
        device_is(r.devices@[3], "old-laptop"@, "旧笔记本"@, DeviceKind::Computer, "Linux"@, "100.77.4.50"@, ConnectionKind::Offline),
        r.selected_id@ == "pixel-9"@,
{
    DeviceList {
        devices: vec![
            Device {
                id: "thinkpad-x1".to_owned(),
                name: "ThinkPad X1".to_owned(),
                kind: DeviceKind::Computer,
                platform: "Linux".to_owned(),
                address: "100.82.14.27".to_owned(),
                connection: ConnectionKind::Online,
            },
            Device {
                id: "pixel-9".to_owned(),
                name: "Pixel 9".to_owned(),
                kind: DeviceKind::Phone,
                platform: "Android".to_owned(),
                address: "100.96.33.8".to_owned(),
                connection: ConnectionKind::Online,
            },
            Device {
                id: "studio-pc".to_owned(),
                name: "Studio PC".to_owned(),
                kind: DeviceKind::Computer,
                platform: "Windows".to_owned(),
                address: "100.121.5.19".to_owned(),
                connection: ConnectionKind::Online,
            },
            Device {
                id: "old-laptop".to_owned(),
                name: "旧笔记本".to_owned(),
                kind: DeviceKind::Computer,
                platform: "Linux".to_owned(),
                address: "100.77.4.50".to_owned(),
                connection: ConnectionKind::Offline,
            },
        ],
        selected_id: "pixel-9".to_owned(),
    }
}

} // verus!
