//! The panels of the window: the device list and its refresh button, the
//! selected content, the progress of a transfer, and the preferences dialog.

use vstd::prelude::*;
use crate::domain::content::{ContentItem, ContentSelection, ItemView};
use crate::domain::device::{Device, DeviceList, DeviceListView, DeviceView, devices_view};
use crate::domain::preferences::PreferenceChange;
use crate::domain::transfer::TransferItemState;
use crate::outside::{duration_from_millis, duration_nanos};
use crate::presentation::{format_rate, format_rate_spec, format_size, format_size_spec};
use crate::text::{decimal, push_decimal, push_str};
use crate::ui::choices::{compression_at, compression_position, format_at, format_position};
use crate::ui::window::{content_line, push_content_line, selection_size};

verus! {

/// What the device panel is told.
#[derive(Debug)]
pub enum DevicePanelMsg {
    /// Show these devices.
    Show(DeviceList),
    /// The row at this place was chosen.
    Select(usize),
    /// The refresh button was pressed.
    Refresh,
    /// The devices asked for have arrived, or could not be read.
    RefreshFinished,
}

/// What the device panel asks of the window.
#[derive(Debug, PartialEq, Eq)]
pub enum DevicePanelOutput {
    /// Make the device with this identifier the target.
    Selected(String),
    /// Read the devices again.
    RefreshRequested,
}

pub enum PanelMsgView {
    Show(DeviceListView),
    Select(usize),
    Refresh,
    RefreshFinished,
}

pub enum PanelOutputView {
    Selected(Seq<char>),
    RefreshRequested,
}

impl View for DevicePanelMsg {
    type V = PanelMsgView;

    open spec fn view(&self) -> PanelMsgView {
        match self {
            DevicePanelMsg::Show(list) => PanelMsgView::Show(list@),
            DevicePanelMsg::Select(i) => PanelMsgView::Select(*i),
            DevicePanelMsg::Refresh => PanelMsgView::Refresh,
            DevicePanelMsg::RefreshFinished => PanelMsgView::RefreshFinished,
        }
    }
}

pub open spec fn output_view(r: Option<DevicePanelOutput>) -> Option<PanelOutputView> {
    match r {
        Some(DevicePanelOutput::Selected(id)) => Some(PanelOutputView::Selected(id@)),
        Some(DevicePanelOutput::RefreshRequested) => Some(PanelOutputView::RefreshRequested),
        None => None,
    }
}

/// The devices shown, and whether a refresh is under way.
#[derive(Debug)]
pub struct DevicePanel {
    devices: Vec<Device>,
    refreshing: bool,
}

pub struct DevicePanelView {
    pub devices: Seq<DeviceView>,
    pub refreshing: bool,
}

impl View for DevicePanel {
    type V = DevicePanelView;

    closed spec fn view(&self) -> DevicePanelView {
        DevicePanelView { devices: devices_view(self.devices@), refreshing: self.refreshing }
    }
}

/// The panel after a message, and what it asks of the window: choosing an
/// online row names its device, choosing an offline one does nothing; a
/// refresh is asked for only when none is under way.
pub open spec fn panel_step(v: DevicePanelView, msg: PanelMsgView) -> (DevicePanelView, Option<PanelOutputView>) {
    match msg {
        PanelMsgView::Show(list) => (DevicePanelView { devices: list.devices, ..v }, None),
        PanelMsgView::Select(i) => (v, if v.devices[i as int].online() {
            Some(PanelOutputView::Selected(v.devices[i as int].id))
        } else {
            None
        }),
        PanelMsgView::Refresh => if v.refreshing {
            (v, None)
        } else {
            (DevicePanelView { refreshing: true, ..v }, Some(PanelOutputView::RefreshRequested))
        },
        PanelMsgView::RefreshFinished => (DevicePanelView { refreshing: false, ..v }, None),
    }
}

/// A message the panel can take in state `v`: a chosen row is one of its
/// rows.
pub open spec fn panel_accepts(v: DevicePanelView, msg: PanelMsgView) -> bool {
    msg matches PanelMsgView::Select(i) ==> i < v.devices.len()
}

fn clone_devices(devices: &[Device]) -> (r: Vec<Device>)
    ensures
        devices_view(r@) == devices_view(devices@),
{
    let mut out: Vec<Device> = Vec::new();
    let mut i: usize = 0;
    while i < devices.len()
        invariant
            i <= devices@.len(),
            devices_view(out@) == devices_view(devices@).take(i as int),
        decreases devices@.len() - i,
    {
        let d = devices[i].clone();
        let ghost before = out@;
        out.push(d);
        assert(devices_view(out@) =~= devices_view(before).push(d@));
        assert(devices_view(devices@).take(i + 1) =~= devices_view(devices@).take(i as int).push(devices@[i as int]@));
        i = i + 1;
    }
    assert(devices_view(devices@).take(devices@.len() as int) =~= devices_view(devices@));
    out
}

impl DevicePanel {
    /// A panel showing the given devices, with no refresh under way.
    pub fn new(list: DeviceList) -> (r: Self)
        ensures
            r@ == (DevicePanelView { devices: list@.devices, refreshing: false }),
    {
        DevicePanel { devices: clone_devices(list.devices()), refreshing: false }
    }

    pub fn devices(&self) -> (r: &[Device])
        ensures
            devices_view(r@) == self@.devices,
    {
        self.devices.as_slice()
    }

    pub fn refreshing(&self) -> (r: bool)
        ensures
            r == self@.refreshing,
    {
        self.refreshing
    }

    /// Takes a message and says what the window is asked to do.
    pub fn update(&mut self, msg: DevicePanelMsg) -> (r: Option<DevicePanelOutput>)
        requires
            panel_accepts(old(self)@, msg@),
        ensures
            (final(self)@, output_view(r)) == panel_step(old(self)@, msg@),
    {
        match msg {
            DevicePanelMsg::Show(list) => {
                self.devices = clone_devices(list.devices());
                None
            },
            DevicePanelMsg::Select(index) => {
                assert(self@.devices[index as int] == self.devices@[index as int]@);
                let device = &self.devices[index];
                if device.is_online() {
                    Some(DevicePanelOutput::Selected(device.id.clone()))
                } else {
                    None
                }
            },
            DevicePanelMsg::Refresh => {
                if self.refreshing {
                    None
                } else {
                    self.refreshing = true;
                    Some(DevicePanelOutput::RefreshRequested)
                }
            },
            DevicePanelMsg::RefreshFinished => {
                self.refreshing = false;
                None
            },
        }
    }
}

/// While a refresh is under way, pressing refresh again asks for nothing;
/// once it has finished, pressing refresh asks again.
pub proof fn law_one_refresh_at_a_time(v: DevicePanelView)
    ensures
        panel_step(panel_step(v, PanelMsgView::Refresh).0, PanelMsgView::Refresh).1 is None,
        panel_step(panel_step(v, PanelMsgView::RefreshFinished).0, PanelMsgView::Refresh).1
            == Some(PanelOutputView::RefreshRequested),
{
}

/// Only online devices are ever named as the target.
pub proof fn law_only_online_devices_selected(v: DevicePanelView, msg: PanelMsgView)
    requires
        panel_accepts(v, msg),
    ensures
        panel_step(v, msg).1 matches Some(PanelOutputView::Selected(id)) ==> exists|i: int|
            0 <= i < v.devices.len() && (#[trigger] v.devices[i]).id == id && v.devices[i].online(),
{
    if let PanelMsgView::Select(i) = msg {
        if v.devices[i as int].online() {
            assert(v.devices[i as int].id == v.devices[i as int].id);
        }
    }
}

/// The line under the content heading.
pub open spec fn content_description_of(selection: crate::domain::content::SelectionView) -> Seq<char> {
    if selection is Empty {
        "拖放或通过文件选择器添加"@
    } else {
        content_line(selection.items().len(), selection_size(selection), None)
    }
}

pub fn content_description(selection: &ContentSelection) -> (r: String)
    ensures
        r@ == content_description_of(selection@),
{
    let mut s = String::new();
    if selection.is_empty() {
        push_str(&mut s, "拖放或通过文件选择器添加");
    } else {
        push_content_line(&mut s, selection.item_count(), selection.total_size_bytes(), None);
    }
    assert(s@ =~= content_description_of(selection@));
    s
}

/// The detail of a listed item: a file, or how many files a folder holds.
pub fn item_detail(item: &ContentItem) -> (r: String)
    ensures
        r@ == match item@ {
            ItemView::File { .. } => "文件"@,
            ItemView::Folder { file_count, .. } => decimal(file_count as nat) + " 个文件"@,
        },
{
    let mut s = String::new();
    match item {
        ContentItem::File { .. } => push_str(&mut s, "文件"),
        ContentItem::Folder { file_count, .. } => {
            push_decimal(&mut s, *file_count as u128);
            push_str(&mut s, " 个文件");
        },
    }
    s
}

/// The status shown beside a device.
pub fn online_label(online: bool) -> (r: &'static str)
    ensures
        r@ == (if online { "● 在线"@ } else { "● 离线"@ }),
{
    if online { "● 在线" } else { "● 离线" }
}

/// How much of the transfer has gone, of how much.
pub fn transferred_text(transferred: u64, total: u64) -> (r: String)
    ensures
        r@ == format_size_spec(transferred as nat) + " / "@ + format_size_spec(total as nat),
{
    let mut s = format_size(transferred);
    push_str(&mut s, " / ");
    let t = format_size(total);
    push_str(&mut s, t.as_str());
    s
}

/// The rate, and the seconds left at that rate.
pub fn rate_text(bytes_per_second: u64, eta_seconds: u64) -> (r: String)
    ensures
        r@ == format_rate_spec(bytes_per_second as nat) + "   约 "@ + decimal(eta_seconds as nat) + " 秒"@,
{
    let mut s = format_rate(bytes_per_second);
    push_str(&mut s, "   约 ");
    push_decimal(&mut s, eta_seconds as u128);
    push_str(&mut s, " 秒");
    s
}

/// The state shown beside an item of the transfer queue.
pub fn queue_state_label(state: TransferItemState) -> (r: &'static str)
    ensures
        r@ == match state {
            TransferItemState::Sending => "发送中"@,
            TransferItemState::Waiting => "等待"@,
            TransferItemState::Sent => "已发送"@,
        },
{
    match state {
        TransferItemState::Sending => "发送中",
        TransferItemState::Waiting => "等待",
        TransferItemState::Sent => "已发送",
    }
}

/// What a control of the preferences dialog reports.
#[derive(Debug, Clone, Copy, PartialEq, Eq, Structural)]
pub enum PreferencesDialogMsg {
    NotifyAfterTransfer(bool),
    InhibitSuspend(bool),
    /// The sampling interval in milliseconds.
    SpeedSampleInterval(u32),
    ShowOfflineDevices(bool),
    /// The position chosen in the format list.
    DefaultFormat(u32),
    /// The position chosen in the compression list.
    CompressionLevel(u32),
}

/// The preference change a control reports; `None` for a list position
/// that the lists do not show.
pub fn preference_change(msg: PreferencesDialogMsg) -> (r: Option<PreferenceChange>)
    ensures
        match msg {
            PreferencesDialogMsg::NotifyAfterTransfer(v) => r == Some(PreferenceChange::NotifyAfterTransfer(v)),
            PreferencesDialogMsg::InhibitSuspend(v) => r == Some(PreferenceChange::InhibitSuspend(v)),
            PreferencesDialogMsg::SpeedSampleInterval(ms) => r matches Some(PreferenceChange::SpeedSampleInterval(d))
                && duration_nanos(d) == ms as nat * 1_000_000,
            PreferencesDialogMsg::ShowOfflineDevices(v) => r == Some(PreferenceChange::ShowOfflineDevices(v)),
            PreferencesDialogMsg::DefaultFormat(i) => match r {
                Some(PreferenceChange::DefaultFormat(f)) => format_position(f) == i,
                None => i >= 4,
                _ => false,
            },
            PreferencesDialogMsg::CompressionLevel(i) => match r {
                Some(PreferenceChange::CompressionLevel(c)) => compression_position(c) == i,
                None => i >= 3,
                _ => false,
            },
        },
{
    match msg {
        PreferencesDialogMsg::NotifyAfterTransfer(v) => Some(PreferenceChange::NotifyAfterTransfer(v)),
        PreferencesDialogMsg::InhibitSuspend(v) => Some(PreferenceChange::InhibitSuspend(v)),
        PreferencesDialogMsg::SpeedSampleInterval(ms) => {
            Some(PreferenceChange::SpeedSampleInterval(duration_from_millis(ms as u64)))
        },
        PreferencesDialogMsg::ShowOfflineDevices(v) => Some(PreferenceChange::ShowOfflineDevices(v)),
        PreferencesDialogMsg::DefaultFormat(i) => match format_at(i) {
            Some(f) => Some(PreferenceChange::DefaultFormat(f)),
            None => None,
        },
        PreferencesDialogMsg::CompressionLevel(i) => match compression_at(i) {
            Some(c) => Some(PreferenceChange::CompressionLevel(c)),
            None => None,
        },
    }
}

} // verus!
