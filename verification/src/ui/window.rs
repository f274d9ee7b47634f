//! The main window's texts and decisions: which page shows, what the footer
//! says, what the primary button says and does, and what closing the
//! window leads to.

use vstd::prelude::*;
use crate::application::{Application, ApplicationView};
use crate::domain::content::{SelectionView, has_folder, sum_sizes};
use crate::domain::device::{DeviceListView, index_of_id};
use crate::domain::preferences::PreferenceChange;
use crate::presentation::{format_size, format_size_spec, send_method_label, send_method_label_spec};
use crate::text::{decimal, push_decimal, push_str};

verus! {

/// The total size of a selection, when it holds only files whose sizes add
/// up within `u64`.
pub open spec fn selection_size(content: SelectionView) -> Option<u64> {
    if !has_folder(content.items()) && sum_sizes(content.items()) <= u64::MAX {
        Some(sum_sizes(content.items()) as u64)
    } else {
        None
    }
}

/// The name of the selected device, when one is selected.
pub open spec fn target_name(devices: DeviceListView) -> Option<Seq<char>> {
    match devices.selected {
        Some(id) => Some(devices.devices[index_of_id(devices.devices, id, 0)].name),
        None => None,
    }
}

/// "n 个项目", then " · size" when the size is known, then " → target" when
/// a target is selected.
pub open spec fn content_line(count: nat, size: Option<u64>, target: Option<Seq<char>>) -> Seq<char> {
    let counted = decimal(count) + " 个项目"@;
    let sized = match size {
        Some(b) => counted + " · "@ + format_size_spec(b as nat),
        None => counted,
    };
    match target {
        Some(t) => sized + " → "@ + t,
        None => sized,
    }
}

pub open spec fn footer_title_of(v: ApplicationView) -> Seq<char> {
    match v.transfer {
        Some(t) => if t.cancelling {
            "正在停止 "@ + decimal(t.queue.len()) + " 个文件的发送"@
        } else {
            "正在发送 "@ + decimal(t.queue.len()) + " 个文件"@
        },
        None => if v.content is Empty {
            match target_name(v.devices) {
                Some(t) => "尚未选择内容"@ + " → "@ + t,
                None => "尚未选择内容"@,
            }
        } else {
            content_line(v.content.items().len(), selection_size(v.content), target_name(v.devices))
        },
    }
}

pub open spec fn footer_subtitle_of(v: ApplicationView) -> Seq<char> {
    match v.transfer {
        Some(t) => if t.cancelling { "正在等待当前请求停止"@ } else { "关闭窗口前应确认是否停止当前传输"@ },
        None => send_method_label_spec(v.content.method()),
    }
}

/// Whether the primary button can be pressed: to start, with content and a
/// target; to stop, while the transfer is not already stopping.
pub open spec fn primary_enabled_of(v: ApplicationView) -> bool {
    match v.transfer {
        Some(t) => !t.cancelling,
        None => !(v.content is Empty) && v.devices.selected is Some,
    }
}

/// What pressing the primary button does.
#[derive(Debug, Clone, Copy, PartialEq, Eq, Structural)]
pub enum PrimaryAction {
    /// Start sending the selection to the selected device.
    Start,
    /// Stop the transfer under way.
    Stop,
    /// Nothing can be done.
    Nothing,
}

/// What a request to close the window leads to.
#[derive(Debug, Clone, Copy, PartialEq, Eq, Structural)]
pub enum CloseDecision {
    /// Close at once: nothing is being sent, or the transfer is stopping.
    Quit,
    /// Ask first: closing stops the transfer of this many files.
    Confirm { item_count: usize },
}

pub fn is_transferring(app: &Application) -> (r: bool)
    ensures
        r == app@.transfer is Some,
{
    app.transfer().is_some()
}

/// The page shown: the transfer's progress while one is under way, else
/// the composition of the next transfer.
pub fn page_name(app: &Application) -> (r: &'static str)
    ensures
        r@ == (if app@.transfer is Some { "progress"@ } else { "compose"@ }),
{
    if is_transferring(app) { "progress" } else { "compose" }
}

pub fn push_content_line(s: &mut String, count: usize, size: Option<u64>, target: Option<&str>)
    ensures
        final(s)@ == old(s)@ + content_line(
            count as nat,
            size,
            match target { Some(t) => Some(t@), None => None },
        ),
{
    push_decimal(s, count as u128);
    push_str(s, " 个项目");
    match size {
        Some(b) => {
            push_str(s, " · ");
            let text = format_size(b);
            push_str(s, text.as_str());
        },
        None => {},
    }
    match target {
        Some(t) => {
            push_str(s, " → ");
            push_str(s, t);
        },
        None => {},
    }
    assert(s@ =~= old(s)@ + content_line(
        count as nat,
        size,
        match target { Some(t) => Some(t@), None => None },
    ));
}

/// The footer's title: the transfer under way, or what is selected and for
/// whom.
pub fn footer_title(app: &Application) -> (r: String)
    ensures
        r@ == footer_title_of(app@),
{
    let mut s = String::new();
    match app.transfer() {
        Some(t) => {
            if t.is_cancelling() {
                push_str(&mut s, "正在停止 ");
                push_decimal(&mut s, t.item_count() as u128);
                push_str(&mut s, " 个文件的发送");
            } else {
                push_str(&mut s, "正在发送 ");
                push_decimal(&mut s, t.item_count() as u128);
                push_str(&mut s, " 个文件");
            }
        },
        None => {
            let content = app.content();
            let target: Option<&str> = match app.selected_device() {
                Some(d) => Some(d.name.as_str()),
                None => None,
            };
            let ghost target_v = match target { Some(t) => Some(t@), None => None };
            assert(target_v == target_name(app@.devices));
            if content.is_empty() {
                push_str(&mut s, "尚未选择内容");
                match target {
                    Some(t) => {
                        push_str(&mut s, " → ");
                        push_str(&mut s, t);
                    },
                    None => {},
                }
                assert(s@ =~= footer_title_of(app@));
            } else {
                push_content_line(&mut s, content.item_count(), content.total_size_bytes(), target);
                assert(s@ =~= footer_title_of(app@));
            }
        },
    }
    assert(s@ =~= footer_title_of(app@));
    s
}

/// The footer's subtitle: how the selection will be sent, or the state of
/// the transfer under way.
pub fn footer_subtitle(app: &Application) -> (r: &'static str)
    ensures
        r@ == footer_subtitle_of(app@),
{
    match app.transfer() {
        Some(t) => if t.is_cancelling() { "正在等待当前请求停止" } else { "关闭窗口前应确认是否停止当前传输" },
        None => send_method_label(app.content().send_method()),
    }
}

/// The primary button's label.
pub fn primary_label(app: &Application) -> (r: &'static str)
    ensures
        r@ == match app@.transfer {
            Some(t) => if t.cancelling { "正在停止…"@ } else { "停止发送"@ },
            None => "发送"@,
        },
{
    match app.transfer() {
        Some(t) => if t.is_cancelling() { "正在停止…" } else { "停止发送" },
        None => "发送",
    }
}

pub fn primary_enabled(app: &Application) -> (r: bool)
    ensures
        r == primary_enabled_of(app@),
{
    match app.transfer() {
        Some(t) => !t.is_cancelling(),
        None => !app.content().is_empty() && app.selected_device().is_some(),
    }
}

/// What pressing the primary button does: start when nothing is being sent
/// and there is content and a target, stop while a transfer is under way,
/// else nothing.
pub fn primary_action(app: &Application) -> (r: PrimaryAction)
    ensures
        r == (match app@.transfer {
            Some(_) => PrimaryAction::Stop,
            None => if !(app@.content is Empty) && app@.devices.selected is Some {
                PrimaryAction::Start
            } else {
                PrimaryAction::Nothing
            },
        }),
{
    if is_transferring(app) {
        PrimaryAction::Stop
    } else if !app.content().is_empty() && app.selected_device().is_some() {
        PrimaryAction::Start
    } else {
        PrimaryAction::Nothing
    }
}

/// What closing the window leads to: quit when nothing is being sent or the
/// transfer is already stopping; otherwise ask, naming how many files the
/// transfer holds.
pub fn close_decision(app: &Application) -> (r: CloseDecision)
    ensures
        r == (match app@.transfer {
            Some(t) => if t.cancelling {
                CloseDecision::Quit
            } else {
                CloseDecision::Confirm { item_count: t.queue.len() as usize }
            },
            None => CloseDecision::Quit,
        }),
{
    match app.transfer() {
        None => CloseDecision::Quit,
        Some(t) => if t.is_cancelling() {
            CloseDecision::Quit
        } else {
            CloseDecision::Confirm { item_count: t.item_count() }
        },
    }
}

/// The question asked before closing stops a transfer of `item_count` files.
pub fn close_confirmation(item_count: usize) -> (r: String)
    ensures
        r@ == "当前传输尚未完成。关闭窗口会停止这 "@ + decimal(item_count as nat) + " 个文件的发送。"@,
{
    let mut s = String::new();
    push_str(&mut s, "当前传输尚未完成。关闭窗口会停止这 ");
    push_decimal(&mut s, item_count as u128);
    push_str(&mut s, " 个文件的发送。");
    s
}

/// The visibility of offline devices that a preference change sets, if it
/// sets it.
pub fn offline_visibility(change: &PreferenceChange) -> (r: Option<bool>)
    ensures
        r == (match *change {
            PreferenceChange::ShowOfflineDevices(v) => Some(v),
            _ => None,
        }),
{
    match change {
        PreferenceChange::ShowOfflineDevices(v) => Some(*v),
        _ => None,
    }
}

} // verus!
