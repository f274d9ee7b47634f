//! The state of the application: the known devices, the selected content,
//! and the transfer under way.

use vstd::prelude::*;
use std::time::Duration;
use crate::archive::{ArchiveRequest, RequestView};
use crate::domain::content::{
    ArchiveDefaults, ArchiveFormat, ArchiveOption, CompressionLevel, ContentItem, ContentSelection,
    ItemView, SelectionView, SendMethod, SettingsView, archive_name_of, clone_items, from_parts_spec,
    items_view, merge, sum_sizes, without_path,
};
use crate::domain::content_laws::{
    law_add_keeps_well_formed, law_remove_keeps_well_formed, law_send_method_keeps_well_formed,
};
use crate::domain::device::{Device, DeviceList, DeviceListView, DeviceView, index_of_id};
use crate::domain::transfer::{SnapshotView, TransferSnapshot, finished, initial_queue, sampled};
use crate::outside::duration_nanos;
use crate::path::ItemPath;
use crate::transfer::{CancellationToken, TransferFile, TransferFileView, TransferPayload, TransferTask, files_view};

verus! {

struct ActiveTransfer {
    snapshot: TransferSnapshot,
    cancellation: CancellationToken,
}

pub struct ApplicationView {
    pub devices: DeviceListView,
    pub content: SelectionView,
    pub transfer: Option<SnapshotView>,
    pub next_transfer_id: u64,
}

pub struct Application {
    devices: DeviceList,
    content: ContentSelection,
    transfer: Option<ActiveTransfer>,
    next_transfer_id: u64,
}

impl View for Application {
    type V = ApplicationView;

    closed spec fn view(&self) -> ApplicationView {
        ApplicationView {
            devices: self.devices@,
            content: self.content@,
            transfer: match &self.transfer {
                Some(t) => Some(t.snapshot@),
                None => None,
            },
            next_transfer_id: self.next_transfer_id,
        }
    }
}

/// The file sent for a selected file item.
pub open spec fn file_of(item: ItemView) -> (Seq<u8>, Seq<char>, u64) {
    match item {
        ItemView::File { path, name, size_bytes } => (path, name, size_bytes),
        ItemView::Folder { path, name, .. } => (path, name, 0),
    }
}

/// What a selected file is sent as.
pub open spec fn file_to_send(item: ItemView) -> TransferFileView {
    TransferFileView { path: item.path(), name: item.name(), size: file_of(item).2 }
}

/// The names shown in the queue of a transfer of `content`: the files sent
/// one by one, or the one archive.
pub open spec fn queue_names(content: SelectionView) -> Seq<Seq<char>> {
    match content {
        SelectionView::Archive { settings, .. } => seq![settings.archive_name],
        _ => content.items().map_values(|i: ItemView| i.name()),
    }
}

/// The total bytes of a transfer of `content`: known for files sent one by
/// one, unknown for an archive.
/// Whether transfer `id` is the one under way.
pub open spec fn is_active(app: ApplicationView, id: u64) -> bool {
    app.transfer is Some && app.transfer->0.id == id
}

pub open spec fn transfer_total(content: SelectionView) -> Option<u64> {
    match content {
        SelectionView::Archive { .. } => None,
        _ => Some(sum_sizes(content.items()) as u64),
    }
}

impl Application {
    /// The token that stops the transfer under way, when there is one.
    pub closed spec fn transfer_token(&self) -> Option<CancellationToken> {
        match &self.transfer {
            Some(t) => Some(t.cancellation),
            None => None,
        }
    }

    /// The selection is always well formed.
    #[verifier::type_invariant]
    closed spec fn inv(self) -> bool {
        self.content@.well_formed()
    }

    pub fn new() -> (r: Self)
        ensures
            r@ == (ApplicationView {
                devices: DeviceListView { devices: Seq::empty(), selected: None },
                content: SelectionView::Empty,
                transfer: None,
                next_transfer_id: 1,
            }),
            r@.content.well_formed(),
    {
        Application {
            devices: DeviceList::default(),
            content: ContentSelection::default(),
            transfer: None,
            next_transfer_id: 1,
        }
    }

    /// The devices as shown: all, or only the online ones.
    pub fn visible_devices(&self, show_offline: bool) -> (r: DeviceList)
        ensures
            show_offline ==> r@ == self@.devices,
            !show_offline ==> r@ == (DeviceListView {
                devices: crate::domain::device::online_only(self@.devices.devices),
                selected: self@.devices.selected,
            }),
    {
        self.devices.with_offline_visible(show_offline)
    }

    pub fn selected_device(&self) -> (r: Option<&Device>)
        ensures
            match self@.devices.selected {
                Some(id) => r.is_some() && r.unwrap()@ == self@.devices.devices[index_of_id(self@.devices.devices, id, 0)]
                    && r.unwrap()@.online() && r.unwrap()@.id == id,
                None => r.is_none(),
            },
    {
        self.devices.selected()
    }

    pub fn replace_devices(&mut self, devices: DeviceList)
        ensures
            final(self).transfer_token() == old(self).transfer_token(),
            final(self)@ == (ApplicationView { devices: devices@, ..old(self)@ }),
    {
        proof { use_type_invariant(&*self); }
        self.devices = devices;
    }

    pub fn select_device(&mut self, selected_id: &str)
        requires
            exists|i: int| 0 <= i < old(self)@.devices.devices.len()
                && (#[trigger] old(self)@.devices.devices[i]).id == selected_id@
                && old(self)@.devices.devices[i].online(),
        ensures
            final(self).transfer_token() == old(self).transfer_token(),
            final(self)@ == (ApplicationView {
                devices: DeviceListView { selected: Some(selected_id@), ..old(self)@.devices },
                ..old(self)@
            }),
    {
        proof { use_type_invariant(&*self); }
        let mut devices = DeviceList::default();
        std::mem::swap(&mut devices, &mut self.devices);
        devices.select(selected_id);
        self.devices = devices;
    }

    pub fn content(&self) -> (r: &ContentSelection)
        ensures
            r@ == self@.content,
    {
        &self.content
    }

    /// Adds items to the selection, archiving new selections with `defaults`.
    pub fn add_content(&mut self, items: Vec<ContentItem>, defaults: ArchiveDefaults)
        ensures
            final(self).transfer_token() == old(self).transfer_token(),
            items@.len() == 0 ==> final(self)@ == old(self)@,
            items@.len() > 0 ==> final(self)@ == (ApplicationView {
                content: from_parts_spec(
                    merge(old(self)@.content.items(), items_view(items@)),
                    old(self)@.content.method(),
                    old(self)@.content.settings(),
                    defaults,
                ),
                ..old(self)@
            }),
            final(self)@.content.well_formed(),
    {
        proof {
            use_type_invariant(&*self);
            law_add_keeps_well_formed(self@.content, items_view(items@), defaults);
        }
        let mut content = ContentSelection::Empty;
        std::mem::swap(&mut content, &mut self.content);
        content.add(items, defaults);
        self.content = content;
    }

    pub fn set_send_method(&mut self, method: SendMethod, defaults: ArchiveDefaults)
        ensures
            final(self).transfer_token() == old(self).transfer_token(),
            final(self)@ == (ApplicationView {
                content: from_parts_spec(old(self)@.content.items(), method, old(self)@.content.settings(), defaults),
                ..old(self)@
            }),
            final(self)@.content.well_formed(),
    {
        proof {
            use_type_invariant(&*self);
            law_send_method_keeps_well_formed(self@.content, method, defaults);
        }
        let mut content = ContentSelection::Empty;
        std::mem::swap(&mut content, &mut self.content);
        content.set_send_method(method, defaults);
        self.content = content;
    }

    pub fn set_archive_format(&mut self, format: ArchiveFormat)
        requires
            old(self)@.content is Archive,
        ensures
            final(self).transfer_token() == old(self).transfer_token(),
            final(self)@ == (ApplicationView {
                content: SelectionView::Archive {
                    items: old(self)@.content.items(),
                    settings: SettingsView {
                        format,
                        archive_name: archive_name_of(old(self)@.content.items(), format),
                        ..old(self)@.content.settings().unwrap()
                    },
                },
                ..old(self)@
            }),
    {
        proof { use_type_invariant(&*self); }
        let mut content = ContentSelection::Empty;
        std::mem::swap(&mut content, &mut self.content);
        content.set_archive_format(format);
        self.content = content;
    }

    pub fn set_archive_name(&mut self, name: String)
        requires
            old(self)@.content is Archive,
        ensures
            final(self).transfer_token() == old(self).transfer_token(),
            final(self)@ == (ApplicationView {
                content: SelectionView::Archive {
                    items: old(self)@.content.items(),
                    settings: SettingsView { archive_name: name@, ..old(self)@.content.settings().unwrap() },
                },
                ..old(self)@
            }),
    {
        proof { use_type_invariant(&*self); }
        let mut content = ContentSelection::Empty;
        std::mem::swap(&mut content, &mut self.content);
        content.set_archive_name(name);
        self.content = content;
    }

    pub fn set_archive_compression(&mut self, compression: CompressionLevel)
        requires
            old(self)@.content is Archive,
        ensures
            final(self).transfer_token() == old(self).transfer_token(),
            final(self)@ == (ApplicationView {
                content: SelectionView::Archive {
                    items: old(self)@.content.items(),
                    settings: SettingsView { compression, ..old(self)@.content.settings().unwrap() },
                },
                ..old(self)@
            }),
    {
        proof { use_type_invariant(&*self); }
        let mut content = ContentSelection::Empty;
        std::mem::swap(&mut content, &mut self.content);
        content.set_archive_compression(compression);
        self.content = content;
    }

    pub fn set_archive_option(&mut self, option: ArchiveOption, active: bool)
        requires
            old(self)@.content is Archive,
        ensures
            final(self).transfer_token() == old(self).transfer_token(),
            final(self)@.devices == old(self)@.devices,
            final(self)@.transfer == old(self)@.transfer,
            final(self)@.next_transfer_id == old(self)@.next_transfer_id,
            final(self)@.content.items() == old(self)@.content.items(),
            final(self)@.content is Archive,
            final(self)@.content.settings().unwrap() == match option {
                ArchiveOption::IncludeSelectedFolder => SettingsView {
                    include_selected_folder: active,
                    ..old(self)@.content.settings().unwrap()
                },
                ArchiveOption::IncludeHiddenFiles => SettingsView {
                    include_hidden_files: active,
                    ..old(self)@.content.settings().unwrap()
                },
                ArchiveOption::FollowSymlinks => SettingsView {
                    follow_symlinks: active,
                    ..old(self)@.content.settings().unwrap()
                },
            },
    {
        proof { use_type_invariant(&*self); }
        let mut content = ContentSelection::Empty;
        std::mem::swap(&mut content, &mut self.content);
        content.set_archive_option(option, active);
        self.content = content;
    }

    pub fn remove_content(&mut self, path: &ItemPath, defaults: ArchiveDefaults)
        ensures
            final(self).transfer_token() == old(self).transfer_token(),
            final(self)@ == (ApplicationView {
                content: from_parts_spec(
                    without_path(old(self)@.content.items(), path@),
                    old(self)@.content.method(),
                    old(self)@.content.settings(),
                    defaults,
                ),
                ..old(self)@
            }),
            final(self)@.content.well_formed(),
    {
        proof {
            use_type_invariant(&*self);
            law_remove_keeps_well_formed(self@.content, path@, defaults);
        }
        let mut content = ContentSelection::Empty;
        std::mem::swap(&mut content, &mut self.content);
        content.remove(path, defaults);
        self.content = content;
    }

    pub fn transfer(&self) -> (r: Option<&TransferSnapshot>)
        ensures
            match r {
                Some(s) => self@.transfer == Some(s@),
                None => self@.transfer is None,
            },
    {
        match &self.transfer {
            Some(t) => Some(&t.snapshot),
            None => None,
        }
    }

    /// The identifier the next transfer will get.
    pub fn next_transfer_id(&self) -> (r: u64)
        ensures
            r == self@.next_transfer_id,
    {
        self.next_transfer_id
    }

    /// Starts sending the selection to the selected device with the next
    /// transfer identifier: files one by one, or one archive.
    pub fn start_transfer(&mut self, sample_interval: Duration) -> (task: TransferTask)
        requires
            old(self)@.transfer is None,
            old(self)@.devices.selected is Some,
            old(self)@.next_transfer_id < u64::MAX,
            !(old(self)@.content is Empty),
            old(self)@.content is Separate ==> sum_sizes(old(self)@.content.items()) <= u64::MAX,
            duration_nanos(sample_interval) > 0,
        ensures
            final(self).transfer_token() == Some(task.task_token()),
            ({
                let before = old(self)@;
                let id = before.next_transfer_id;
                let target = before.devices.devices[index_of_id(before.devices.devices, before.devices.selected->0, 0)];
                &&& final(self)@ == (ApplicationView {
                    transfer: Some(SnapshotView {
                        id,
                        target,
                        current: 0,
                        transferred: 0,
                        total: transfer_total(before.content),
                        bytes_per_second: 0,
                        queue: initial_queue(queue_names(before.content)),
                        cancelling: false,
                    }),
                    next_transfer_id: (id + 1) as u64,
                    ..before
                })
                &&& task.task_id() == id
                &&& task.task_target() == target.id
                &&& task.task_interval() == sample_interval
                &&& match task.task_payload() {
                    TransferPayload::Separate(files) => before.content is Separate
                        && files_view(files@) == before.content.items().map_values(|i: ItemView| file_to_send(i)),
                    TransferPayload::Archive(request) => before.content is Archive
                        && request@ == (RequestView { items: before.content.items(), settings: before.content.settings()->0 }),
                }
            }),
    {
        proof { use_type_invariant(&*self); }
        let ghost before = self@;
        let target = self.devices.selected().unwrap().clone();
        let id = self.next_transfer_id;
        self.next_transfer_id = id + 1;
        let (task, names, total_bytes) = match &self.content {
            ContentSelection::Separate(items) => {
                let ghost v = items_view(items@);
                let mut files: Vec<TransferFile> = Vec::new();
                let mut names: Vec<String> = Vec::new();
                let mut total: u64 = 0;
                let mut i: usize = 0;
                assert(v.take(0) =~= Seq::<ItemView>::empty());
                while i < items.len()
                    invariant
                        v == items_view(items@),
                        v == before.content.items(),
                        before.content.well_formed(),
                        before.content is Separate,
                        sum_sizes(v) <= u64::MAX,
                        i <= items@.len(),
                        files_view(files@) == v.take(i as int).map_values(|x: ItemView| file_to_send(x)),
                        names@.map_values(|s: String| s@) == v.take(i as int).map_values(|x: ItemView| x.name()),
                        total as nat == sum_sizes(v.take(i as int)),
                    decreases items@.len() - i,
                {
                    assert(v[i as int] == items@[i as int]@);
                    assert(!v[i as int].is_folder());
                    let size = match items[i].size_bytes() {
                        Some(s) => s,
                        None => 0,
                    };
                    proof {
                        assert(v.take(i + 1).drop_last() =~= v.take(i as int));
                        crate::domain::content_laws::law_sum_prefix(v, i + 1);
                    }
                    let file = TransferFile { path: items[i].path().clone(), name: items[i].name().to_owned(), size };
                    let name = items[i].name().to_owned();
                    let ghost fb = files@;
                    let ghost nb = names@;
                    files.push(file);
                    names.push(name);
                    total = total + size;
                    proof {
                        assert(files_view(files@) =~= files_view(fb).push(file_to_send(v[i as int])));
                        assert(v.take(i + 1).map_values(|x: ItemView| file_to_send(x)) =~= v.take(i as int).map_values(|x: ItemView| file_to_send(x)).push(file_to_send(v[i as int])));
                        assert(names@.map_values(|s: String| s@) =~= nb.map_values(|s: String| s@).push(v[i as int].name()));
                        assert(v.take(i + 1).map_values(|x: ItemView| x.name()) =~= v.take(i as int).map_values(|x: ItemView| x.name()).push(v[i as int].name()));
                    }
                    i = i + 1;
                }
                assert(v.take(v.len() as int) =~= v);
                let task = TransferTask::separate(id, target.id.clone(), files, sample_interval);
                (task, names, Some(total))
            },
            ContentSelection::Archive { items, settings } => {
                let request = ArchiveRequest::new(clone_items(items.as_slice()), settings.clone());
                let names = vec![request.name().to_owned()];
                assert(names@.map_values(|s: String| s@) =~= queue_names(before.content));
                let task = TransferTask::archive(id, target.id.clone(), request, sample_interval);
                (task, names, None)
            },
            ContentSelection::Empty => vstd::pervasive::unreached(),
        };
        let snapshot = TransferSnapshot::new(id, target, names, total_bytes);
        let cancellation = task.cancellation_token();
        self.transfer = Some(ActiveTransfer { snapshot, cancellation });
        task
    }

    /// Stops the transfer under way; it stays shown as stopping until it ends.
    pub fn cancel_transfer(&mut self)
        requires
            old(self)@.transfer is Some,
        ensures
            final(self).transfer_token() == old(self).transfer_token(),
            final(self)@ == (ApplicationView {
                transfer: Some(SnapshotView { cancelling: true, ..old(self)@.transfer->0 }),
                ..old(self)@
            }),
    {
        proof { use_type_invariant(&*self); }
        let mut transfer: Option<ActiveTransfer> = None;
        std::mem::swap(&mut transfer, &mut self.transfer);
        if let Some(mut t) = transfer {
            t.cancellation.cancel();
            t.snapshot.request_cancel();
            self.transfer = Some(t);
        }
    }

    /// Records a progress sample of transfer `id`; samples of other
    /// transfers are ignored.
    pub fn record_transfer_sample(&mut self, id: u64, item_index: usize, transferred_bytes: u64, bytes_per_second: u64) -> (r: bool)
        requires
            is_active(old(self)@, id) ==> ({
                let t = old(self)@.transfer->0;
                &&& item_index == t.current
                &&& transferred_bytes >= t.transferred
                &&& match t.total {
                    Some(total) => transferred_bytes <= total,
                    None => true,
                }
            }),
        ensures
            final(self).transfer_token() == old(self).transfer_token(),
            r == is_active(old(self)@, id),
            r ==> final(self)@ == (ApplicationView {
                transfer: Some(sampled(old(self)@.transfer->0, transferred_bytes, bytes_per_second)),
                ..old(self)@
            }),
            !r ==> final(self)@ == old(self)@,
    {
        proof { use_type_invariant(&*self); }
        let mut transfer: Option<ActiveTransfer> = None;
        std::mem::swap(&mut transfer, &mut self.transfer);
        match transfer {
            Some(mut t) => {
                let active = t.snapshot.id() == id;
                if active {
                    t.snapshot.record_sample(item_index, transferred_bytes, bytes_per_second);
                }
                self.transfer = Some(t);
                active
            },
            None => false,
        }
    }

    /// Marks the current item of transfer `id` sent; other transfers are
    /// ignored.
    pub fn finish_transfer_item(&mut self, id: u64, item_index: usize) -> (r: bool)
        requires
            is_active(old(self)@, id) ==> item_index == old(self)@.transfer->0.current,
        ensures
            final(self).transfer_token() == old(self).transfer_token(),
            r == is_active(old(self)@, id),
            r ==> final(self)@ == (ApplicationView {
                transfer: Some(finished(old(self)@.transfer->0)),
                ..old(self)@
            }),
            !r ==> final(self)@ == old(self)@,
    {
        proof { use_type_invariant(&*self); }
        let mut transfer: Option<ActiveTransfer> = None;
        std::mem::swap(&mut transfer, &mut self.transfer);
        match transfer {
            Some(mut t) => {
                let active = t.snapshot.id() == id;
                if active {
                    t.snapshot.finish_item(item_index);
                }
                self.transfer = Some(t);
                active
            },
            None => false,
        }
    }

    /// Ends transfer `id`; other transfers are ignored.
    pub fn end_transfer(&mut self, id: u64) -> (r: bool)
        ensures
            r ==> final(self).transfer_token() is None,
            !r ==> final(self).transfer_token() == old(self).transfer_token(),
            r == is_active(old(self)@, id),
            r ==> final(self)@ == (ApplicationView { transfer: None, ..old(self)@ }),
            !r ==> final(self)@ == old(self)@,
    {
        proof { use_type_invariant(&*self); }
        match &self.transfer {
            Some(t) => {
                if t.snapshot.id() != id {
                    return false;
                }
            },
            None => return false,
        }
        self.transfer = None;
        true
    }
}

} // verus!
