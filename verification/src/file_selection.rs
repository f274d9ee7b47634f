//! Turning what the file system reports about chosen paths into content
//! items: chosen files become file items (each path once), a chosen folder
//! becomes one folder item that counts the regular files below it.

use vstd::prelude::*;
use crate::domain::content::{ContentItem, ItemView, display_name_of, items_view, unique_paths};
use crate::path::{ItemPath, same_path};

verus! {

/// What the file system says a path is.
#[derive(Debug, Clone, Copy, PartialEq, Eq, Structural)]
pub enum EntryKind {
    /// A regular file of the given length in bytes.
    File(u64),
    Folder,
    /// Anything else, such as a device node.
    Other,
}

/// A chosen path and what reading its metadata gave.
#[derive(Debug)]
pub struct PathProbe {
    pub path: ItemPath,
    pub kind: Result<EntryKind, std::io::Error>,
}

pub struct ProbeView {
    pub path: Seq<u8>,
    pub kind: Result<EntryKind, std::io::Error>,
}

impl View for PathProbe {
    type V = ProbeView;

    open spec fn view(&self) -> ProbeView {
        ProbeView { path: self.path@, kind: self.kind }
    }
}

pub open spec fn probes_view(probes: Seq<PathProbe>) -> Seq<ProbeView> {
    probes.map_values(|p: PathProbe| p@)
}

/// One entry met while walking a folder depth first.
#[derive(Debug)]
pub enum WalkEntry {
    File,
    Folder,
    Other,
    /// A folder that could not be listed, or an entry whose type could not
    /// be read.
    Unreadable { path: ItemPath, source: std::io::Error },
}

pub enum WalkView {
    File,
    Folder,
    Other,
    Unreadable(Seq<u8>, std::io::Error),
}

impl View for WalkEntry {
    type V = WalkView;

    open spec fn view(&self) -> WalkView {
        match self {
            WalkEntry::File => WalkView::File,
            WalkEntry::Folder => WalkView::Folder,
            WalkEntry::Other => WalkView::Other,
            WalkEntry::Unreadable { path, source } => WalkView::Unreadable(path@, *source),
        }
    }
}

pub open spec fn walk_view(walk: Seq<WalkEntry>) -> Seq<WalkView> {
    walk.map_values(|e: WalkEntry| e@)
}

#[derive(Debug)]
pub enum FileSelectionError {
    FileExpected(ItemPath),
    FolderExpected(ItemPath),
    FileSystem { path: ItemPath, source: std::io::Error },
}

pub enum SelectionErrorView {
    FileExpected(Seq<u8>),
    FolderExpected(Seq<u8>),
    FileSystem(Seq<u8>, std::io::Error),
}

impl View for FileSelectionError {
    type V = SelectionErrorView;

    open spec fn view(&self) -> SelectionErrorView {
        match self {
            FileSelectionError::FileExpected(p) => SelectionErrorView::FileExpected(p@),
            FileSelectionError::FolderExpected(p) => SelectionErrorView::FolderExpected(p@),
            FileSelectionError::FileSystem { path, source } => SelectionErrorView::FileSystem(path@, *source),
        }
    }
}

pub open spec fn outcome_view(r: Result<Vec<ContentItem>, FileSelectionError>) -> Result<Seq<ItemView>, SelectionErrorView> {
    match r {
        Ok(items) => Ok(items_view(items@)),
        Err(e) => Err(e@),
    }
}

/// Whether a path names the same place as one of the earlier probes.
pub open spec fn seen_in(earlier: Seq<ProbeView>, path: Seq<u8>) -> bool {
    exists|j: int| 0 <= j < earlier.len() && same_path(#[trigger] earlier[j].path, path)
}

/// Chosen files, in order, each path once: the first path that cannot be
/// read or is not a regular file ends the choice with an error.
pub open spec fn inspected_files(probes: Seq<ProbeView>) -> Result<Seq<ItemView>, SelectionErrorView>
    decreases probes.len(),
{
    if probes.len() == 0 {
        Ok(Seq::empty())
    } else {
        let before = probes.drop_last();
        let last = probes.last();
        match inspected_files(before) {
            Err(e) => Err(e),
            Ok(items) => if seen_in(before, last.path) {
                Ok(items)
            } else {
                match last.kind {
                    Ok(EntryKind::File(len)) => Ok(items.push(ItemView::File {
                        path: last.path,
                        name: display_name_of(last.path),
                        size_bytes: len,
                    })),
                    Ok(_) => Err(SelectionErrorView::FileExpected(last.path)),
                    Err(source) => Err(SelectionErrorView::FileSystem(last.path, source)),
                }
            },
        }
    }
}

/// Choosing a path again adds nothing, however long after the first time:
/// a probe whose path names the same place as any earlier probe leaves the
/// outcome as it was.
pub proof fn law_repeated_path_adds_nothing(probes: Seq<ProbeView>, j: int, p: ProbeView)
    requires
        0 <= j < probes.len(),
        same_path(probes[j].path, p.path),
    ensures
        inspected_files(probes.push(p)) == inspected_files(probes),
{
    let longer = probes.push(p);
    assert(longer.drop_last() =~= probes);
    assert(seen_in(probes, p.path));
}

/// The chosen files hold no path twice, and each is a chosen path.
pub proof fn law_inspected_files_are_distinct(probes: Seq<ProbeView>)
    requires
        inspected_files(probes) is Ok,
    ensures
        unique_paths(inspected_files(probes)->Ok_0),
        forall|k: int| 0 <= k < inspected_files(probes)->Ok_0.len() ==> exists|j: int| 0 <= j < probes.len()
            && probes[j].path == (#[trigger] inspected_files(probes)->Ok_0[k]).path(),
    decreases probes.len(),
{
    if probes.len() > 0 {
        let before = probes.drop_last();
        let last = probes.last();
        law_inspected_files_are_distinct(before);
        let items = inspected_files(probes)->Ok_0;
        let earlier = inspected_files(before)->Ok_0;
        if !seen_in(before, last.path) {
            assert forall|i: int, k: int| 0 <= i < k < items.len() implies
                !same_path(#[trigger] items[i].path(), #[trigger] items[k].path()) by {
                if k == earlier.len() {
                    let j = choose|j: int| 0 <= j < before.len() && before[j].path == (#[trigger] earlier[i]).path();
                    assert(items[i] == earlier[i]);
                    assert(!same_path(before[j].path, last.path));
                } else {
                    assert(items[i] == earlier[i] && items[k] == earlier[k]);
                }
            }
        }
        assert forall|k: int| 0 <= k < items.len() implies exists|j: int| 0 <= j < probes.len()
            && probes[j].path == (#[trigger] items[k]).path() by {
            if k < earlier.len() {
                assert(items[k] == earlier[k]);
                let j = choose|j: int| 0 <= j < before.len() && before[j].path == (#[trigger] earlier[k]).path();
                assert(probes[j] == before[j]);
            } else {
                assert(probes[probes.len() - 1] == last);
            }
        }
    }
}

/// The number of regular files met in a walk, or the first entry that could
/// not be read.
pub open spec fn walk_count(walk: Seq<WalkView>) -> Result<nat, SelectionErrorView>
    decreases walk.len(),
{
    if walk.len() == 0 {
        Ok(0)
    } else {
        match walk_count(walk.drop_last()) {
            Err(e) => Err(e),
            Ok(n) => match walk.last() {
                WalkView::File => Ok(n + 1),
                WalkView::Unreadable(path, source) => Err(SelectionErrorView::FileSystem(path, source)),
                _ => Ok(n),
            },
        }
    }
}

/// A chosen folder as one item counting the regular files below it, or why
/// it cannot be chosen.
pub open spec fn inspected_folder(probe: ProbeView, walk: Seq<WalkView>) -> Result<Seq<ItemView>, SelectionErrorView> {
    match probe.kind {
        Err(source) => Err(SelectionErrorView::FileSystem(probe.path, source)),
        Ok(EntryKind::Folder) => match walk_count(walk) {
            Ok(n) => Ok(seq![ItemView::Folder {
                path: probe.path,
                name: display_name_of(probe.path),
                file_count: n as usize,
            }]),
            Err(e) => Err(e),
        },
        Ok(_) => Err(SelectionErrorView::FolderExpected(probe.path)),
    }
}

/// Whether an earlier probe names the same place as probe `i`.
fn seen_earlier(probes: &Vec<PathProbe>, i: usize) -> (r: bool)
    requires
        i < probes@.len(),
    ensures
        r == seen_in(probes_view(probes@).take(i as int), probes@[i as int].path@),
{
    let ghost earlier = probes_view(probes@).take(i as int);
    let mut j: usize = 0;
    while j < i
        invariant
            i < probes@.len(),
            j <= i,
            earlier == probes_view(probes@).take(i as int),
            forall|k: int| 0 <= k < j ==> !same_path(#[trigger] earlier[k].path, probes@[i as int].path@),
        decreases i - j,
    {
        if probes[j].path.same_as(&probes[i].path) {
            assert(same_path(earlier[j as int].path, probes@[i as int].path@));
            return true;
        }
        j = j + 1;
    }
    false
}

/// Chosen files as file items, each path once, in the order chosen. A path
/// whose metadata could not be read gives `FileSystem`; one that is not a
/// regular file gives `FileExpected`; the first such path decides.
pub fn inspect_files(probes: Vec<PathProbe>) -> (r: Result<Vec<ContentItem>, FileSelectionError>)
    ensures
        outcome_view(r) == inspected_files(probes_view(probes@)),
{
    let ghost pv = probes_view(probes@);
    let mut items: Vec<ContentItem> = Vec::new();
    let mut i: usize = 0;
    assert(pv.take(0) =~= Seq::<ProbeView>::empty());
    assert(items_view(items@) =~= Seq::<ItemView>::empty());
    while i < probes.len()
        invariant
            pv == probes_view(probes@),
            i <= probes@.len(),
            inspected_files(pv.take(i as int)) == Ok::<Seq<ItemView>, SelectionErrorView>(items_view(items@)),
        decreases probes@.len() - i,
    {
        let ghost prefix = pv.take(i + 1);
        assert(prefix.drop_last() =~= pv.take(i as int));
        assert(prefix.last() == probes@[i as int]@);
        if seen_earlier(&probes, i) {
            i = i + 1;
        } else {
            match &probes[i].kind {
                Ok(EntryKind::File(len)) => {
                    let len: u64 = *len;
                    let item = ContentItem::file(probes[i].path.clone(), len);
                    let ghost before = items@;
                    items.push(item);
                    assert(items_view(items@) =~= items_view(before).push(item@));
                    i = i + 1;
                },
                Ok(_) => {
                    let path = probes[i].path.clone();
                    assert(inspected_files(prefix) == Err::<Seq<ItemView>, SelectionErrorView>(
                        SelectionErrorView::FileExpected(path@)));
                    proof { lemma_failure_persists(pv, i + 1); }
                    return Err(FileSelectionError::FileExpected(path));
                },
                Err(_) => {
                    let mut probes = probes;
                    let probe = probes.remove(i);
                    match probe.kind {
                        Err(source) => {
                            assert(inspected_files(prefix) == Err::<Seq<ItemView>, SelectionErrorView>(
                                SelectionErrorView::FileSystem(probe.path@, source)));
                            proof { lemma_failure_persists(pv, i + 1); }
                            return Err(FileSelectionError::FileSystem { path: probe.path, source });
                        },
                        Ok(_) => return vstd::pervasive::unreached(),
                    }
                },
            }
        }
    }
    assert(pv.take(pv.len() as int) =~= pv);
    Ok(items)
}

/// Once a prefix of the probes fails, the whole list fails the same way.
proof fn lemma_failure_persists(pv: Seq<ProbeView>, k: int)
    requires
        0 <= k <= pv.len(),
        inspected_files(pv.take(k)) is Err,
    ensures
        inspected_files(pv) == inspected_files(pv.take(k)),
    decreases pv.len() - k,
{
    if k < pv.len() {
        assert(pv.take(k + 1).drop_last() =~= pv.take(k));
        lemma_failure_persists(pv, k + 1);
    } else {
        assert(pv.take(k) =~= pv);
    }
}

/// A chosen folder as one folder item that counts the regular files met in
/// `walk`, the depth-first walk below it. Unreadable metadata of the folder,
/// or the first unreadable entry of the walk, gives `FileSystem`; a path
/// that is not a folder gives `FolderExpected`.
pub fn inspect_folder(probe: PathProbe, walk: Vec<WalkEntry>) -> (r: Result<Vec<ContentItem>, FileSelectionError>)
    ensures
        outcome_view(r) == inspected_folder(probe@, walk_view(walk@)),
{
    match probe.kind {
        Err(source) => return Err(FileSelectionError::FileSystem { path: probe.path, source }),
        Ok(EntryKind::Folder) => {},
        Ok(_) => return Err(FileSelectionError::FolderExpected(probe.path)),
    }
    let ghost wv = walk_view(walk@);
    let mut count: usize = 0;
    let mut i: usize = 0;
    assert(wv.take(0) =~= Seq::<WalkView>::empty());
    while i < walk.len()
        invariant
            wv == walk_view(walk@),
            probe@.kind == Ok::<EntryKind, std::io::Error>(EntryKind::Folder),
            i <= walk@.len(),
            walk_count(wv.take(i as int)) == Ok::<nat, SelectionErrorView>(count as nat),
            count <= i,
        decreases walk@.len() - i,
    {
        let ghost prefix = wv.take(i + 1);
        assert(prefix.drop_last() =~= wv.take(i as int));
        assert(prefix.last() == walk@[i as int]@);
        match &walk[i] {
            WalkEntry::File => {
                count = count + 1;
            },
            WalkEntry::Unreadable { .. } => {
                let mut walk = walk;
                let entry = walk.remove(i);
                match entry {
                    WalkEntry::Unreadable { path, source } => {
                        assert(walk_count(prefix) == Err::<nat, SelectionErrorView>(
                            SelectionErrorView::FileSystem(path@, source)));
                        proof { lemma_walk_failure_persists(wv, i + 1); }
                        return Err(FileSelectionError::FileSystem { path, source });
                    },
                    _ => return vstd::pervasive::unreached(),
                }
            },
            _ => {},
        }
        i = i + 1;
    }
    assert(wv.take(wv.len() as int) =~= wv);
    let item = ContentItem::folder(probe.path, count);
    let items = vec![item];
    assert(items_view(items@) =~= seq![item@]);
    Ok(items)
}

/// Once a prefix of a walk fails, the whole walk fails the same way.
proof fn lemma_walk_failure_persists(wv: Seq<WalkView>, k: int)
    requires
        0 <= k <= wv.len(),
        walk_count(wv.take(k)) is Err,
    ensures
        walk_count(wv) == walk_count(wv.take(k)),
    decreases wv.len() - k,
{
    if k < wv.len() {
        assert(wv.take(k + 1).drop_last() =~= wv.take(k));
        lemma_walk_failure_persists(wv, k + 1);
    } else {
        assert(wv.take(k) =~= wv);
    }
}

} // verus!
