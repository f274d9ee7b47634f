//! What an archive of the selection holds: the selected items, each entry's
//! kind, and the path it gets inside the archive.

use vstd::prelude::*;
use crate::domain::content::{ArchiveSettings, ContentItem, ItemView, SettingsView, clone_items, items_view};
use crate::outside::{io_error_is_broken_pipe, is_broken_pipe_error, zip_error_io, zip_io_source};
use crate::path::{ItemPath, joined, lossy_text, same_path, utf8_lossy};
use vstd::utf8::{decode_utf8, encode_utf8, valid_utf8};

verus! {

/// A request to pack selected items into one archive.
#[derive(Debug)]
pub struct ArchiveRequest {
    items: Vec<ContentItem>,
    settings: ArchiveSettings,
}

pub struct RequestView {
    pub items: Seq<ItemView>,
    pub settings: SettingsView,
}

impl View for ArchiveRequest {
    type V = RequestView;

    closed spec fn view(&self) -> RequestView {
        RequestView { items: items_view(self.items@), settings: self.settings@ }
    }
}

impl Clone for ArchiveRequest {
    fn clone(&self) -> (r: Self)
        ensures
            r@ == self@,
    {
        proof { use_type_invariant(self); }
        let items = clone_items(self.items.as_slice());
        assert(items@.len() == items_view(items@).len() && self.items@.len() == items_view(self.items@).len());
        ArchiveRequest { items, settings: self.settings.clone() }
    }
}

impl ArchiveRequest {
    #[verifier::type_invariant]
    closed spec fn inv(self) -> bool {
        self.items@.len() > 0
    }

    pub fn new(items: Vec<ContentItem>, settings: ArchiveSettings) -> (r: Self)
        requires
            items@.len() > 0,
        ensures
            r@ == (RequestView { items: items_view(items@), settings: settings@ }),
    {
        ArchiveRequest { items, settings }
    }

    /// The name of the archive.
    pub fn name(&self) -> (r: &str)
        ensures
            r@ == self@.settings.archive_name,
    {
        self.settings.archive_name.as_str()
    }

    pub fn items(&self) -> (r: &[ContentItem])
        ensures
            items_view(r@) == self@.items,
            r@.len() > 0,
    {
        proof { use_type_invariant(self); }
        self.items.as_slice()
    }

    pub fn settings(&self) -> (r: &ArchiveSettings)
        ensures
            r@ == self@.settings,
    {
        &self.settings
    }
}

/// Why an archive could not be made.
#[derive(Debug)]
#[allow(inconsistent_fields)]
pub enum ArchiveError {
    Pipe(std::io::Error),
    WorkerStart(std::io::Error),
    WorkerPanicked,
    FileExpected(ItemPath),
    FolderExpected(ItemPath),
    FileSystem { path: ItemPath, source: std::io::Error },
    Walk { path: ItemPath, source: walkdir::Error },
    DuplicatePath(ItemPath),
    UnsupportedFileType(ItemPath),
    Output(std::io::Error),
    Zip(zip::result::ZipError),
}

/// Whether an archive failure is a write into a pipe whose reader has gone:
/// an I/O failure of kind `BrokenPipe`, also one inside a ZIP failure.
pub open spec fn broken_pipe(e: ArchiveError) -> bool {
    match e {
        ArchiveError::FileSystem { source, .. } => is_broken_pipe_error(source),
        ArchiveError::Output(source) => is_broken_pipe_error(source),
        ArchiveError::Zip(z) => match zip_io_source(z) {
            Some(source) => is_broken_pipe_error(source),
            None => false,
        },
        _ => false,
    }
}

impl ArchiveError {
    pub fn is_broken_pipe(&self) -> (r: bool)
        ensures
            r == broken_pipe(*self),
    {
        match self {
            ArchiveError::FileSystem { source, .. } => io_error_is_broken_pipe(source),
            ArchiveError::Output(source) => io_error_is_broken_pipe(source),
            ArchiveError::Zip(e) => match zip_error_io(e) {
                Some(source) => io_error_is_broken_pipe(source),
                None => false,
            },
            _ => false,
        }
    }
}

/// The kind of an archive entry.
#[derive(Debug, Clone, Copy, PartialEq, Eq, Structural)]
pub enum ArchiveEntryKind {
    File,
    Directory,
    Symlink,
}

/// The kind of an entry from its file type; a file type that is neither a
/// regular file, a directory nor a symbolic link cannot be archived.
pub fn entry_kind(path: &ItemPath, is_file: bool, is_dir: bool, is_symlink: bool) -> (r: Result<ArchiveEntryKind, ArchiveError>)
    ensures
        is_file ==> r == Ok::<ArchiveEntryKind, ArchiveError>(ArchiveEntryKind::File),
        !is_file && is_dir ==> r == Ok::<ArchiveEntryKind, ArchiveError>(ArchiveEntryKind::Directory),
        !is_file && !is_dir && is_symlink ==> r == Ok::<ArchiveEntryKind, ArchiveError>(ArchiveEntryKind::Symlink),
        !is_file && !is_dir && !is_symlink ==> (r matches Err(ArchiveError::UnsupportedFileType(p)) && p@ == path@),
{
    if is_file {
        Ok(ArchiveEntryKind::File)
    } else if is_dir {
        Ok(ArchiveEntryKind::Directory)
    } else if is_symlink {
        Ok(ArchiveEntryKind::Symlink)
    } else {
        Err(ArchiveError::UnsupportedFileType(path.clone()))
    }
}

/// One entry of an archive: where its contents come from, its path in the
/// archive, and its kind.
#[derive(Debug)]
pub struct ArchiveEntry {
    pub source: ItemPath,
    pub archive_path: ItemPath,
    pub kind: ArchiveEntryKind,
}

/// The entry for a selected file, which must be a file or a symbolic link;
/// it is archived under its name.
pub fn selected_file_entry(path: &ItemPath, name: &str, kind: ArchiveEntryKind) -> (r: Result<ArchiveEntry, ArchiveError>)
    ensures
        (kind == ArchiveEntryKind::File || kind == ArchiveEntryKind::Symlink) ==> (r matches Ok(e)
            && e.source@ == path@ && e.archive_path@ == encode_utf8(name@) && e.kind == kind),
        kind == ArchiveEntryKind::Directory ==> (r matches Err(ArchiveError::FileExpected(p)) && p@ == path@),
{
    match kind {
        ArchiveEntryKind::Directory => Err(ArchiveError::FileExpected(path.clone())),
        _ => Ok(ArchiveEntry { source: path.clone(), archive_path: ItemPath::from_str(name), kind }),
    }
}

/// A selected folder must still be a directory.
pub fn check_selected_folder(path: &ItemPath, is_dir: bool) -> (r: Result<(), ArchiveError>)
    ensures
        is_dir ==> r is Ok,
        !is_dir ==> (r matches Err(ArchiveError::FolderExpected(p)) && p@ == path@),
{
    if is_dir { Ok(()) } else { Err(ArchiveError::FolderExpected(path.clone())) }
}

/// The paths given out inside one archive so far; no two name the same
/// place.
#[derive(Debug)]
pub struct ArchivePaths {
    taken: Vec<ItemPath>,
}

impl View for ArchivePaths {
    type V = Seq<Seq<u8>>;

    closed spec fn view(&self) -> Seq<Seq<u8>> {
        self.taken@.map_values(|p: ItemPath| p@)
    }
}

/// Whether a path names the same place as one already taken.
pub open spec fn taken_path(taken: Seq<Seq<u8>>, path: Seq<u8>) -> bool {
    exists|j: int| 0 <= j < taken.len() && same_path(#[trigger] taken[j], path)
}

impl ArchivePaths {
    pub fn new() -> (r: Self)
        ensures
            r@ == Seq::<Seq<u8>>::empty(),
    {
        let r = ArchivePaths { taken: Vec::new() };
        assert(r@ =~= Seq::<Seq<u8>>::empty());
        r
    }

    /// Takes `path` for an entry; a path already taken is a duplicate.
    pub fn claim(&mut self, path: &ItemPath) -> (r: Result<(), ArchiveError>)
        ensures
            taken_path(old(self)@, path@) ==> (r matches Err(ArchiveError::DuplicatePath(p)) && p@ == path@
                && final(self)@ == old(self)@),
            !taken_path(old(self)@, path@) ==> (r is Ok && final(self)@ == old(self)@.push(path@)),
    {
        let ghost v = self@;
        let mut j: usize = 0;
        while j < self.taken.len()
            invariant
                v == self@,
                v == self.taken@.map_values(|p: ItemPath| p@),
                j <= self.taken@.len(),
                forall|k: int| 0 <= k < j ==> !same_path(#[trigger] v[k], path@),
            decreases self.taken@.len() - j,
        {
            assert(v[j as int] == self.taken@[j as int]@);
            if self.taken[j].same_as(path) {
                return Err(ArchiveError::DuplicatePath(path.clone()));
            }
            j = j + 1;
        }
        let p = path.clone();
        self.taken.push(p);
        assert(self@ =~= v.push(path@));
        Ok(())
    }
}

/// A path can be taken once in an archive: taking it again, under any
/// spelling of the same place, is a duplicate.
pub proof fn law_paths_taken_once(taken: Seq<Seq<u8>>, path: Seq<u8>, again: Seq<u8>)
    requires
        same_path(path, again),
    ensures
        taken_path(taken.push(path), again),
{
    assert(same_path(taken.push(path)[taken.len() as int], again));
}

/// How the archive's producer ended, as far as its consumer has seen.
#[derive(Debug)]
pub enum ProducerOutcome {
    Running,
    Finished,
    Failed(ArchiveError),
}

/// The result of the producer once its worker has been joined: `joined`
/// says whether the worker returned. A worker that did not return, or
/// returned without recording an end, panicked.
pub fn completion(joined: bool, outcome: ProducerOutcome) -> (r: Result<(), ArchiveError>)
    ensures
        !joined ==> r matches Err(ArchiveError::WorkerPanicked),
        joined ==> match outcome {
            ProducerOutcome::Finished => r is Ok,
            ProducerOutcome::Failed(e) => r == Err::<(), ArchiveError>(e),
            ProducerOutcome::Running => r matches Err(ArchiveError::WorkerPanicked),
        },
{
    if !joined {
        return Err(ArchiveError::WorkerPanicked);
    }
    match outcome {
        ProducerOutcome::Finished => Ok(()),
        ProducerOutcome::Failed(e) => Err(e),
        ProducerOutcome::Running => Err(ArchiveError::WorkerPanicked),
    }
}

/// Whether a name is hidden: its text starts with a dot.
pub open spec fn hidden_name(name: Seq<u8>) -> bool {
    utf8_lossy(name).len() > 0 && utf8_lossy(name)[0] == '.'
}

/// The text of a name that is valid UTF-8 begins with a dot exactly when
/// its first byte is one; so such a name is hidden exactly when it begins
/// with a dot, whatever dots come later in it.
pub proof fn law_hidden_names_begin_with_a_dot(name: Seq<u8>)
    requires
        valid_utf8(name),
        utf8_lossy(name) == decode_utf8(name),
    ensures
        hidden_name(name) <==> (name.len() > 0 && name[0] == 46u8),
{
    if name.len() > 0 {
        let b = name[0];
        let text = decode_utf8(name);
        let cp = vstd::utf8::decode_first_scalar(name);
        assert(vstd::utf8::valid_first_scalar(name));
        assert(text.len() > 0);
        assert(text[0] == (cp as char));
        if vstd::utf8::is_leading_byte_width_1(b) {
            assert(b & 0x7f == b) by (bit_vector)
                requires
                    b <= 0x7f;
            assert(cp == b as u32);
            assert(((cp as char) == '.') <==> b == 46u8);
        } else {
            vstd::utf8::decode_utf8_first_scalar(name);
            if (cp as char) == '.' {
                assert(('.' as u32) == 46u32);
                assert(46u32 & 0x7f == 46u32) by (bit_vector);
                assert(vstd::utf8::encode_scalar(46u32) == seq![46u8]);
                assert(vstd::utf8::take_first_scalar(name)[0] == b);
                assert(false);
            }
        }
    }
}

pub fn is_hidden(name: &[u8]) -> (r: bool)
    ensures
        r == hidden_name(name@),
        valid_utf8(name@) ==> (r <==> (name@.len() > 0 && name@[0] == 46u8)),
{
    let text = lossy_text(name);
    let chars = crate::text::chars_of(text.as_str());
    proof {
        if valid_utf8(name@) {
            law_hidden_names_begin_with_a_dot(name@);
        }
    }
    chars.len() > 0 && chars[0] == '.'
}

/// Whether the walk of a selected folder goes into an entry: the folder
/// itself always, hidden entries only when hidden files are included.
pub fn walk_includes(depth: usize, include_hidden: bool, name: &[u8]) -> (r: bool)
    ensures
        r == (depth == 0 || include_hidden || !hidden_name(name@)),
        valid_utf8(name@) ==> (r <==> (depth == 0 || include_hidden || !(name@.len() > 0 && name@[0] == 46u8))),
{
    depth == 0 || include_hidden || !is_hidden(name)
}

/// The path inside the archive of an entry found below a selected folder
/// named `folder_name`, at `relative` from it; the folder itself has no
/// entry of its own unless the folder is included.
pub fn walked_archive_path(
    include_selected_folder: bool,
    folder_name: &str,
    depth: usize,
    relative: &ItemPath,
) -> (r: Option<ItemPath>)
    ensures
        depth == 0 && !include_selected_folder ==> r is None,
        !(depth == 0 && !include_selected_folder) ==> (r matches Some(p) && p@ == if include_selected_folder {
            joined(encode_utf8(folder_name@), relative@)
        } else {
            relative@
        }),
{
    if depth == 0 && !include_selected_folder {
        return None;
    }
    if include_selected_folder {
        Some(ItemPath::from_str(folder_name).join(relative))
    } else {
        Some(relative.clone())
    }
}

} // verus!
