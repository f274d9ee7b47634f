//! What the user has selected for sending, and how it will be sent: files one
//! by one, or everything packed into one archive.

use vstd::prelude::*;
use crate::path::{ItemPath, file_name_of, file_stem_of, lossy_text, same_path, utf8_lossy};
use crate::text::{decimal, push_decimal, push_str};
use crate::domain::content_laws::{SelectionChange, changed};

verus! {

#[derive(Debug, Clone, Copy, PartialEq, Eq, Structural)]
pub enum ArchiveFormat {
    Tar,
    TarZst,
    TarGz,
    Zip,
}

pub open spec fn extension_of(format: ArchiveFormat) -> Seq<char> {
    match format {
        ArchiveFormat::Tar => "tar"@,
        ArchiveFormat::TarZst => "tar.zst"@,
        ArchiveFormat::TarGz => "tar.gz"@,
        ArchiveFormat::Zip => "zip"@,
    }
}

impl ArchiveFormat {
    /// The file extension of archives in this format, without the leading dot.
    pub fn extension(self) -> (r: &'static str)
        ensures
            r@ == extension_of(self),
    {
        match self {
            ArchiveFormat::Tar => "tar",
            ArchiveFormat::TarZst => "tar.zst",
            ArchiveFormat::TarGz => "tar.gz",
            ArchiveFormat::Zip => "zip",
        }
    }
}

#[derive(Debug, Clone, Copy, PartialEq, Eq, Structural)]
pub enum CompressionLevel {
    Fast,
    Balanced,
    Smaller,
}

#[verifier::external_type_specification]
#[verifier::external_body]
pub struct ExCompression(flate2::Compression);

/// The level that a gzip compression setting carries (`Compression::level`).
pub uninterp spec fn gzip_level_of(c: flate2::Compression) -> u32;

/// `flate2::Compression::fast`: the setting of level 1.
#[verifier::external_body]
fn fast_gzip_compression() -> (c: flate2::Compression)
    ensures
        gzip_level_of(c) == 1,
{
    flate2::Compression::fast()
}

/// `flate2::Compression::default`: the setting of level 6.
#[verifier::external_body]
fn default_gzip_compression() -> (c: flate2::Compression)
    ensures
        gzip_level_of(c) == 6,
{
    flate2::Compression::default()
}

/// `flate2::Compression::best`: the setting of level 9.
#[verifier::external_body]
fn best_gzip_compression() -> (c: flate2::Compression)
    ensures
        gzip_level_of(c) == 9,
{
    flate2::Compression::best()
}

impl CompressionLevel {
    pub fn zstd_level(self) -> (r: i32)
        ensures
            r == match self {
                CompressionLevel::Fast => 1i32,
                CompressionLevel::Balanced => 3i32,
                CompressionLevel::Smaller => 9i32,
            },
    {
        match self {
            CompressionLevel::Fast => 1,
            CompressionLevel::Balanced => 3,
            CompressionLevel::Smaller => 9,
        }
    }

    /// The gzip setting: fastest (1), the gzip default (6), or best (9).
    pub fn gzip_level(self) -> (c: flate2::Compression)
        ensures
            gzip_level_of(c) == match self {
                CompressionLevel::Fast => 1u32,
                CompressionLevel::Balanced => 6u32,
                CompressionLevel::Smaller => 9u32,
            },
    {
        match self {
            CompressionLevel::Fast => fast_gzip_compression(),
            CompressionLevel::Balanced => default_gzip_compression(),
            CompressionLevel::Smaller => best_gzip_compression(),
        }
    }

    pub fn zip_level(self) -> (r: i64)
        ensures
            r == match self {
                CompressionLevel::Fast => 1i64,
                CompressionLevel::Balanced => 6i64,
                CompressionLevel::Smaller => 9i64,
            },
    {
        match self {
            CompressionLevel::Fast => 1,
            CompressionLevel::Balanced => 6,
            CompressionLevel::Smaller => 9,
        }
    }
}

#[derive(Debug, Clone, Copy, PartialEq, Eq, Structural)]
pub enum ArchiveOption {
    IncludeSelectedFolder,
    IncludeHiddenFiles,
    FollowSymlinks,
}

#[derive(Debug, Clone, Copy)]
pub struct ArchiveDefaults {
    pub format: ArchiveFormat,
    pub compression: CompressionLevel,
}

#[derive(Debug)]
pub struct ArchiveSettings {
    pub archive_name: String,
    pub format: ArchiveFormat,
    pub compression: CompressionLevel,
    pub include_selected_folder: bool,
    pub include_hidden_files: bool,
    pub follow_symlinks: bool,
}

pub struct SettingsView {
    pub archive_name: Seq<char>,
    pub format: ArchiveFormat,
    pub compression: CompressionLevel,
    pub include_selected_folder: bool,
    pub include_hidden_files: bool,
    pub follow_symlinks: bool,
}

impl View for ArchiveSettings {
    type V = SettingsView;

    open spec fn view(&self) -> SettingsView {
        SettingsView {
            archive_name: self.archive_name@,
            format: self.format,
            compression: self.compression,
            include_selected_folder: self.include_selected_folder,
            include_hidden_files: self.include_hidden_files,
            follow_symlinks: self.follow_symlinks,
        }
    }
}

impl Clone for ArchiveSettings {
    fn clone(&self) -> (r: Self)
        ensures
            r@ == self@,
    {
        ArchiveSettings {
            archive_name: self.archive_name.clone(),
            format: self.format,
            compression: self.compression,
            include_selected_folder: self.include_selected_folder,
            include_hidden_files: self.include_hidden_files,
            follow_symlinks: self.follow_symlinks,
        }
    }
}

#[derive(Debug, PartialEq, Eq)]
pub enum ContentItem {
    File { path: ItemPath, name: String, size_bytes: u64 },
    Folder { path: ItemPath, name: String, file_count: usize },
}

pub enum ItemView {
    File { path: Seq<u8>, name: Seq<char>, size_bytes: u64 },
    Folder { path: Seq<u8>, name: Seq<char>, file_count: usize },
}

impl ItemView {
    pub open spec fn path(self) -> Seq<u8> {
        match self {
            ItemView::File { path, .. } => path,
            ItemView::Folder { path, .. } => path,
        }
    }

    pub open spec fn name(self) -> Seq<char> {
        match self {
            ItemView::File { name, .. } => name,
            ItemView::Folder { name, .. } => name,
        }
    }

    pub open spec fn is_folder(self) -> bool {
        self is Folder
    }

    /// The size a file contributes to a total; folders contribute nothing.
    pub open spec fn size(self) -> nat {
        match self {
            ItemView::File { size_bytes, .. } => size_bytes as nat,
            ItemView::Folder { .. } => 0,
        }
    }
}

impl View for ContentItem {
    type V = ItemView;

    open spec fn view(&self) -> ItemView {
        match self {
            ContentItem::File { path, name, size_bytes } => ItemView::File {
                path: path@,
                name: name@,
                size_bytes: *size_bytes,
            },
            ContentItem::Folder { path, name, file_count } => ItemView::Folder {
                path: path@,
                name: name@,
                file_count: *file_count,
            },
        }
    }
}

impl Clone for ContentItem {
    fn clone(&self) -> (r: Self)
        ensures
            r@ == self@,
    {
        match self {
            ContentItem::File { path, name, size_bytes } => ContentItem::File {
                path: path.clone(),
                name: name.clone(),
                size_bytes: *size_bytes,
            },
            ContentItem::Folder { path, name, file_count } => ContentItem::Folder {
                path: path.clone(),
                name: name.clone(),
                file_count: *file_count,
            },
        }
    }
}

/// The name shown for a path: its final component, or the whole path when
/// it has no final name.
pub open spec fn display_name_of(path: Seq<u8>) -> Seq<char> {
    match file_name_of(path) {
        Some(n) => utf8_lossy(n),
        None => utf8_lossy(path),
    }
}

pub fn display_name(path: &ItemPath) -> (r: String)
    ensures
        r@ == display_name_of(path@),
{
    match path.file_name() {
        Some(n) => lossy_text(n.as_slice()),
        None => path.display(),
    }
}

impl ContentItem {
    pub fn file(path: ItemPath, size_bytes: u64) -> (r: Self)
        ensures
            r@ == (ItemView::File { path: path@, name: display_name_of(path@), size_bytes }),
    {
        let name = display_name(&path);
        ContentItem::File { path, name, size_bytes }
    }

    pub fn folder(path: ItemPath, file_count: usize) -> (r: Self)
        ensures
            r@ == (ItemView::Folder { path: path@, name: display_name_of(path@), file_count }),
    {
        let name = display_name(&path);
        ContentItem::Folder { path, name, file_count }
    }

    pub fn path(&self) -> (r: &ItemPath)
        ensures
            r@ == self@.path(),
    {
        match self {
            ContentItem::File { path, .. } => path,
            ContentItem::Folder { path, .. } => path,
        }
    }

    pub fn name(&self) -> (r: &str)
        ensures
            r@ == self@.name(),
    {
        match self {
            ContentItem::File { name, .. } => name.as_str(),
            ContentItem::Folder { name, .. } => name.as_str(),
        }
    }

    pub fn size_bytes(&self) -> (r: Option<u64>)
        ensures
            r == match self@ {
                ItemView::File { size_bytes, .. } => Some(size_bytes),
                ItemView::Folder { .. } => None::<u64>,
            },
    {
        match self {
            ContentItem::File { size_bytes, .. } => Some(*size_bytes),
            ContentItem::Folder { .. } => None,
        }
    }

    pub fn is_folder(&self) -> (r: bool)
        ensures
            r == self@.is_folder(),
    {
        match self {
            ContentItem::File { .. } => false,
            ContentItem::Folder { .. } => true,
        }
    }
}

#[derive(Debug, Clone, Copy, PartialEq, Eq, Structural)]
pub enum SendMethod {
    Separate,
    Archive,
}

#[derive(Debug)]
pub enum ContentSelection {
    Empty,
    Separate(Vec<ContentItem>),
    Archive { items: Vec<ContentItem>, settings: ArchiveSettings },
}

pub enum SelectionView {
    Empty,
    Separate(Seq<ItemView>),
    Archive { items: Seq<ItemView>, settings: SettingsView },
}

pub open spec fn items_view(v: Seq<ContentItem>) -> Seq<ItemView> {
    v.map_values(|i: ContentItem| i@)
}

impl View for ContentSelection {
    type V = SelectionView;

    open spec fn view(&self) -> SelectionView {
        match self {
            ContentSelection::Empty => SelectionView::Empty,
            ContentSelection::Separate(items) => SelectionView::Separate(items_view(items@)),
            ContentSelection::Archive { items, settings } => SelectionView::Archive {
                items: items_view(items@),
                settings: settings@,
            },
        }
    }
}

impl SelectionView {
    pub open spec fn items(self) -> Seq<ItemView> {
        match self {
            SelectionView::Empty => Seq::empty(),
            SelectionView::Separate(items) => items,
            SelectionView::Archive { items, .. } => items,
        }
    }

    pub open spec fn method(self) -> SendMethod {
        match self {
            SelectionView::Archive { .. } => SendMethod::Archive,
            _ => SendMethod::Separate,
        }
    }

    pub open spec fn settings(self) -> Option<SettingsView> {
        match self {
            SelectionView::Archive { settings, .. } => Some(settings),
            _ => None,
        }
    }

    /// The invariant that every way of changing a selection keeps: separate
    /// sending holds at least one item and no folder, an archive holds at
    /// least one item, and no path occurs twice.
    pub open spec fn well_formed(self) -> bool {
        match self {
            SelectionView::Empty => true,
            SelectionView::Separate(items) => items.len() > 0 && !has_folder(items)
                && unique_paths(items),
            SelectionView::Archive { items, .. } => items.len() > 0 && unique_paths(items),
        }
    }
}

impl Clone for ContentSelection {
    fn clone(&self) -> (r: Self)
        ensures
            r@ == self@,
    {
        match self {
            ContentSelection::Empty => ContentSelection::Empty,
            ContentSelection::Separate(items) => ContentSelection::Separate(clone_items(items.as_slice())),
            ContentSelection::Archive { items, settings } => ContentSelection::Archive {
                items: clone_items(items.as_slice()),
                settings: settings.clone(),
            },
        }
    }
}

impl Default for ContentSelection {
    fn default() -> (r: Self)
        ensures
            r@ == SelectionView::Empty,
    {
        ContentSelection::Empty
    }
}

pub open spec fn has_folder(items: Seq<ItemView>) -> bool {
    exists|i: int| 0 <= i < items.len() && (#[trigger] items[i]).is_folder()
}

pub open spec fn unique_paths(items: Seq<ItemView>) -> bool {
    forall|i: int, j: int|
        0 <= i < j < items.len() ==> !same_path(#[trigger] items[i].path(), #[trigger] items[j].path())
}

/// The first index at or after `start` whose item has the path `p`, or -1.
pub open spec fn position_from(items: Seq<ItemView>, p: Seq<u8>, start: int) -> int
    decreases items.len() - start,
{
    if start < 0 || start >= items.len() {
        -1
    } else if same_path(items[start].path(), p) {
        start
    } else {
        position_from(items, p, start + 1)
    }
}

pub open spec fn position_of(items: Seq<ItemView>, p: Seq<u8>) -> int {
    position_from(items, p, 0)
}

/// The item with path `p`, if there is one (the first, should there be several).
pub open spec fn lookup(items: Seq<ItemView>, p: Seq<u8>) -> Option<ItemView> {
    let k = position_of(items, p);
    if k >= 0 { Some(items[k]) } else { None }
}

/// `items` with `x` put in place of the item with the same path, or appended.
pub open spec fn upsert(items: Seq<ItemView>, x: ItemView) -> Seq<ItemView> {
    let k = position_of(items, x.path());
    if k >= 0 { items.update(k, x) } else { items.push(x) }
}

/// `items` with each of `additions` put in, in order.
pub open spec fn merge(items: Seq<ItemView>, additions: Seq<ItemView>) -> Seq<ItemView>
    decreases additions.len(),
{
    if additions.len() == 0 {
        items
    } else {
        upsert(merge(items, additions.drop_last()), additions.last())
    }
}

/// `items` without any item whose path is `p`.
pub open spec fn without_path(items: Seq<ItemView>, p: Seq<u8>) -> Seq<ItemView>
    decreases items.len(),
{
    if items.len() == 0 {
        items
    } else {
        let rest = without_path(items.drop_last(), p);
        if same_path(items.last().path(), p) { rest } else { rest.push(items.last()) }
    }
}

/// The sum of the sizes of the files among `items`.
pub open spec fn sum_sizes(items: Seq<ItemView>) -> nat
    decreases items.len(),
{
    if items.len() == 0 {
        0
    } else {
        sum_sizes(items.drop_last()) + items.last().size()
    }
}

/// The stem of an archive's name: the one selected folder's name, the one
/// selected file's name without its extension, or a count of the items.
pub open spec fn archive_stem(items: Seq<ItemView>) -> Seq<char> {
    if items.len() == 1 {
        match items[0] {
            ItemView::Folder { name, .. } => name,
            ItemView::File { path, name, .. } => match file_stem_of(path) {
                Some(s) => utf8_lossy(s),
                None => name,
            },
        }
    } else {
        "Taildrop "@ + decimal(items.len()) + " items"@
    }
}

pub open spec fn archive_name_of(items: Seq<ItemView>, format: ArchiveFormat) -> Seq<char> {
    archive_stem(items) + "."@ + extension_of(format)
}

pub open spec fn new_settings(items: Seq<ItemView>, defaults: ArchiveDefaults) -> SettingsView {
    SettingsView {
        archive_name: archive_name_of(items, defaults.format),
        format: defaults.format,
        compression: defaults.compression,
        include_selected_folder: true,
        include_hidden_files: true,
        follow_symlinks: false,
    }
}

/// The selection made of `items`, sent as requested where that is possible:
/// nothing selected is the empty selection, and folders must be archived.
/// An archive keeps its existing settings, with its name made anew.
pub open spec fn from_parts_spec(
    items: Seq<ItemView>,
    requested: SendMethod,
    existing: Option<SettingsView>,
    defaults: ArchiveDefaults,
) -> SelectionView {
    if items.len() == 0 {
        SelectionView::Empty
    } else if requested == SendMethod::Separate && !has_folder(items) {
        SelectionView::Separate(items)
    } else {
        let base = match existing {
            Some(s) => s,
            None => new_settings(items, defaults),
        };
        SelectionView::Archive {
            items,
            settings: SettingsView { archive_name: archive_name_of(items, base.format), ..base },
        }
    }
}

pub fn clone_items(items: &[ContentItem]) -> (r: Vec<ContentItem>)
    ensures
        items_view(r@) == items_view(items@),
{
    let mut out: Vec<ContentItem> = Vec::new();
    let mut i: usize = 0;
    while i < items.len()
        invariant
            i <= items@.len(),
            items_view(out@) == items_view(items@.subrange(0, i as int)),
        decreases items@.len() - i,
    {
        let c = items[i].clone();
        let ghost before = out@;
        out.push(c);
        proof {
            assert(items_view(out@) =~= items_view(before).push(c@));
            assert(items@.subrange(0, i + 1) =~= items@.subrange(0, i as int).push(items@[i as int]));
            assert(items_view(items@.subrange(0, i + 1)) =~= items_view(items@.subrange(0, i as int)).push(items@[i as int]@));
        }
        i = i + 1;
    }
    assert(items@.subrange(0, items@.len() as int) =~= items@);
    out
}

fn contains_folder(items: &Vec<ContentItem>) -> (r: bool)
    ensures
        r == has_folder(items_view(items@)),
{
    let mut i: usize = 0;
    while i < items.len()
        invariant
            i <= items@.len(),
            forall|j: int| 0 <= j < i ==> !(#[trigger] items@[j])@.is_folder(),
        decreases items@.len() - i,
    {
        if items[i].is_folder() {
            assert(items_view(items@)[i as int].is_folder());
            return true;
        }
        i = i + 1;
    }
    assert forall|j: int| 0 <= j < items_view(items@).len() implies !(#[trigger] items_view(items@)[j]).is_folder() by {
        assert(items_view(items@)[j] == items@[j]@);
    }
    false
}

fn archive_stem_text(items: &Vec<ContentItem>) -> (r: String)
    ensures
        r@ == archive_stem(items_view(items@)),
{
    if items.len() == 1 {
        assert(items_view(items@)[0] == items@[0]@);
        match &items[0] {
            ContentItem::Folder { name, .. } => name.clone(),
            ContentItem::File { path, name, .. } => match path.file_stem() {
                Some(s) => lossy_text(s.as_slice()),
                None => name.clone(),
            },
        }
    } else {
        let mut s = String::new();
        push_str(&mut s, "Taildrop ");
        push_decimal(&mut s, items.len() as u128);
        push_str(&mut s, " items");
        assert(s@ =~= "Taildrop "@ + decimal(items@.len()) + " items"@);
        s
    }
}

pub fn archive_name(items: &Vec<ContentItem>, format: ArchiveFormat) -> (r: String)
    ensures
        r@ == archive_name_of(items_view(items@), format),
{
    let mut s = archive_stem_text(items);
    push_str(&mut s, ".");
    push_str(&mut s, format.extension());
    s
}

impl ArchiveSettings {
    fn new(items: &Vec<ContentItem>, defaults: ArchiveDefaults) -> (r: Self)
        ensures
            r@ == new_settings(items_view(items@), defaults),
    {
        ArchiveSettings {
            archive_name: archive_name(items, defaults.format),
            format: defaults.format,
            compression: defaults.compression,
            include_selected_folder: true,
            include_hidden_files: true,
            follow_symlinks: false,
        }
    }

    fn refresh_name(&mut self, items: &Vec<ContentItem>)
        ensures
            final(self)@ == (SettingsView {
                archive_name: archive_name_of(items_view(items@), old(self)@.format),
                ..old(self)@
            }),
    {
        self.archive_name = archive_name(items, self.format);
    }
}

proof fn lemma_position_from(items: Seq<ItemView>, p: Seq<u8>, start: int)
    requires
        0 <= start,
    ensures
        position_from(items, p, start) == -1 || (start <= position_from(items, p, start) < items.len()
            && same_path(items[position_from(items, p, start)].path(), p)),
        forall|j: int| start <= j < items.len() && (position_from(items, p, start) == -1 || j < position_from(items, p, start))
            ==> !same_path(#[trigger] items[j].path(), p),
    decreases items.len() - start,
{
    if start < items.len() && !same_path(items[start].path(), p) {
        lemma_position_from(items, p, start + 1);
    }
}

pub proof fn lemma_position_of(items: Seq<ItemView>, p: Seq<u8>)
    ensures
        position_of(items, p) == -1 || (0 <= position_of(items, p) < items.len()
            && same_path(items[position_of(items, p)].path(), p)),
        forall|j: int| 0 <= j < items.len() && (position_of(items, p) == -1 || j < position_of(items, p))
            ==> !same_path(#[trigger] items[j].path(), p),
{
    lemma_position_from(items, p, 0);
}

proof fn lemma_sum_prefix(s: Seq<ItemView>, k: int)
    requires
        0 <= k <= s.len(),
    ensures
        sum_sizes(s.take(k)) <= sum_sizes(s),
    decreases s.len(),
{
    if k < s.len() {
        assert(s.take(k) =~= s.drop_last().take(k));
        lemma_sum_prefix(s.drop_last(), k);
    } else {
        assert(s.take(k) =~= s);
    }
}

/// The index of the item whose path is `p`.
fn find_path(items: &Vec<ContentItem>, p: &ItemPath) -> (r: Option<usize>)
    ensures
        match r {
            Some(k) => k as int == position_of(items_view(items@), p@),
            None => position_of(items_view(items@), p@) == -1,
        },
{
    let ghost v = items_view(items@);
    let mut i: usize = 0;
    while i < items.len()
        invariant
            v == items_view(items@),
            i <= items@.len(),
            position_of(v, p@) == position_from(v, p@, i as int),
        decreases items@.len() - i,
    {
        assert(v[i as int] == items@[i as int]@);
        if items[i].path().same_as(p) {
            return Some(i);
        }
        i = i + 1;
    }
    None
}

fn upsert_item(items: &mut Vec<ContentItem>, item: ContentItem)
    ensures
        items_view(final(items)@) == upsert(items_view(old(items)@), item@),
{
    proof { lemma_position_of(items_view(items@), item@.path()); }
    match find_path(items, item.path()) {
        Some(k) => {
            let ghost before = items@;
            let ghost x = item@;
            items.set(k, item);
            assert(items_view(items@) =~= items_view(before).update(k as int, x));
        },
        None => {
            let ghost before = items@;
            let ghost x = item@;
            items.push(item);
            assert(items_view(items@) =~= items_view(before).push(x));
        },
    }
}

fn from_parts(
    items: Vec<ContentItem>,
    requested: SendMethod,
    existing: Option<ArchiveSettings>,
    defaults: ArchiveDefaults,
) -> (r: ContentSelection)
    ensures
        r@ == from_parts_spec(
            items_view(items@),
            requested,
            match existing { Some(s) => Some(s@), None => None },
            defaults,
        ),
{
    if items.len() == 0 {
        return ContentSelection::Empty;
    }
    let requires_archive = contains_folder(&items);
    if requested == SendMethod::Separate && !requires_archive {
        return ContentSelection::Separate(items);
    }
    let mut settings = match existing {
        Some(s) => s,
        None => ArchiveSettings::new(&items, defaults),
    };
    settings.refresh_name(&items);
    ContentSelection::Archive { items, settings }
}

impl ContentSelection {
    pub fn items(&self) -> (r: &[ContentItem])
        ensures
            items_view(r@) == self@.items(),
    {
        match self {
            ContentSelection::Empty => {
                let r: &[ContentItem] = &[];
                assert(items_view(r@) =~= Seq::<ItemView>::empty());
                r
            },
            ContentSelection::Separate(items) => items.as_slice(),
            ContentSelection::Archive { items, .. } => items.as_slice(),
        }
    }

    pub fn item_count(&self) -> (r: usize)
        ensures
            r == self@.items().len(),
    {
        self.items().len()
    }

    pub fn is_empty(&self) -> (r: bool)
        ensures
            r == (self@ is Empty),
    {
        match self {
            ContentSelection::Empty => true,
            _ => false,
        }
    }

    /// The total size of the selection: known when it holds only files whose
    /// sizes add up within `u64`.
    pub fn total_size_bytes(&self) -> (r: Option<u64>)
        ensures
            r == (if !has_folder(self@.items()) && sum_sizes(self@.items()) <= u64::MAX {
                Some(sum_sizes(self@.items()) as u64)
            } else {
                None
            }),
    {
        let items = self.items();
        let ghost v = self@.items();
        let mut total: u64 = 0;
        let mut i: usize = 0;
        assert(v.take(0) =~= Seq::<ItemView>::empty());
        while i < items.len()
            invariant
                v == items_view(items@),
                v == self@.items(),
                i <= items@.len(),
                total as nat == sum_sizes(v.take(i as int)),
                forall|j: int| 0 <= j < i ==> !(#[trigger] v[j]).is_folder(),
            decreases items@.len() - i,
        {
            assert(v[i as int] == items@[i as int]@);
            assert(v.take(i + 1).drop_last() =~= v.take(i as int));
            match items[i].size_bytes() {
                None => {
                    assert(v[i as int].is_folder());
                    return None;
                },
                Some(size) => match total.checked_add(size) {
                    None => {
                        proof { lemma_sum_prefix(v, i + 1); }
                        return None;
                    },
                    Some(t) => {
                        total = t;
                    },
                },
            }
            i = i + 1;
        }
        assert(v.take(v.len() as int) =~= v);
        Some(total)
    }

    pub fn send_method(&self) -> (r: SendMethod)
        ensures
            r == self@.method(),
    {
        match self {
            ContentSelection::Archive { .. } => SendMethod::Archive,
            _ => SendMethod::Separate,
        }
    }

    pub fn can_send_separately(&self) -> (r: bool)
        ensures
            r == (!(self@ is Empty) && !has_folder(self@.items())),
    {
        if self.is_empty() {
            return false;
        }
        let items = self.items();
        let mut i: usize = 0;
        while i < items.len()
            invariant
                items_view(items@) == self@.items(),
                i <= items@.len(),
                forall|j: int| 0 <= j < i ==> !(#[trigger] self@.items()[j]).is_folder(),
            decreases items@.len() - i,
        {
            assert(self@.items()[i as int] == items@[i as int]@);
            if items[i].is_folder() {
                return false;
            }
            i = i + 1;
        }
        true
    }

    pub fn archive_settings(&self) -> (r: Option<&ArchiveSettings>)
        ensures
            match r {
                Some(s) => self@.settings() == Some(s@),
                None => self@.settings() is None,
            },
    {
        match self {
            ContentSelection::Archive { settings, .. } => Some(settings),
            _ => None,
        }
    }

    fn cloned_settings(&self) -> (r: Option<ArchiveSettings>)
        ensures
            match r { Some(s) => Some(s@), None => None } == self@.settings(),
    {
        match self {
            ContentSelection::Archive { settings, .. } => Some(settings.clone()),
            _ => None,
        }
    }

    /// Adds items; an item whose path is already selected takes the place of
    /// the selected one.
    pub fn add(&mut self, additions: Vec<ContentItem>, defaults: ArchiveDefaults)
        ensures
            final(self)@ == changed(old(self)@, SelectionChange::Add(items_view(additions@), defaults)),
            additions@.len() == 0 ==> final(self)@ == old(self)@,
            additions@.len() > 0 ==> final(self)@ == from_parts_spec(
                merge(old(self)@.items(), items_view(additions@)),
                old(self)@.method(),
                old(self)@.settings(),
                defaults,
            ),
    {
        if additions.len() == 0 {
            return;
        }
        let ghost old_items = self@.items();
        let ghost adds = items_view(additions@);
        let mut items = clone_items(self.items());
        let mut i: usize = 0;
        assert(adds.take(0) =~= Seq::<ItemView>::empty());
        while i < additions.len()
            invariant
                adds == items_view(additions@),
                i <= additions@.len(),
                items_view(items@) == merge(old_items, adds.take(i as int)),
            decreases additions@.len() - i,
        {
            let item = additions[i].clone();
            proof {
                assert(adds.take(i + 1).drop_last() =~= adds.take(i as int));
                assert(adds.take(i + 1).last() == additions@[i as int]@);
            }
            upsert_item(&mut items, item);
            i = i + 1;
        }
        assert(adds.take(adds.len() as int) =~= adds);
        let method = self.send_method();
        let existing = self.cloned_settings();
        *self = from_parts(items, method, existing, defaults);
    }

    /// Requests a way of sending; folders are always archived.
    pub fn set_send_method(&mut self, method: SendMethod, defaults: ArchiveDefaults)
        ensures
            final(self)@ == changed(old(self)@, SelectionChange::SetSendMethod(method, defaults)),
            final(self)@ == from_parts_spec(old(self)@.items(), method, old(self)@.settings(), defaults),
    {
        let items = clone_items(self.items());
        let existing = self.cloned_settings();
        *self = from_parts(items, method, existing, defaults);
    }

    pub fn set_archive_format(&mut self, format: ArchiveFormat)
        requires
            old(self)@ is Archive,
        ensures
            final(self)@ == changed(old(self)@, SelectionChange::SetFormat(format)),
            final(self)@ == (SelectionView::Archive {
                items: old(self)@.items(),
                settings: SettingsView {
                    format,
                    archive_name: archive_name_of(old(self)@.items(), format),
                    ..old(self)@.settings().unwrap()
                },
            }),
    {
        match self {
            ContentSelection::Archive { items, settings } => {
                settings.format = format;
                settings.refresh_name(items);
            },
            _ => {},
        }
    }

    pub fn set_archive_name(&mut self, name: String)
        requires
            old(self)@ is Archive,
        ensures
            final(self)@ == changed(old(self)@, SelectionChange::SetName(name@)),
            final(self)@ == (SelectionView::Archive {
                items: old(self)@.items(),
                settings: SettingsView { archive_name: name@, ..old(self)@.settings().unwrap() },
            }),
    {
        match self {
            ContentSelection::Archive { settings, .. } => {
                settings.archive_name = name;
            },
            _ => {},
        }
    }

    pub fn set_archive_compression(&mut self, compression: CompressionLevel)
        requires
            old(self)@ is Archive,
        ensures
            final(self)@ == changed(old(self)@, SelectionChange::SetCompression(compression)),
            final(self)@ == (SelectionView::Archive {
                items: old(self)@.items(),
                settings: SettingsView { compression, ..old(self)@.settings().unwrap() },
            }),
    {
        match self {
            ContentSelection::Archive { settings, .. } => {
                settings.compression = compression;
            },
            _ => {},
        }
    }

    pub fn set_archive_option(&mut self, option: ArchiveOption, active: bool)
        requires
            old(self)@ is Archive,
        ensures
            final(self)@ == changed(old(self)@, SelectionChange::SetOption(option, active)),
            final(self)@ == (SelectionView::Archive {
                items: old(self)@.items(),
                settings: match option {
                    ArchiveOption::IncludeSelectedFolder => SettingsView {
                        include_selected_folder: active,
                        ..old(self)@.settings().unwrap()
                    },
                    ArchiveOption::IncludeHiddenFiles => SettingsView {
                        include_hidden_files: active,
                        ..old(self)@.settings().unwrap()
                    },
                    ArchiveOption::FollowSymlinks => SettingsView {
                        follow_symlinks: active,
                        ..old(self)@.settings().unwrap()
                    },
                },
            }),
    {
        match self {
            ContentSelection::Archive { settings, .. } => {
                match option {
                    ArchiveOption::IncludeSelectedFolder => settings.include_selected_folder = active,
                    ArchiveOption::IncludeHiddenFiles => settings.include_hidden_files = active,
                    ArchiveOption::FollowSymlinks => settings.follow_symlinks = active,
                }
            },
            _ => {},
        }
    }

    /// Removes every item whose path is `path`.
    pub fn remove(&mut self, path: &ItemPath, defaults: ArchiveDefaults)
        ensures
            final(self)@ == changed(old(self)@, SelectionChange::Remove(path@, defaults)),
            final(self)@ == from_parts_spec(
                without_path(old(self)@.items(), path@),
                old(self)@.method(),
                old(self)@.settings(),
                defaults,
            ),
    {
        let all = self.items();
        let ghost v = self@.items();
        let mut kept: Vec<ContentItem> = Vec::new();
        let mut i: usize = 0;
        assert(v.take(0) =~= Seq::<ItemView>::empty());
        while i < all.len()
            invariant
                v == items_view(all@),
                i <= all@.len(),
                items_view(kept@) == without_path(v.take(i as int), path@),
            decreases all@.len() - i,
        {
            proof {
                assert(v.take(i + 1).drop_last() =~= v.take(i as int));
                assert(v.take(i + 1).last() == all@[i as int]@);
            }
            if !all[i].path().same_as(path) {
                let c = all[i].clone();
                let ghost before = kept@;
                kept.push(c);
                assert(items_view(kept@) =~= items_view(before).push(c@));
            }
            i = i + 1;
        }
        assert(v.take(v.len() as int) =~= v);
        let method = self.send_method();
        let existing = self.cloned_settings();
        *self = from_parts(kept, method, existing, defaults);
    }

    /// Moves the item at `from` so that it stands at `to`.
    pub fn move_item(&mut self, from: usize, to: usize)
        requires
            old(self)@ is Separate,
            from < old(self)@.items().len(),
            to < old(self)@.items().len(),
        ensures
            final(self)@ == changed(old(self)@, SelectionChange::Move(from as int, to as int)),
            final(self)@ == SelectionView::Separate(
                old(self)@.items().remove(from as int).insert(to as int, old(self)@.items()[from as int]),
            ),
    {
        match self {
            ContentSelection::Separate(items) => {
                let ghost v = items_view(items@);
                if from != to {
                    let ghost before = items@;
                    let item = items.remove(from);
                    let ghost mid = items@;
                    assert(items_view(mid) =~= v.remove(from as int));
                    items.insert(to, item);
                    assert(items_view(items@) =~= v.remove(from as int).insert(to as int, v[from as int]));
                } else {
                    assert(v.remove(from as int).insert(to as int, v[from as int]) =~= v);
                }
            },
            _ => {},
        }
    }
}

} // verus!
