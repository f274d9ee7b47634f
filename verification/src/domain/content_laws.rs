//! What every change of a selection keeps, and how changes relate.

use vstd::prelude::*;
use crate::path::same_path;
use crate::domain::content::{
    ArchiveDefaults, ArchiveFormat, ArchiveOption, CompressionLevel, ItemView, SelectionView, SendMethod, SettingsView,
    archive_name_of, extension_of, from_parts_spec, has_folder, lemma_position_of, lookup, merge,
    position_of, sum_sizes, unique_paths, upsert, without_path,
};

verus! {

/// The index of the last item of `adds` whose path is `p`, or -1.
pub open spec fn last_with_path(adds: Seq<ItemView>, p: Seq<u8>) -> int
    decreases adds.len(),
{
    if adds.len() == 0 {
        -1
    } else if same_path(adds.last().path(), p) {
        adds.len() - 1
    } else {
        last_with_path(adds.drop_last(), p)
    }
}

proof fn lemma_last_with_path(adds: Seq<ItemView>, p: Seq<u8>)
    ensures
        -1 <= last_with_path(adds, p) < adds.len(),
    decreases adds.len(),
{
    if adds.len() > 0 && !same_path(adds.last().path(), p) {
        lemma_last_with_path(adds.drop_last(), p);
    }
}

proof fn lemma_lookup_upsert(items: Seq<ItemView>, x: ItemView, p: Seq<u8>)
    ensures
        lookup(upsert(items, x), p) == if same_path(x.path(), p) { Some(x) } else { lookup(items, p) },
{
    let k = position_of(items, x.path());
    let u = upsert(items, x);
    lemma_position_of(items, x.path());
    lemma_position_of(items, p);
    lemma_position_of(u, p);
    let kp = position_of(items, p);
    let ku = position_of(u, p);
    if k >= 0 {
        assert(u.len() == items.len());
        // The paths at every index are unchanged by the update.
        assert forall|j: int| 0 <= j < u.len() implies same_path(#[trigger] u[j].path(), p) == same_path(items[j].path(), p) by {
            if j == k {
                assert(u[j] == x);
            }
        }
        if ku >= 0 {
            assert(same_path(items[ku].path(), p));
        }
        if kp >= 0 {
            assert(same_path(u[kp].path(), p));
        }
        if same_path(x.path(), p) {
            assert(ku == k);
        } else {
            assert(ku == kp);
            if kp >= 0 {
                assert(kp != k);
            }
        }
    } else {
        assert(u.len() == items.len() + 1);
        if ku >= 0 && ku < items.len() {
            assert(u[ku] == items[ku]);
        }
        if kp >= 0 {
            assert(u[kp] == items[kp]);
            assert(same_path(u[kp].path(), p));
        }
        if same_path(x.path(), p) {
            assert(u[items.len() as int] == x);
            assert(ku == items.len());
        } else {
            assert(ku == kp);
        }
    }
}

proof fn lemma_position_is(items: Seq<ItemView>, p: Seq<u8>, k: int)
    requires
        0 <= k < items.len(),
        same_path(items[k].path(), p),
        forall|j: int| 0 <= j < k ==> !same_path(#[trigger] items[j].path(), p),
    ensures
        position_of(items, p) == k,
{
    lemma_position_of(items, p);
    let pos = position_of(items, p);
    if pos == -1 {
        assert(!same_path(items[k].path(), p));
    } else if pos < k {
        assert(!same_path(items[pos].path(), p));
    } else if pos > k {
        assert(!same_path(items[k].path(), p));
    }
}

/// Reading back an added path gives the last item added with it; the other
/// paths read as before.
pub proof fn law_lookup_after_merge(items: Seq<ItemView>, adds: Seq<ItemView>, p: Seq<u8>)
    ensures
        lookup(merge(items, adds), p) == if last_with_path(adds, p) >= 0 {
            Some(adds[last_with_path(adds, p)])
        } else {
            lookup(items, p)
        },
    decreases adds.len(),
{
    if adds.len() > 0 {
        law_lookup_after_merge(items, adds.drop_last(), p);
        lemma_lookup_upsert(merge(items, adds.drop_last()), adds.last(), p);
        lemma_last_with_path(adds.drop_last(), p);
        if !same_path(adds.last().path(), p) && last_with_path(adds.drop_last(), p) >= 0 {
            assert(adds.drop_last()[last_with_path(adds.drop_last(), p)] == adds[last_with_path(adds, p)]);
        }
    }
}

proof fn lemma_merge_nonempty(items: Seq<ItemView>, adds: Seq<ItemView>)
    requires
        adds.len() > 0,
    ensures
        merge(items, adds).len() > 0,
{
    lemma_position_of(merge(items, adds.drop_last()), adds.last().path());
}

/// After adding at least one item, every selected path reads back the last
/// item added with it, and every other path reads as it did before.
pub proof fn law_add_keeps_latest(
    before: SelectionView,
    adds: Seq<ItemView>,
    defaults: ArchiveDefaults,
    p: Seq<u8>,
)
    requires
        adds.len() > 0,
    ensures
        ({
            let after = from_parts_spec(merge(before.items(), adds), before.method(), before.settings(), defaults);
            lookup(after.items(), p) == if last_with_path(adds, p) >= 0 {
                Some(adds[last_with_path(adds, p)])
            } else {
                lookup(before.items(), p)
            }
        }),
{
    lemma_merge_nonempty(before.items(), adds);
    law_lookup_after_merge(before.items(), adds, p);
}

/// A selection made from items with distinct paths is well formed: in
/// particular folders are always archived.
pub proof fn law_from_parts_well_formed(
    items: Seq<ItemView>,
    requested: SendMethod,
    existing: Option<SettingsView>,
    defaults: ArchiveDefaults,
)
    requires
        unique_paths(items),
    ensures
        from_parts_spec(items, requested, existing, defaults).well_formed(),
        has_folder(items) ==> from_parts_spec(items, requested, existing, defaults) is Archive,
        items.len() > 0 && requested == SendMethod::Separate && !has_folder(items)
            ==> from_parts_spec(items, requested, existing, defaults) == SelectionView::Separate(items),
        from_parts_spec(items, requested, existing, defaults).items() == items,
{
}

proof fn lemma_upsert_unique(items: Seq<ItemView>, x: ItemView)
    requires
        unique_paths(items),
    ensures
        unique_paths(upsert(items, x)),
{
    lemma_position_of(items, x.path());
    let k = position_of(items, x.path());
    let u = upsert(items, x);
    if k >= 0 {
        assert forall|i: int, j: int| 0 <= i < j < u.len() implies !same_path(#[trigger] u[i].path(), #[trigger] u[j].path()) by {
            if i == k {
                assert(!same_path(items[i].path(), items[j].path()));
            } else if j == k {
                assert(!same_path(items[i].path(), items[j].path()));
            } else {
                assert(u[i] == items[i] && u[j] == items[j]);
            }
        }
    } else {
        assert forall|i: int, j: int| 0 <= i < j < u.len() implies !same_path(#[trigger] u[i].path(), #[trigger] u[j].path()) by {
            if j == items.len() {
                assert(u[j] == x);
                assert(u[i] == items[i]);
            } else {
                assert(u[i] == items[i] && u[j] == items[j]);
            }
        }
    }
}

proof fn lemma_merge_unique(items: Seq<ItemView>, adds: Seq<ItemView>)
    requires
        unique_paths(items),
    ensures
        unique_paths(merge(items, adds)),
    decreases adds.len(),
{
    if adds.len() > 0 {
        lemma_merge_unique(items, adds.drop_last());
        lemma_upsert_unique(merge(items, adds.drop_last()), adds.last());
    }
}

/// Every item left after removing a path comes from the items before, and
/// none has the removed path.
pub proof fn law_without_path(s: Seq<ItemView>, p: Seq<u8>)
    ensures
        forall|i: int| 0 <= i < without_path(s, p).len()
            ==> !same_path((#[trigger] without_path(s, p)[i]).path(), p),
        forall|i: int| 0 <= i < without_path(s, p).len()
            ==> exists|j: int| 0 <= j < s.len() && s[j] == #[trigger] without_path(s, p)[i],
        forall|q: Seq<u8>| !same_path(q, p) ==> #[trigger] lookup(without_path(s, p), q) == lookup(s, q),
    decreases s.len(),
{
    if s.len() > 0 {
        law_without_path(s.drop_last(), p);
        let rest = without_path(s.drop_last(), p);
        let r = without_path(s, p);
        assert forall|i: int| 0 <= i < r.len() implies exists|j: int| 0 <= j < s.len() && s[j] == #[trigger] r[i] by {
            if i < rest.len() {
                let j = choose|j: int| 0 <= j < s.drop_last().len() && s.drop_last()[j] == rest[i];
                assert(s[j] == r[i]);
            } else {
                assert(s[s.len() - 1] == r[i]);
            }
        }
        assert forall|q: Seq<u8>| !same_path(q, p) implies #[trigger] lookup(r, q) == lookup(s, q) by {
            lemma_position_of(s, q);
            lemma_position_of(s.drop_last(), q);
            lemma_position_of(rest, q);
            lemma_position_of(r, q);
            assert(lookup(rest, q) == lookup(s.drop_last(), q));
            let kd = position_of(s.drop_last(), q);
            if kd >= 0 {
                assert(s[kd] == s.drop_last()[kd]);
                assert forall|j: int| 0 <= j < kd implies !same_path(#[trigger] s[j].path(), q) by {
                    assert(s[j] == s.drop_last()[j]);
                    assert(!same_path(s.drop_last()[j].path(), q));
                }
                lemma_position_is(s, q, kd);
                assert(position_of(s, q) == kd);
                let kr = position_of(rest, q);
                assert(r[kr] == rest[kr]);
                assert(position_of(r, q) == kr);
            } else {
                assert forall|j: int| 0 <= j < s.len() - 1 implies !same_path(#[trigger] s[j].path(), q) by {
                    assert(s[j] == s.drop_last()[j]);
                    assert(!same_path(s.drop_last()[j].path(), q));
                }
                if same_path(s.last().path(), p) {
                    assert(r == rest);
                    if position_of(s, q) >= 0 {
                        assert(!same_path(s[s.len() - 1].path(), q));
                        assert(position_of(s, q) == s.len() - 1);
                    }
                } else {
                    assert(r == rest.push(s.last()));
                    if position_of(rest, q) >= 0 {
                        assert(r[position_of(rest, q)] == rest[position_of(rest, q)]);
                    }
                    if same_path(s.last().path(), q) {
                        lemma_position_is(s, q, s.len() - 1);
                        assert(position_of(s, q) == s.len() - 1);
                        assert(position_of(rest, q) == -1);
                        assert forall|j: int| 0 <= j < r.len() - 1 implies !same_path(#[trigger] r[j].path(), q) by {
                            assert(r[j] == rest[j]);
                            assert(!same_path(rest[j].path(), q));
                        }
                        assert(r[r.len() - 1] == s.last());
                        lemma_position_is(r, q, r.len() - 1);
                        assert(position_of(r, q) == r.len() - 1);
                    } else {
                        assert(position_of(s, q) == -1);
                        assert(position_of(r, q) == -1);
                    }
                }
            }
        }
    }
}

proof fn lemma_without_path_unique(s: Seq<ItemView>, p: Seq<u8>)
    requires
        unique_paths(s),
    ensures
        unique_paths(without_path(s, p)),
    decreases s.len(),
{
    if s.len() > 0 {
        assert(unique_paths(s.drop_last()));
        lemma_without_path_unique(s.drop_last(), p);
        law_without_path(s.drop_last(), p);
        let rest = without_path(s.drop_last(), p);
        if !same_path(s.last().path(), p) {
            let r = rest.push(s.last());
            assert forall|i: int, j: int| 0 <= i < j < r.len() implies !same_path(#[trigger] r[i].path(), #[trigger] r[j].path()) by {
                if j == rest.len() {
                    let k = choose|k: int| 0 <= k < s.drop_last().len() && s.drop_last()[k] == rest[i];
                    assert(s[k] == r[i]);
                    assert(r[j] == s[s.len() - 1]);
                } else {
                    assert(r[i] == rest[i] && r[j] == rest[j]);
                }
            }
        }
    }
}

/// The index in `s` of the item that stands at index `k` after moving the
/// item at `from` to `to`.
pub open spec fn moved_source(from: int, to: int, k: int) -> int {
    if k == to {
        from
    } else {
        let r = if k < to { k } else { k - 1 };
        if r < from { r } else { r + 1 }
    }
}

/// Moving an item puts every item at a place: the item at each new index is
/// the item at `moved_source` of it, and distinct new indices come from
/// distinct old ones.
pub proof fn law_move_is_permutation(s: Seq<ItemView>, from: int, to: int)
    requires
        0 <= from < s.len(),
        0 <= to < s.len(),
    ensures
        s.remove(from).insert(to, s[from]).len() == s.len(),
        forall|k: int| 0 <= k < s.len() ==> 0 <= moved_source(from, to, k) < s.len()
            && #[trigger] s.remove(from).insert(to, s[from])[k] == s[moved_source(from, to, k)],
        forall|i: int, j: int| 0 <= i < s.len() && 0 <= j < s.len() && i != j
            ==> moved_source(from, to, i) != moved_source(from, to, j),
        s.remove(from).insert(to, s[from]).to_multiset() == s.to_multiset(),
{
    broadcast use vstd::seq_lib::to_multiset_remove, vstd::seq_lib::to_multiset_insert;
    broadcast use vstd::multiset::group_multiset_axioms;
    let m = s.remove(from).insert(to, s[from]);
    assert forall|k: int| 0 <= k < s.len() implies 0 <= moved_source(from, to, k) < s.len()
        && #[trigger] m[k] == s[moved_source(from, to, k)] by {
    }
    assert(s.to_multiset().remove(s[from]).insert(s[from]) =~= s.to_multiset()) by {
        assert(s.to_multiset().count(s[from]) > 0) by {
            vstd::seq_lib::to_multiset_contains(s, s[from]);
        }
    }
}

/// Moving keeps the paths distinct.
pub proof fn law_move_keeps_unique(s: Seq<ItemView>, from: int, to: int)
    requires
        0 <= from < s.len(),
        0 <= to < s.len(),
        unique_paths(s),
    ensures
        unique_paths(s.remove(from).insert(to, s[from])),
{
    law_move_is_permutation(s, from, to);
    let m = s.remove(from).insert(to, s[from]);
    assert forall|i: int, j: int| 0 <= i < j < m.len() implies !same_path(#[trigger] m[i].path(), #[trigger] m[j].path()) by {
        let a = moved_source(from, to, i);
        let b = moved_source(from, to, j);
        assert(m[i] == s[a] && m[j] == s[b]);
        if a < b {
            assert(!same_path(s[a].path(), s[b].path()));
        } else {
            assert(!same_path(s[b].path(), s[a].path()));
        }
    }
}

/// Moving an item and moving it back gives the items as they were.
pub proof fn law_move_round_trip(s: Seq<ItemView>, from: int, to: int)
    requires
        0 <= from < s.len(),
        0 <= to < s.len(),
    ensures
        ({
            let m = s.remove(from).insert(to, s[from]);
            m.remove(to).insert(from, m[to]) == s
        }),
{
    let m = s.remove(from).insert(to, s[from]);
    assert(m.remove(to) =~= s.remove(from));
    assert(m.remove(to).insert(from, m[to]) =~= s);
}

/// Adding keeps a well-formed selection well formed.
pub proof fn law_add_keeps_well_formed(before: SelectionView, adds: Seq<ItemView>, defaults: ArchiveDefaults)
    requires
        before.well_formed(),
    ensures
        from_parts_spec(merge(before.items(), adds), before.method(), before.settings(), defaults).well_formed(),
{
    lemma_merge_unique(before.items(), adds);
}

/// Removing keeps a well-formed selection well formed.
pub proof fn law_remove_keeps_well_formed(before: SelectionView, p: Seq<u8>, defaults: ArchiveDefaults)
    requires
        before.well_formed(),
    ensures
        from_parts_spec(without_path(before.items(), p), before.method(), before.settings(), defaults).well_formed(),
{
    lemma_without_path_unique(before.items(), p);
}

/// Changing the way of sending keeps a well-formed selection well formed.
pub proof fn law_send_method_keeps_well_formed(
    before: SelectionView,
    method: SendMethod,
    defaults: ArchiveDefaults,
)
    requires
        before.well_formed(),
    ensures
        from_parts_spec(before.items(), method, before.settings(), defaults).well_formed(),
{
}

/// An archive's name ends with a dot and the extension of its format.
pub proof fn law_archive_name_extension(items: Seq<ItemView>, format: ArchiveFormat)
    ensures
        ({
            let name = archive_name_of(items, format);
            let tail = "."@ + extension_of(format);
            name.len() >= tail.len() && name.subrange(name.len() - tail.len(), name.len() as int) == tail
        }),
{
    let name = archive_name_of(items, format);
    let tail = "."@ + extension_of(format);
    assert(name.subrange(name.len() - tail.len(), name.len() as int) =~= tail);
}

/// The files of a prefix of the items never weigh more than all of them.
pub proof fn law_sum_prefix(s: Seq<ItemView>, k: int)
    requires
        0 <= k <= s.len(),
    ensures
        sum_sizes(s.take(k)) <= sum_sizes(s),
    decreases s.len(),
{
    if k < s.len() {
        assert(s.take(k) =~= s.drop_last().take(k));
        law_sum_prefix(s.drop_last(), k);
    } else {
        assert(s.take(k) =~= s);
    }
}

/// What a well-formed selection is, as its users see it: it is empty
/// exactly when it holds no item, a selection holding a folder is
/// archived, it has archive settings exactly when it is archived, and no
/// path occurs twice. Every change of a selection keeps it well formed
/// (the laws above), and the empty selection is well formed.
pub proof fn law_well_formed_shape(v: SelectionView)
    requires
        v.well_formed(),
    ensures
        (v is Empty) <==> v.items().len() == 0,
        has_folder(v.items()) ==> v.method() == SendMethod::Archive,
        (v.method() == SendMethod::Archive) <==> v.settings() is Some,
        unique_paths(v.items()),
        SelectionView::Empty.well_formed(),
{
}

/// One change of a selection, as one of its mutators makes it: `add`,
/// `set_send_method`, `remove`, `move_item`, and the four archive setters.
pub enum SelectionChange {
    Add(Seq<ItemView>, ArchiveDefaults),
    SetSendMethod(SendMethod, ArchiveDefaults),
    Remove(Seq<u8>, ArchiveDefaults),
    Move(int, int),
    SetFormat(ArchiveFormat),
    SetName(Seq<char>),
    SetCompression(CompressionLevel),
    SetOption(ArchiveOption, bool),
}

/// Whether the mutator of a change accepts the selection: moving needs
/// separate sending and two indices within the items; the archive setters
/// need an archive.
pub open spec fn change_allowed(v: SelectionView, c: SelectionChange) -> bool {
    match c {
        SelectionChange::Move(from, to) => v is Separate && 0 <= from < v.items().len()
            && 0 <= to < v.items().len(),
        SelectionChange::SetFormat(_) => v is Archive,
        SelectionChange::SetName(_) => v is Archive,
        SelectionChange::SetCompression(_) => v is Archive,
        SelectionChange::SetOption(_, _) => v is Archive,
        _ => true,
    }
}

/// The selection after a change, as the change's mutator states it.
pub open spec fn changed(v: SelectionView, c: SelectionChange) -> SelectionView {
    let items = v.items();
    match c {
        SelectionChange::Add(adds, defaults) => if adds.len() == 0 {
            v
        } else {
            from_parts_spec(merge(items, adds), v.method(), v.settings(), defaults)
        },
        SelectionChange::SetSendMethod(method, defaults) => from_parts_spec(items, method, v.settings(), defaults),
        SelectionChange::Remove(p, defaults) => from_parts_spec(without_path(items, p), v.method(), v.settings(), defaults),
        SelectionChange::Move(from, to) => SelectionView::Separate(items.remove(from).insert(to, items[from])),
        SelectionChange::SetFormat(format) => SelectionView::Archive {
            items,
            settings: SettingsView { format, archive_name: archive_name_of(items, format), ..v.settings().unwrap() },
        },
        SelectionChange::SetName(name) => SelectionView::Archive {
            items,
            settings: SettingsView { archive_name: name, ..v.settings().unwrap() },
        },
        SelectionChange::SetCompression(compression) => SelectionView::Archive {
            items,
            settings: SettingsView { compression, ..v.settings().unwrap() },
        },
        SelectionChange::SetOption(option, active) => SelectionView::Archive {
            items,
            settings: match option {
                ArchiveOption::IncludeSelectedFolder => SettingsView {
                    include_selected_folder: active,
                    ..v.settings().unwrap()
                },
                ArchiveOption::IncludeHiddenFiles => SettingsView { include_hidden_files: active, ..v.settings().unwrap() },
                ArchiveOption::FollowSymlinks => SettingsView { follow_symlinks: active, ..v.settings().unwrap() },
            },
        },
    }
}

/// The selection that a sequence of changes makes from the empty one.
pub open spec fn changes_applied(changes: Seq<SelectionChange>) -> SelectionView
    decreases changes.len(),
{
    if changes.len() == 0 {
        SelectionView::Empty
    } else {
        changed(changes_applied(changes.drop_last()), changes.last())
    }
}

/// Whether each change of a sequence, made from the empty selection, is
/// accepted by its mutator when its turn comes.
pub open spec fn changes_allowed(changes: Seq<SelectionChange>) -> bool {
    forall|k: int| 0 <= k < changes.len() ==> change_allowed(changes_applied(#[trigger] changes.take(k)), changes[k])
}

/// Every selection reached from the empty one by changes that their
/// mutators accept is well formed: it is empty exactly when it holds no
/// item, a selection holding a folder is archived, it has archive settings
/// exactly when it is archived, and no path occurs twice.
pub proof fn law_reachable_well_formed(changes: Seq<SelectionChange>)
    requires
        changes_allowed(changes),
    ensures
        changes_applied(changes).well_formed(),
        (changes_applied(changes) is Empty) <==> changes_applied(changes).items().len() == 0,
        has_folder(changes_applied(changes).items()) ==> changes_applied(changes).method() == SendMethod::Archive,
        (changes_applied(changes).method() == SendMethod::Archive) <==> changes_applied(changes).settings() is Some,
        unique_paths(changes_applied(changes).items()),
    decreases changes.len(),
{
    if changes.len() > 0 {
        let earlier = changes.drop_last();
        assert forall|k: int| 0 <= k < earlier.len() implies change_allowed(
            changes_applied(#[trigger] earlier.take(k)),
            earlier[k],
        ) by {
            assert(earlier.take(k) =~= changes.take(k));
            assert(change_allowed(changes_applied(changes.take(k)), changes[k]));
        }
        law_reachable_well_formed(earlier);
        let before = changes_applied(earlier);
        assert(changes.take(earlier.len() as int) =~= earlier);
        assert(change_allowed(before, changes.last()));
        match changes.last() {
            SelectionChange::Add(adds, defaults) => {
                law_add_keeps_well_formed(before, adds, defaults);
            },
            SelectionChange::SetSendMethod(method, defaults) => {
                law_send_method_keeps_well_formed(before, method, defaults);
            },
            SelectionChange::Remove(p, defaults) => {
                law_remove_keeps_well_formed(before, p, defaults);
            },
            SelectionChange::Move(from, to) => {
                let s = before.items();
                law_move_keeps_unique(s, from, to);
                law_move_is_permutation(s, from, to);
                let m = s.remove(from).insert(to, s[from]);
                if has_folder(m) {
                    let k = choose|k: int| 0 <= k < m.len() && (#[trigger] m[k]).is_folder();
                    assert(s[moved_source(from, to, k)].is_folder());
                }
            },
            _ => {},
        }
        law_well_formed_shape(changes_applied(changes));
    }
}

/// Adding, removing and changing the way of sending keep what the user set
/// on an archive: when an archive stays an archive, its format,
/// compression and three options are those it had, and its name is made
/// anew from its items in that format.
pub proof fn law_archive_keeps_its_settings(before: SelectionView, c: SelectionChange)
    requires
        before is Archive,
        c is Add || c is Remove || c is SetSendMethod,
        changed(before, c) is Archive,
    ensures
        ({
            let was = before.settings()->0;
            let now = changed(before, c).settings()->0;
            &&& now.format == was.format
            &&& now.compression == was.compression
            &&& now.include_selected_folder == was.include_selected_folder
            &&& now.include_hidden_files == was.include_hidden_files
            &&& now.follow_symlinks == was.follow_symlinks
            &&& (c is Add ==> c->Add_0.len() > 0) ==> now.archive_name == archive_name_of(
                changed(before, c).items(),
                was.format,
            )
        }),
{
}

/// A selection that becomes an archive without having been one takes the
/// defaults' format and compression, includes the selected folder and
/// hidden files, follows no symbolic link, and is named after its items in
/// that format.
pub proof fn law_new_archive_takes_the_defaults(before: SelectionView, c: SelectionChange, defaults: ArchiveDefaults)
    requires
        !(before is Archive),
        c == SelectionChange::Add(c->Add_0, defaults) || c == SelectionChange::Remove(c->Remove_0, defaults)
            || c == SelectionChange::SetSendMethod(c->SetSendMethod_0, defaults),
        changed(before, c) is Archive,
    ensures
        ({
            let now = changed(before, c).settings()->0;
            &&& now.format == defaults.format
            &&& now.compression == defaults.compression
            &&& now.include_selected_folder
            &&& now.include_hidden_files
            &&& !now.follow_symlinks
            &&& now.archive_name == archive_name_of(changed(before, c).items(), defaults.format)
        }),
{
}

} // verus!
