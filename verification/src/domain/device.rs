//! The devices of the tailnet that can receive files, and which one is the
//! target of the next transfer.

use vstd::prelude::*;
use crate::text::{chars_equal, chars_of};

verus! {

/// A Tailscale IP address.
#[derive(Debug, Clone, Copy, PartialEq, Eq)]
pub enum IpAddress {
    V4([u8; 4]),
    V6([u16; 8]),
}

#[derive(Debug, PartialEq, Eq)]
pub enum Connection {
    Offline,
    Direct,
    Derp(String),
    PeerRelay(String),
}

pub enum ConnectionView {
    Offline,
    Direct,
    Derp(Seq<char>),
    PeerRelay(Seq<char>),
}

impl View for Connection {
    type V = ConnectionView;

    open spec fn view(&self) -> ConnectionView {
        match self {
            Connection::Offline => ConnectionView::Offline,
            Connection::Direct => ConnectionView::Direct,
            Connection::Derp(r) => ConnectionView::Derp(r@),
            Connection::PeerRelay(r) => ConnectionView::PeerRelay(r@),
        }
    }
}

impl Clone for Connection {
    fn clone(&self) -> (r: Self)
        ensures
            r@ == self@,
    {
        match self {
            Connection::Offline => Connection::Offline,
            Connection::Direct => Connection::Direct,
            Connection::Derp(r) => Connection::Derp(r.clone()),
            Connection::PeerRelay(r) => Connection::PeerRelay(r.clone()),
        }
    }
}

impl Connection {
    pub fn is_online(&self) -> (r: bool)
        ensures
            r == !(self@ is Offline),
    {
        match self {
            Connection::Offline => false,
            _ => true,
        }
    }
}

#[derive(Debug, PartialEq, Eq)]
pub struct Device {
    pub id: String,
    pub name: String,
    pub platform: String,
    pub address: IpAddress,
    pub connection: Connection,
}

pub struct DeviceView {
    pub id: Seq<char>,
    pub name: Seq<char>,
    pub platform: Seq<char>,
    pub address: IpAddress,
    pub connection: ConnectionView,
}

impl DeviceView {
    pub open spec fn online(self) -> bool {
        !(self.connection is Offline)
    }
}

impl View for Device {
    type V = DeviceView;

    open spec fn view(&self) -> DeviceView {
        DeviceView {
            id: self.id@,
            name: self.name@,
            platform: self.platform@,
            address: self.address,
            connection: self.connection@,
        }
    }
}

impl Clone for Device {
    fn clone(&self) -> (r: Self)
        ensures
            r@ == self@,
    {
        Device {
            id: self.id.clone(),
            name: self.name.clone(),
            platform: self.platform.clone(),
            address: self.address,
            connection: self.connection.clone(),
        }
    }
}

impl Device {
    pub fn is_online(&self) -> (r: bool)
        ensures
            r == self@.online(),
    {
        self.connection.is_online()
    }
}

pub open spec fn devices_view(v: Seq<Device>) -> Seq<DeviceView> {
    v.map_values(|d: Device| d@)
}

/// The lower-case form of a text (`str::to_lowercase`).
pub uninterp spec fn lowercase(s: Seq<char>) -> Seq<char>;

/// `str::to_lowercase`: the lower-case form of the text.
#[verifier::external_body]
fn lowercase_text(s: &str) -> (r: String)
    ensures
        r@ == lowercase(s@),
{
    s.to_lowercase()
}

/// Lexicographic order of texts by code point; a proper prefix comes first.
pub open spec fn text_less(a: Seq<char>, b: Seq<char>) -> bool
    decreases a.len(),
{
    if a.len() == 0 {
        b.len() > 0
    } else if b.len() == 0 {
        false
    } else if a[0] < b[0] {
        true
    } else if a[0] > b[0] {
        false
    } else {
        text_less(a.drop_first(), b.drop_first())
    }
}

/// What devices are ordered by: online ones first, then by name without
/// regard to case, then by identifier.
pub struct DeviceKey {
    pub online: bool,
    pub name: Seq<char>,
    pub id: Seq<char>,
}

pub open spec fn key_of(d: DeviceView) -> DeviceKey {
    DeviceKey { online: d.online(), name: lowercase(d.name), id: d.id }
}

pub open spec fn key_less(a: DeviceKey, b: DeviceKey) -> bool {
    (a.online && !b.online) || (a.online == b.online && (text_less(a.name, b.name) || (a.name == b.name
        && text_less(a.id, b.id))))
}

/// The order in which a list shows devices: by key, and devices with equal
/// keys in the order they were given (`i` and `j` are their given places).
pub open spec fn shown_before(a: DeviceView, i: int, b: DeviceView, j: int) -> bool {
    key_less(key_of(a), key_of(b)) || (key_of(a) == key_of(b) && i < j)
}

proof fn lemma_text_less_irreflexive(a: Seq<char>)
    ensures
        !text_less(a, a),
    decreases a.len(),
{
    if a.len() > 0 {
        lemma_text_less_irreflexive(a.drop_first());
    }
}

proof fn lemma_text_less_transitive(a: Seq<char>, b: Seq<char>, c: Seq<char>)
    requires
        text_less(a, b),
        text_less(b, c),
    ensures
        text_less(a, c),
    decreases a.len(),
{
    if a.len() > 0 && b.len() > 0 && c.len() > 0 && a[0] == b[0] && b[0] == c[0] {
        lemma_text_less_transitive(a.drop_first(), b.drop_first(), c.drop_first());
    }
}

proof fn lemma_text_less_total(a: Seq<char>, b: Seq<char>)
    ensures
        a == b || text_less(a, b) || text_less(b, a),
    decreases a.len(),
{
    if a.len() > 0 && b.len() > 0 {
        if a[0] == b[0] {
            lemma_text_less_total(a.drop_first(), b.drop_first());
            if a.drop_first() == b.drop_first() {
                assert(a.drop_first().len() == b.drop_first().len());
                assert(a.len() == b.len());
                assert forall|i: int| 0 <= i < a.len() implies a[i] == b[i] by {
                    if i > 0 {
                        assert(a[i] == a.drop_first()[i - 1]);
                        assert(b[i] == b.drop_first()[i - 1]);
                    }
                }
                assert(a =~= b);
            }
        }
    } else if a.len() == 0 && b.len() == 0 {
        assert(a =~= b);
    }
}

proof fn lemma_text_less_asymmetric(a: Seq<char>, b: Seq<char>)
    requires
        text_less(a, b),
    ensures
        !text_less(b, a),
{
    if text_less(b, a) {
        lemma_text_less_transitive(a, b, a);
        lemma_text_less_irreflexive(a);
    }
}

/// `key_less` is a strict total order on keys.
pub proof fn lemma_key_order(a: DeviceKey, b: DeviceKey, c: DeviceKey)
    ensures
        !key_less(a, a),
        key_less(a, b) ==> !key_less(b, a),
        key_less(a, b) && key_less(b, c) ==> key_less(a, c),
        a == b || key_less(a, b) || key_less(b, a),
{
    lemma_text_less_irreflexive(a.name);
    lemma_text_less_irreflexive(a.id);
    lemma_text_less_total(a.name, b.name);
    lemma_text_less_total(a.id, b.id);
    if text_less(a.name, b.name) {
        lemma_text_less_asymmetric(a.name, b.name);
    }
    if text_less(a.id, b.id) {
        lemma_text_less_asymmetric(a.id, b.id);
    }
    if text_less(a.name, b.name) && text_less(b.name, c.name) {
        lemma_text_less_transitive(a.name, b.name, c.name);
    }
    if text_less(a.id, b.id) && text_less(b.id, c.id) {
        lemma_text_less_transitive(a.id, b.id, c.id);
    }
}

/// The key of a device as held while sorting.
struct ExecKey {
    online: bool,
    name: Vec<char>,
    id: Vec<char>,
}

impl ExecKey {
    spec fn key(&self) -> DeviceKey {
        DeviceKey { online: self.online, name: self.name@, id: self.id@ }
    }
}

fn make_key(d: &Device) -> (k: ExecKey)
    ensures
        k.key() == key_of(d@),
{
    let lower = lowercase_text(d.name.as_str());
    ExecKey {
        online: d.is_online(),
        name: chars_of(lower.as_str()),
        id: chars_of(d.id.as_str()),
    }
}

fn chars_less(a: &Vec<char>, b: &Vec<char>) -> (r: bool)
    ensures
        r == text_less(a@, b@),
{
    let mut i: usize = 0;
    assert(a@.subrange(0, a@.len() as int) =~= a@);
    assert(b@.subrange(0, b@.len() as int) =~= b@);
    while i < a.len() && i < b.len()
        invariant
            i <= a@.len(),
            i <= b@.len(),
            text_less(a@, b@) == text_less(a@.subrange(i as int, a@.len() as int), b@.subrange(i as int, b@.len() as int)),
        decreases a@.len() - i,
    {
        let x = a[i];
        let y = b[i];
        let ghost sa = a@.subrange(i as int, a@.len() as int);
        let ghost sb = b@.subrange(i as int, b@.len() as int);
        assert(sa[0] == x && sb[0] == y);
        if x < y {
            return true;
        }
        if x > y {
            return false;
        }
        assert(sa.drop_first() =~= a@.subrange(i + 1, a@.len() as int));
        assert(sb.drop_first() =~= b@.subrange(i + 1, b@.len() as int));
        i = i + 1;
    }
    i == a.len() && i < b.len()
}

fn exec_key_less(a: &ExecKey, b: &ExecKey) -> (r: bool)
    ensures
        r == key_less(a.key(), b.key()),
{
    if a.online && !b.online {
        return true;
    }
    if a.online != b.online {
        return false;
    }
    if chars_less(&a.name, &b.name) {
        return true;
    }
    chars_equal(&a.name, &b.name) && chars_less(&a.id, &b.id)
}

/// The devices that are online, in their order.
pub open spec fn online_only(v: Seq<DeviceView>) -> Seq<DeviceView>
    decreases v.len(),
{
    if v.len() == 0 {
        v
    } else {
        let rest = online_only(v.drop_last());
        if v.last().online() { rest.push(v.last()) } else { rest }
    }
}

/// The online devices are exactly the devices that are online, kept in
/// the order of the list: the standard filter of the list by `online`.
pub proof fn law_online_only_is_the_online_filter(v: Seq<DeviceView>)
    ensures
        online_only(v) == v.filter(|d: DeviceView| d.online()),
    decreases v.len(),
{
    reveal(Seq::filter);
    if v.len() > 0 {
        law_online_only_is_the_online_filter(v.drop_last());
    }
}

/// The first index of a device with identifier `id`, or -1.
pub open spec fn index_of_id(v: Seq<DeviceView>, id: Seq<char>, start: int) -> int
    decreases v.len() - start,
{
    if start < 0 || start >= v.len() {
        -1
    } else if v[start].id == id {
        start
    } else {
        index_of_id(v, id, start + 1)
    }
}

/// Some entry of `order` is `m`.
pub open spec fn lists_place(order: Seq<int>, m: int) -> bool {
    exists|k: int| 0 <= k < order.len() && order[k] == m
}

spec fn lists_index(order: Seq<usize>, m: int) -> bool {
    exists|k: int| 0 <= k < order.len() && order[k] == m
}

/// Places in `input` listed in the order in which a list shows them: each
/// place once, every pair in `shown_before` order.
pub open spec fn is_shown_order(input: Seq<DeviceView>, order: Seq<int>) -> bool {
    &&& order.len() == input.len()
    &&& forall|k: int| 0 <= k < order.len() ==> 0 <= #[trigger] order[k] < input.len()
    &&& forall|k: int, l: int| 0 <= k < l < order.len() ==> #[trigger] order[k] != #[trigger] order[l]
    &&& forall|m: int| 0 <= m < input.len() ==> #[trigger] lists_place(order, m)
    &&& forall|k: int, l: int| 0 <= k < l < order.len()
        ==> shown_before(input[#[trigger] order[k]], order[k], input[#[trigger] order[l]], order[l])
}

pub struct DeviceListView {
    pub devices: Seq<DeviceView>,
    pub selected: Option<Seq<char>>,
}

#[derive(Debug)]
pub struct DeviceList {
    devices: Vec<Device>,
    selected_id: Option<String>,
}

impl View for DeviceList {
    type V = DeviceListView;

    closed spec fn view(&self) -> DeviceListView {
        DeviceListView {
            devices: devices_view(self.devices@),
            selected: match &self.selected_id {
                Some(s) => Some(s@),
                None => None,
            },
        }
    }
}

/// Online devices come before offline ones.
pub open spec fn online_first(v: Seq<DeviceView>) -> bool {
    forall|i: int, j: int| 0 <= i < j < v.len() && (#[trigger] v[j]).online() ==> (#[trigger] v[i]).online()
}

/// The selected identifier, when there is one, names an online device of
/// the list.
pub open spec fn selection_valid(v: DeviceListView) -> bool {
    match v.selected {
        Some(id) => exists|i: int| 0 <= i < v.devices.len() && (#[trigger] v.devices[i]).id == id
            && v.devices[i].online(),
        None => true,
    }
}

impl DeviceList {
    #[verifier::type_invariant]
    closed spec fn inv(self) -> bool {
        selection_valid(self@) && online_first(self@.devices)
    }

    /// Sorts `devices` for showing: online first, then by name without regard
    /// to case, then by identifier, keeping the given order of equal ones.
    /// The first online device, if any, becomes the selected one.
    pub fn new(devices: Vec<Device>) -> (r: DeviceList)
        ensures
            exists|order: Seq<int>| #[trigger] is_shown_order(devices_view(devices@), order)
                && r@.devices == order.map_values(|k: int| devices_view(devices@)[k]),
            r@.selected == if r@.devices.len() > 0 && r@.devices[0].online() {
                Some(r@.devices[0].id)
            } else {
                None::<Seq<char>>
            },
    {
        let ghost input = devices_view(devices@);
        let n = devices.len();
        let mut keys: Vec<ExecKey> = Vec::new();
        let mut i: usize = 0;
        while i < n
            invariant
                n == devices@.len(),
                input == devices_view(devices@),
                i <= n,
                keys@.len() == i,
                forall|k: int| 0 <= k < i ==> (#[trigger] keys@[k]).key() == key_of(input[k]),
            decreases n - i,
        {
            assert(input[i as int] == devices@[i as int]@);
            keys.push(make_key(&devices[i]));
            i = i + 1;
        }
        // Insertion sort of the places, by key and then by place.
        let mut order: Vec<usize> = Vec::new();
        let mut i: usize = 0;
        while i < n
            invariant
                n == devices@.len(),
                input == devices_view(devices@),
                keys@.len() == n,
                forall|k: int| 0 <= k < n ==> (#[trigger] keys@[k]).key() == key_of(input[k]),
                i <= n,
                order@.len() == i,
                forall|k: int| 0 <= k < order@.len() ==> #[trigger] order@[k] < i,
                forall|k: int, l: int| 0 <= k < l < order@.len() ==> #[trigger] order@[k] != #[trigger] order@[l],
                forall|m: int| 0 <= m < i ==> #[trigger] lists_index(order@, m),
                forall|k: int, l: int| 0 <= k < l < order@.len()
                    ==> shown_before(input[#[trigger] order@[k] as int], order@[k] as int, input[#[trigger] order@[l] as int], order@[l] as int),
            decreases n - i,
        {
            let mut pos: usize = order.len();
            while pos > 0 && exec_key_less(&keys[i], &keys[order[pos - 1]])
                invariant
                    i < n,
                    keys@.len() == n,
                    order@.len() == i,
                    forall|k: int| 0 <= k < order@.len() ==> #[trigger] order@[k] < i,
                    pos <= order@.len(),
                    forall|k: int| pos <= k < order@.len() ==> key_less(key_of(input[i as int]), key_of(input[#[trigger] order@[k] as int])),
                    forall|k: int| 0 <= k < n ==> (#[trigger] keys@[k]).key() == key_of(input[k]),
                decreases pos,
            {
                pos = pos - 1;
            }
            let ghost before = order@;
            order.insert(pos, i);
            proof {
                assert forall|m: int| 0 <= m < i + 1 implies #[trigger] lists_index(order@, m) by {
                    if m == i {
                        assert(order@[pos as int] == m);
                    } else {
                        assert(lists_index(before, m));
                        let k = choose|k: int| 0 <= k < before.len() && #[trigger] before[k] == m;
                        if k < pos {
                            assert(order@[k] == m);
                        } else {
                            assert(order@[k + 1] == m);
                        }
                    }
                }
                assert forall|k: int, l: int| 0 <= k < l < order@.len()
                    implies shown_before(input[#[trigger] order@[k] as int], order@[k] as int, input[#[trigger] order@[l] as int], order@[l] as int) by {
                    let a = order@[k] as int;
                    let b = order@[l] as int;
                    if k == pos {
                        // The new place comes before every later place.
                        assert(b == before[l - 1]);
                        assert(key_less(key_of(input[i as int]), key_of(input[b])));
                    } else if l == pos {
                        assert(a == before[k]);
                        let c = before[pos - 1] as int;
                        lemma_key_order(key_of(input[i as int]), key_of(input[c]), key_of(input[c]));
                        lemma_key_order(key_of(input[a]), key_of(input[c]), key_of(input[i as int]));
                        if k < pos - 1 {
                            assert(shown_before(input[a], a, input[c], c));
                        }
                    } else {
                        let k0 = if k < pos { k } else { k - 1 };
                        let l0 = if l < pos { l } else { l - 1 };
                        assert(a == before[k0] && b == before[l0]);
                        assert(k0 < l0);
                    }
                }
            }
            i = i + 1;
        }
        // Lay the devices out in that order.
        let mut sorted: Vec<Device> = Vec::new();
        let mut k: usize = 0;
        while k < n
            invariant
                n == devices@.len(),
                input == devices_view(devices@),
                order@.len() == n,
                forall|j: int| 0 <= j < n ==> #[trigger] order@[j] < n,
                k <= n,
                sorted@.len() == k,
                forall|j: int| 0 <= j < k ==> (#[trigger] sorted@[j])@ == input[order@[j] as int],
            decreases n - k,
        {
            let d = devices[order[k]].clone();
            assert(input[order@[k as int] as int] == devices@[order@[k as int] as int]@);
            sorted.push(d);
            k = k + 1;
        }
        let ghost ord = order@.map_values(|x: usize| x as int);
        proof {
            assert forall|m: int| 0 <= m < input.len() implies #[trigger] lists_place(ord, m) by {
                assert(lists_index(order@, m));
                let k = choose|k: int| 0 <= k < order@.len() && #[trigger] order@[k] == m;
                assert(ord[k] == m);
            }
            assert(is_shown_order(input, ord));
            assert(devices_view(sorted@) =~= ord.map_values(|x: int| input[x]));
        }
        let selected_id = if n > 0 && sorted[0].is_online() {
            Some(sorted[0].id.clone())
        } else {
            None
        };
        proof {
            if n > 0 {
                assert(devices_view(sorted@)[0] == sorted@[0]@);
            }
        }
        DeviceList { devices: sorted, selected_id }
    }

    pub fn devices(&self) -> (r: &[Device])
        ensures
            devices_view(r@) == self@.devices,
    {
        self.devices.as_slice()
    }

    /// The selected device: the first with the selected identifier.
    pub fn selected(&self) -> (r: Option<&Device>)
        ensures
            match self@.selected {
                Some(id) => r.is_some() && r.unwrap()@ == self@.devices[index_of_id(self@.devices, id, 0)]
                    && r.unwrap()@.online() && r.unwrap()@.id == id,
                None => r.is_none(),
            },
    {
        match self.selected_index() {
            Some(k) => {
                proof {
                    use_type_invariant(self);
                    assert(self@.devices[k as int] == self.devices@[k as int]@);
                }
                Some(&self.devices[k])
            },
            None => None,
        }
    }

    /// The place of the selected device in the list.
    pub fn selected_index(&self) -> (r: Option<usize>)
        ensures
            match self@.selected {
                Some(id) => r.is_some() && r.unwrap() as int == index_of_id(self@.devices, id, 0)
                    && 0 <= r.unwrap() < self@.devices.len() && self@.devices[r.unwrap() as int].id == id
                    && self@.devices[r.unwrap() as int].online(),
                None => r.is_none(),
            },
    {
        proof { use_type_invariant(self); }
        match &self.selected_id {
            None => None,
            Some(id) => {
                let ghost v = self@.devices;
                assert(self@.devices == v);
                let ghost w = choose|w: int| 0 <= w < v.len() && (#[trigger] v[w]).id == id@ && v[w].online();
                let mut i: usize = 0;
                while i < self.devices.len()
                    invariant
                        v == devices_view(self.devices@),
                        v == self@.devices,
                        self@.selected == Some(id@),
                        i <= self.devices@.len(),
                        0 <= w < v.len(),
                        v[w].id == id@,
                        v[w].online(),
                        i <= w,
                        index_of_id(v, id@, 0) == index_of_id(v, id@, i as int),
                        forall|j: int| 0 <= j < i ==> (#[trigger] v[j]).id != id@,
                        online_first(v),
                    decreases self.devices@.len() - i,
                {
                    assert(v[i as int] == self.devices@[i as int]@);
                    if self.devices[i].id == *id {
                        proof {
                            // Online devices lead the list, so the first device with this
                            // identifier is online too.
                            assert(v[i as int].id == id@);
                            assert(index_of_id(v, id@, i as int) == i);
                            if (i as int) < w {
                                assert(v[w].online());
                                assert(v[i as int].online());
                            }
                            assert(v[i as int].online());
                            assert(self@.selected == Some(id@));
                        }
                        return Some(i);
                    }
                    i = i + 1;
                }
                None
            },
        }
    }

    /// Makes the device with identifier `selected_id` the target.
    pub fn select(&mut self, selected_id: &str)
        requires
            exists|i: int| 0 <= i < old(self)@.devices.len() && (#[trigger] old(self)@.devices[i]).id
                == selected_id@ && old(self)@.devices[i].online(),
        ensures
            final(self)@ == (DeviceListView { selected: Some(selected_id@), ..old(self)@ }),
    {
        proof { use_type_invariant(&*self); }
        let id = selected_id.to_owned();
        self.selected_id = Some(id);
        assert(self@.devices == old(self)@.devices);
    }

    /// The list as shown: all devices, or only the online ones; the selection
    /// stays.
    pub fn with_offline_visible(&self, show_offline: bool) -> (r: DeviceList)
        ensures
            show_offline ==> r@ == self@,
            !show_offline ==> r@ == (DeviceListView {
                devices: online_only(self@.devices),
                selected: self@.selected,
            }),
    {
        proof { use_type_invariant(self); }
        let selected_id = match &self.selected_id {
            Some(s) => Some(s.clone()),
            None => None,
        };
        if show_offline {
            let mut devices: Vec<Device> = Vec::new();
            let mut i: usize = 0;
            while i < self.devices.len()
                invariant
                    i <= self.devices@.len(),
                    devices_view(devices@) == devices_view(self.devices@).take(i as int),
                decreases self.devices@.len() - i,
            {
                let d = self.devices[i].clone();
                let ghost before = devices@;
                devices.push(d);
                assert(devices_view(devices@) =~= devices_view(before).push(d@));
                assert(devices_view(self.devices@).take(i + 1) =~= devices_view(self.devices@).take(i as int).push(self.devices@[i as int]@));
                i = i + 1;
            }
            assert(devices_view(self.devices@).take(self.devices@.len() as int) =~= devices_view(self.devices@));
            return DeviceList { devices, selected_id };
        }
        let ghost v = self@.devices;
        let mut devices: Vec<Device> = Vec::new();
        let mut i: usize = 0;
        assert(v.take(0) =~= Seq::<DeviceView>::empty());
        while i < self.devices.len()
            invariant
                v == devices_view(self.devices@),
                i <= self.devices@.len(),
                devices_view(devices@) == online_only(v.take(i as int)),
            decreases self.devices@.len() - i,
        {
            assert(v.take(i + 1).drop_last() =~= v.take(i as int));
            assert(v.take(i + 1).last() == self.devices@[i as int]@);
            if self.devices[i].is_online() {
                let d = self.devices[i].clone();
                let ghost before = devices@;
                devices.push(d);
                assert(devices_view(devices@) =~= devices_view(before).push(d@));
            }
            i = i + 1;
        }
        assert(v.take(v.len() as int) =~= v);
        proof {
            lemma_online_only(v);
            match self@.selected {
                Some(id) => {
                    let w = choose|w: int| 0 <= w < v.len() && (#[trigger] v[w]).id == id && v[w].online();
                    lemma_online_only_keeps(v, w);
                },
                None => {},
            }
        }
        DeviceList { devices, selected_id }
    }
}

impl Default for DeviceList {
    fn default() -> (r: Self)
        ensures
            r@ == (DeviceListView { devices: Seq::empty(), selected: None }),
    {
        let r = DeviceList { devices: Vec::new(), selected_id: None };
        assert(r@.devices =~= Seq::<DeviceView>::empty());
        r
    }
}

/// The online devices of a list are all online, and keep the order of the list.
pub proof fn lemma_online_only(v: Seq<DeviceView>)
    ensures
        forall|i: int| 0 <= i < online_only(v).len() ==> (#[trigger] online_only(v)[i]).online(),
        online_first(online_only(v)),
    decreases v.len(),
{
    if v.len() > 0 {
        lemma_online_only(v.drop_last());
    }
}

/// An online device of a list is among its online devices.
pub proof fn lemma_online_only_keeps(v: Seq<DeviceView>, w: int)
    requires
        0 <= w < v.len(),
        v[w].online(),
    ensures
        exists|k: int| 0 <= k < online_only(v).len() && #[trigger] online_only(v)[k] == v[w],
    decreases v.len(),
{
    let rest = online_only(v.drop_last());
    if w < v.len() - 1 {
        assert(v.drop_last()[w] == v[w]);
        lemma_online_only_keeps(v.drop_last(), w);
        let k = choose|k: int| 0 <= k < rest.len() && #[trigger] rest[k] == v.drop_last()[w];
        if v.last().online() {
            assert(online_only(v) == rest.push(v.last()));
            assert(online_only(v)[k] == rest[k]);
        } else {
            assert(online_only(v) == rest);
        }
        assert(0 <= k < online_only(v).len() && online_only(v)[k] == v[w]);
    } else {
        assert(online_only(v) == rest.push(v.last()));
        assert(online_only(v)[online_only(v).len() - 1] == v[w]);
    }
}

/// A new list selects a device exactly when one of the given devices is online.
pub proof fn law_new_selects_when_online(input: Seq<DeviceView>, order: Seq<int>, shown: Seq<DeviceView>)
    requires
        is_shown_order(input, order),
        shown == order.map_values(|k: int| input[k]),
    ensures
        (shown.len() > 0 && shown[0].online()) <==> exists|m: int| 0 <= m < input.len() && (#[trigger] input[m]).online(),
{
    if exists|m: int| 0 <= m < input.len() && (#[trigger] input[m]).online() {
        let m = choose|m: int| 0 <= m < input.len() && (#[trigger] input[m]).online();
        assert(lists_place(order, m));
        let k = choose|k: int| 0 <= k < order.len() && #[trigger] order[k] == m;
        if k > 0 {
            assert(shown_before(input[order[0]], order[0], input[order[k]], order[k]));
            lemma_key_order(key_of(input[order[0]]), key_of(input[m]), key_of(input[m]));
        }
        assert(shown[0] == input[order[0]]);
    }
    if shown.len() > 0 && shown[0].online() {
        assert(input[order[0]].online());
    }
}

/// Hiding offline devices leaves only online ones, in the order of the list.
pub proof fn law_hidden_offline(v: Seq<DeviceView>)
    ensures
        forall|i: int| 0 <= i < online_only(v).len() ==> (#[trigger] online_only(v)[i]).online(),
        forall|w: int| 0 <= w < v.len() && (#[trigger] v[w]).online()
            ==> exists|k: int| 0 <= k < online_only(v).len() && #[trigger] online_only(v)[k] == v[w],
{
    lemma_online_only(v);
    assert forall|w: int| 0 <= w < v.len() && (#[trigger] v[w]).online()
        implies exists|k: int| 0 <= k < online_only(v).len() && #[trigger] online_only(v)[k] == v[w] by {
        lemma_online_only_keeps(v, w);
    }
}

} // verus!
