//! What the tailscaled LocalAPI reports of the tailnet, and which of its
//! peers can receive files.

use vstd::prelude::*;
use crate::domain::device::{Connection, ConnectionView, Device, DeviceView, IpAddress, devices_view};
use crate::text::{chars_of, string_from_chars, text_equals, trim_text, trim_white_space};

verus! {

#[verifier::external_type_specification]
#[verifier::external_body]
pub struct ExReqwestError(reqwest::Error);

#[verifier::external_type_specification]
#[verifier::external_body]
pub struct ExJsonError(serde_json::Error);

/// Why the LocalAPI could not be used.
#[derive(Debug)]
pub enum LocalApiError {
    Request(reqwest::Error),
    HttpStatus { status: u16 },
    FilePutRejected { status: u16, message: String },
    InvalidStatus(serde_json::Error),
    NotRunning { state: String },
    MissingStableId { name: String },
    MissingAddress { name: String },
    MissingConnection { name: String },
    MissingName,
}

/// Peers with these Taildrop target states can receive files: available,
/// and offline (ipnstate.TaildropTargetStatus).
pub const TAILDROP_AVAILABLE: i32 = 1;
pub const TAILDROP_OFFLINE: i32 = 5;

/// The origin of LocalAPI requests; the unix socket carries them.
pub const LOCAL_API_ORIGIN: &'static str = "http://local-tailscaled.sock";

/// What `Url::parse` of `base` serializes to after `PathSegmentsMut::extend`
/// appended `segments` (each percent-encoded as one path segment, `.` and
/// `..` skipped); `None` when `base` does not parse or cannot have path
/// segments.
pub uninterp spec fn url_with_segments(base: Seq<char>, segments: Seq<Seq<char>>) -> Option<Seq<char>>;

pub open spec fn strs_view(v: Seq<&str>) -> Seq<Seq<char>> {
    v.map_values(|s: &str| s@)
}

pub open spec fn text_view(r: Option<String>) -> Option<Seq<char>> {
    match r {
        Some(s) => Some(s@),
        None => None,
    }
}

/// `reqwest::Url::parse` of `base`, then `Url::path_segments_mut` and
/// `PathSegmentsMut::extend` with `segments`; the URL as text
/// (`Url::as_str`).
#[verifier::external_body]
fn extend_url_path(base: &str, segments: &[&str]) -> (r: Option<String>)
    ensures
        text_view(r) == url_with_segments(base@, strs_view(segments@)),
{
    let mut url = reqwest::Url::parse(base).ok()?;
    url.path_segments_mut().ok()?.extend(segments);
    Some(url.as_str().to_owned())
}

/// The LocalAPI URL that puts file `name` to the peer `target_id`: both go
/// in as single path segments after `localapi/v0/file-put`.
pub fn file_put_url(target_id: &str, name: &str) -> (r: Option<String>)
    ensures
        text_view(r) == url_with_segments(
            LOCAL_API_ORIGIN@,
            seq!["localapi"@, "v0"@, "file-put"@, target_id@, name@],
        ),
{
    let segments: Vec<&str> = vec!["localapi", "v0", "file-put", target_id, name];
    assert(strs_view(segments@) =~= seq!["localapi"@, "v0"@, "file-put"@, target_id@, name@]);
    extend_url_path(LOCAL_API_ORIGIN, segments.as_slice())
}

pub struct TailnetStatus {
    pub magic_dns_suffix: String,
}

pub struct PeerStatus {
    pub id: String,
    pub host_name: String,
    pub dns_name: String,
    pub os: String,
    pub tailscale_ips: Vec<IpAddress>,
    pub cur_addr: String,
    pub relay: String,
    pub peer_relay: String,
    pub online: bool,
    pub taildrop_target: i32,
}

/// The LocalAPI status; `peers` are the values of its peer map, in the order
/// in which the map was walked.
pub struct StatusResponse {
    pub backend_state: String,
    pub magic_dns_suffix: String,
    pub current_tailnet: Option<TailnetStatus>,
    pub peers: Vec<PeerStatus>,
}

pub struct PeerView {
    pub id: Seq<char>,
    pub host_name: Seq<char>,
    pub dns_name: Seq<char>,
    pub os: Seq<char>,
    pub tailscale_ips: Seq<IpAddress>,
    pub cur_addr: Seq<char>,
    pub relay: Seq<char>,
    pub peer_relay: Seq<char>,
    pub online: bool,
    pub taildrop_target: i32,
}

impl View for PeerStatus {
    type V = PeerView;

    open spec fn view(&self) -> PeerView {
        PeerView {
            id: self.id@,
            host_name: self.host_name@,
            dns_name: self.dns_name@,
            os: self.os@,
            tailscale_ips: self.tailscale_ips@,
            cur_addr: self.cur_addr@,
            relay: self.relay@,
            peer_relay: self.peer_relay@,
            online: self.online,
            taildrop_target: self.taildrop_target,
        }
    }
}

pub open spec fn peers_view(v: Seq<PeerStatus>) -> Seq<PeerView> {
    v.map_values(|p: PeerStatus| p@)
}

/// Why a status yields no device list.
pub enum StatusFailure {
    NotRunning(Seq<char>),
    MissingStableId(Seq<char>),
    MissingAddress(Seq<char>),
    MissingConnection(Seq<char>),
    MissingName,
}

/// Whether an error is the given failure.
pub open spec fn is_failure(e: LocalApiError, f: StatusFailure) -> bool {
    match f {
        StatusFailure::NotRunning(s) => e matches LocalApiError::NotRunning { state } && state@ == s,
        StatusFailure::MissingStableId(n) => e matches LocalApiError::MissingStableId { name } && name@ == n,
        StatusFailure::MissingAddress(n) => e matches LocalApiError::MissingAddress { name } && name@ == n,
        StatusFailure::MissingConnection(n) => e matches LocalApiError::MissingConnection { name } && name@ == n,
        StatusFailure::MissingName => e is MissingName,
    }
}

/// `s` without the characters `c` at its end.
pub open spec fn trim_end_char(s: Seq<char>, c: char) -> Seq<char>
    decreases s.len(),
{
    if s.len() > 0 && s.last() == c { trim_end_char(s.drop_last(), c) } else { s }
}

/// `s` without the characters `c` at its start.
pub open spec fn trim_start_char(s: Seq<char>, c: char) -> Seq<char>
    decreases s.len(),
{
    if s.len() > 0 && s[0] == c { trim_start_char(s.drop_first(), c) } else { s }
}

/// `s` without `suffix`, when it ends with it.
pub open spec fn strip_suffix(s: Seq<char>, suffix: Seq<char>) -> Option<Seq<char>> {
    if suffix.len() <= s.len() && s.subrange(s.len() - suffix.len(), s.len() as int) == suffix {
        Some(s.subrange(0, s.len() - suffix.len()))
    } else {
        None
    }
}


/// The name a peer is shown by: its DNS name without the tailnet's DNS
/// suffix, or its whole DNS name, or else its host name.
pub open spec fn peer_name(dns_name: Seq<char>, host_name: Seq<char>, suffix: Seq<char>) -> Option<Seq<char>> {
    let d = trim_end_char(dns_name, '.');
    let sfx = trim_start_char(trim_end_char(suffix, '.'), '.');
    if d.len() > 0 {
        if sfx.len() > 0 && strip_suffix(d, sfx) is Some && strip_suffix(strip_suffix(d, sfx)->0, seq!['.']) is Some
            && (strip_suffix(strip_suffix(d, sfx)->0, seq!['.'])->0).len() > 0 {
            Some(strip_suffix(strip_suffix(d, sfx)->0, seq!['.'])->0)
        } else {
            Some(d)
        }
    } else {
        let h = trim_white_space(host_name);
        if h.len() > 0 { Some(h) } else { None }
    }
}

/// The address a device is reached at: its first IPv4 address, or else its
/// first address.
pub open spec fn preferred_address_of(addresses: Seq<IpAddress>) -> Option<IpAddress>
    decreases addresses.len(),
{
    if addresses.len() == 0 {
        None
    } else if addresses[0] is V4 {
        Some(addresses[0])
    } else {
        match preferred_address_of(addresses.drop_first()) {
            Some(a) => if a is V4 { Some(a) } else { Some(addresses[0]) },
            None => Some(addresses[0]),
        }
    }
}

/// How an online peer is connected: through a peer relay, directly, or
/// through a DERP region; offline peers are offline.
pub open spec fn connection_of(p: PeerView) -> Option<ConnectionView> {
    if !p.online {
        Some(ConnectionView::Offline)
    } else if p.peer_relay.len() > 0 {
        Some(ConnectionView::PeerRelay(p.peer_relay))
    } else if p.cur_addr.len() > 0 {
        Some(ConnectionView::Direct)
    } else if p.relay.len() > 0 {
        Some(ConnectionView::Derp(p.relay))
    } else {
        None
    }
}

/// What one peer contributes: nothing (not a Taildrop target), a device, or
/// a failure.
pub enum PeerOutcome {
    Skip,
    Target(DeviceView),
    Fail(StatusFailure),
}

pub open spec fn peer_outcome(p: PeerView, suffix: Seq<char>) -> PeerOutcome {
    if p.taildrop_target != TAILDROP_AVAILABLE && p.taildrop_target != TAILDROP_OFFLINE {
        PeerOutcome::Skip
    } else {
        match peer_name(p.dns_name, p.host_name, suffix) {
            None => PeerOutcome::Fail(StatusFailure::MissingName),
            Some(name) => if p.id.len() == 0 {
                PeerOutcome::Fail(StatusFailure::MissingStableId(name))
            } else {
                match preferred_address_of(p.tailscale_ips) {
                    None => PeerOutcome::Fail(StatusFailure::MissingAddress(name)),
                    Some(address) => match connection_of(p) {
                        None => PeerOutcome::Fail(StatusFailure::MissingConnection(name)),
                        Some(connection) => PeerOutcome::Target(DeviceView {
                            id: p.id,
                            name,
                            platform: p.os,
                            address,
                            connection,
                        }),
                    },
                }
            },
        }
    }
}

/// The devices of the peers, in order, or the failure of the first peer
/// that fails.
pub open spec fn peers_devices(peers: Seq<PeerView>, suffix: Seq<char>) -> Result<Seq<DeviceView>, StatusFailure>
    decreases peers.len(),
{
    if peers.len() == 0 {
        Ok(Seq::empty())
    } else {
        match peers_devices(peers.drop_last(), suffix) {
            Err(f) => Err(f),
            Ok(devices) => match peer_outcome(peers.last(), suffix) {
                PeerOutcome::Skip => Ok(devices),
                PeerOutcome::Target(d) => Ok(devices.push(d)),
                PeerOutcome::Fail(f) => Err(f),
            },
        }
    }
}

/// A peer that is neither an available nor an offline Taildrop target
/// changes nothing, wherever it stands among the peers: it gives no device
/// and no failure.
pub proof fn law_non_targets_are_skipped(peers: Seq<PeerView>, k: int, p: PeerView, suffix: Seq<char>)
    requires
        0 <= k <= peers.len(),
        p.taildrop_target != TAILDROP_AVAILABLE,
        p.taildrop_target != TAILDROP_OFFLINE,
    ensures
        peers_devices(peers.insert(k, p), suffix) == peers_devices(peers, suffix),
    decreases peers.len(),
{
    let longer = peers.insert(k, p);
    if k == peers.len() {
        assert(longer.drop_last() =~= peers);
    } else {
        law_non_targets_are_skipped(peers.drop_last(), k, p, suffix);
        assert(longer.drop_last() =~= peers.drop_last().insert(k, p));
        assert(longer.last() == peers.last());
    }
}

/// Every device listed comes from a peer that is an available or offline
/// Taildrop target, with that peer's identifier and system.
pub proof fn law_devices_come_from_targets(peers: Seq<PeerView>, suffix: Seq<char>)
    requires
        peers_devices(peers, suffix) is Ok,
    ensures
        forall|d: int| 0 <= d < peers_devices(peers, suffix)->Ok_0.len() ==> exists|i: int| 0 <= i < peers.len()
            && (peers[i].taildrop_target == TAILDROP_AVAILABLE || peers[i].taildrop_target == TAILDROP_OFFLINE)
            && peers[i].id == (#[trigger] peers_devices(peers, suffix)->Ok_0[d]).id
            && peers[i].os == peers_devices(peers, suffix)->Ok_0[d].platform,
    decreases peers.len(),
{
    if peers.len() > 0 {
        let before = peers.drop_last();
        law_devices_come_from_targets(before, suffix);
        let ds = peers_devices(peers, suffix)->Ok_0;
        let es = peers_devices(before, suffix)->Ok_0;
        assert forall|d: int| 0 <= d < ds.len() implies exists|i: int| 0 <= i < peers.len()
            && (peers[i].taildrop_target == TAILDROP_AVAILABLE || peers[i].taildrop_target == TAILDROP_OFFLINE)
            && peers[i].id == (#[trigger] ds[d]).id
            && peers[i].os == ds[d].platform by {
            if d < es.len() {
                assert(ds[d] == es[d]);
                let i = choose|i: int| 0 <= i < before.len()
                    && (before[i].taildrop_target == TAILDROP_AVAILABLE || before[i].taildrop_target == TAILDROP_OFFLINE)
                    && before[i].id == (#[trigger] es[d]).id
                    && before[i].os == es[d].platform;
                assert(peers[i] == before[i]);
            } else {
                assert(ds[d] == peer_outcome(peers.last(), suffix)->Target_0);
                assert(peers[peers.len() - 1] == peers.last());
            }
        }
    }
}

/// The DNS suffix names are shown without: the current tailnet's, when it
/// is known and not empty, else the status's own.
pub open spec fn dns_suffix_of(s: StatusResponse) -> Seq<char> {
    match s.current_tailnet {
        Some(t) => if t.magic_dns_suffix@.len() > 0 { t.magic_dns_suffix@ } else { s.magic_dns_suffix@ },
        None => s.magic_dns_suffix@,
    }
}

pub open spec fn status_devices(s: StatusResponse) -> Result<Seq<DeviceView>, StatusFailure> {
    if s.backend_state@ != "Running"@ {
        Err(StatusFailure::NotRunning(s.backend_state@))
    } else {
        peers_devices(peers_view(s.peers@), dns_suffix_of(s))
    }
}

fn trim_end_chars(v: &Vec<char>, c: char) -> (r: Vec<char>)
    ensures
        r@ == trim_end_char(v@, c),
{
    let mut k: usize = v.len();
    assert(v@.subrange(0, k as int) =~= v@);
    while k > 0 && v[k - 1] == c
        invariant
            k <= v@.len(),
            trim_end_char(v@, c) == trim_end_char(v@.subrange(0, k as int), c),
        decreases k,
    {
        assert(v@.subrange(0, k as int).drop_last() =~= v@.subrange(0, k - 1));
        k = k - 1;
    }
    let r = slice_prefix(v, k);
    r
}

fn slice_prefix(v: &Vec<char>, k: usize) -> (r: Vec<char>)
    requires
        k <= v@.len(),
    ensures
        r@ == v@.subrange(0, k as int),
{
    let mut r: Vec<char> = Vec::new();
    let mut i: usize = 0;
    while i < k
        invariant
            k <= v@.len(),
            i <= k,
            r@ == v@.subrange(0, i as int),
        decreases k - i,
    {
        r.push(v[i]);
        assert(v@.subrange(0, i + 1) =~= v@.subrange(0, i as int).push(v@[i as int]));
        i = i + 1;
    }
    r
}

fn slice_suffix(v: &Vec<char>, k: usize) -> (r: Vec<char>)
    requires
        k <= v@.len(),
    ensures
        r@ == v@.subrange(k as int, v@.len() as int),
{
    let mut r: Vec<char> = Vec::new();
    let mut i: usize = k;
    while i < v.len()
        invariant
            k <= i <= v@.len(),
            r@ == v@.subrange(k as int, i as int),
        decreases v@.len() - i,
    {
        r.push(v[i]);
        assert(v@.subrange(k as int, i + 1) =~= v@.subrange(k as int, i as int).push(v@[i as int]));
        i = i + 1;
    }
    r
}

fn trim_start_chars(v: &Vec<char>, c: char) -> (r: Vec<char>)
    ensures
        r@ == trim_start_char(v@, c),
{
    let mut k: usize = 0;
    assert(v@.subrange(0, v@.len() as int) =~= v@);
    while k < v.len() && v[k] == c
        invariant
            k <= v@.len(),
            trim_start_char(v@, c) == trim_start_char(v@.subrange(k as int, v@.len() as int), c),
        decreases v@.len() - k,
    {
        assert(v@.subrange(k as int, v@.len() as int).drop_first() =~= v@.subrange(k + 1, v@.len() as int));
        k = k + 1;
    }
    slice_suffix(v, k)
}

fn strip_suffix_chars(v: &Vec<char>, suffix: &Vec<char>) -> (r: Option<Vec<char>>)
    ensures
        match r {
            Some(x) => strip_suffix(v@, suffix@) == Some(x@),
            None => strip_suffix(v@, suffix@) is None,
        },
{
    if suffix.len() > v.len() {
        return None;
    }
    let start = v.len() - suffix.len();
    let mut j: usize = start;
    while j < v.len()
        invariant
            start + suffix@.len() == v@.len(),
            start <= j <= v@.len(),
            forall|k: int| start <= k < j ==> v@[k] == suffix@[k - start],
        decreases v@.len() - j,
    {
        if v[j] != suffix[j - start] {
            assert(v@.subrange(start as int, v@.len() as int)[j - start] != suffix@[j - start]);
            return None;
        }
        j = j + 1;
    }
    assert(v@.subrange(start as int, v@.len() as int) =~= suffix@);
    Some(slice_prefix(v, start))
}

/// The name a peer is shown by.
pub fn display_name(peer: &PeerStatus, dns_suffix: &str) -> (r: Option<String>)
    ensures
        match r {
            Some(n) => peer_name(peer.dns_name@, peer.host_name@, dns_suffix@) == Some(n@),
            None => peer_name(peer.dns_name@, peer.host_name@, dns_suffix@) is None,
        },
{
    let dns = trim_end_chars(&chars_of(peer.dns_name.as_str()), '.');
    let sfx = trim_start_chars(&trim_end_chars(&chars_of(dns_suffix), '.'), '.');
    if dns.len() > 0 {
        if sfx.len() > 0 {
            match strip_suffix_chars(&dns, &sfx) {
                Some(a) => {
                    let dot = vec!['.'];
                    assert(dot@ =~= seq!['.']);
                    match strip_suffix_chars(&a, &dot) {
                        Some(n) => {
                            if n.len() > 0 {
                                return Some(string_from_chars(n.as_slice()));
                            }
                        },
                        None => {},
                    }
                },
                None => {},
            }
        }
        return Some(string_from_chars(dns.as_slice()));
    }
    let host = trim_text(peer.host_name.as_str());
    if !host.as_str().is_empty() {
        Some(host)
    } else {
        None
    }
}

/// The address a device is reached at: its first IPv4 address, or else its
/// first address.
pub fn preferred_address(addresses: &[IpAddress]) -> (r: Option<IpAddress>)
    ensures
        r == preferred_address_of(addresses@),
{
    let mut i: usize = 0;
    while i < addresses.len()
        invariant
            i <= addresses@.len(),
            forall|j: int| 0 <= j < i ==> !(#[trigger] addresses@[j] is V4),
        decreases addresses@.len() - i,
    {
        if let IpAddress::V4(_) = addresses[i] {
            proof { lemma_preferred_first_v4(addresses@, i as int); }
            return Some(addresses[i]);
        }
        i = i + 1;
    }
    proof { lemma_preferred_no_v4(addresses@); }
    if addresses.len() > 0 {
        Some(addresses[0])
    } else {
        None
    }
}

proof fn lemma_preferred_first_v4(a: Seq<IpAddress>, i: int)
    requires
        0 <= i < a.len(),
        a[i] is V4,
        forall|j: int| 0 <= j < i ==> !(#[trigger] a[j] is V4),
    ensures
        preferred_address_of(a) == Some(a[i]),
    decreases i,
{
    if i > 0 {
        assert forall|j: int| 0 <= j < i - 1 implies !(#[trigger] a.drop_first()[j] is V4) by {
            assert(a.drop_first()[j] == a[j + 1]);
        }
        lemma_preferred_first_v4(a.drop_first(), i - 1);
    }
}

proof fn lemma_preferred_no_v4(a: Seq<IpAddress>)
    requires
        forall|j: int| 0 <= j < a.len() ==> !(#[trigger] a[j] is V4),
    ensures
        preferred_address_of(a) == if a.len() > 0 { Some(a[0]) } else { None },
        preferred_address_of(a) is Some ==> !(preferred_address_of(a)->0 is V4),
    decreases a.len(),
{
    if a.len() > 0 {
        assert forall|j: int| 0 <= j < a.drop_first().len() implies !(#[trigger] a.drop_first()[j] is V4) by {
            assert(a.drop_first()[j] == a[j + 1]);
        }
        lemma_preferred_no_v4(a.drop_first());
        assert(!(a[0] is V4));
    }
}

/// How a peer is connected, when that can be told.
pub fn connection(peer: &PeerStatus) -> (r: Option<Connection>)
    ensures
        match r {
            Some(c) => connection_of(peer@) == Some(c@),
            None => connection_of(peer@) is None,
        },
{
    if !peer.online {
        return Some(Connection::Offline);
    }
    if !peer.peer_relay.as_str().is_empty() {
        Some(Connection::PeerRelay(peer.peer_relay.clone()))
    } else if !peer.cur_addr.as_str().is_empty() {
        Some(Connection::Direct)
    } else if !peer.relay.as_str().is_empty() {
        Some(Connection::Derp(peer.relay.clone()))
    } else {
        None
    }
}

fn failure_error(f: &PeerFailure) -> (e: LocalApiError)
    ensures
        is_failure(e, f.view_failure()),
{
    match f {
        PeerFailure::MissingStableId(n) => LocalApiError::MissingStableId { name: n.clone() },
        PeerFailure::MissingAddress(n) => LocalApiError::MissingAddress { name: n.clone() },
        PeerFailure::MissingConnection(n) => LocalApiError::MissingConnection { name: n.clone() },
        PeerFailure::MissingName => LocalApiError::MissingName,
    }
}

/// The failure of one peer, as held while reading the peers.
enum PeerFailure {
    MissingStableId(String),
    MissingAddress(String),
    MissingConnection(String),
    MissingName,
}

impl PeerFailure {
    spec fn view_failure(&self) -> StatusFailure {
        match self {
            PeerFailure::MissingStableId(n) => StatusFailure::MissingStableId(n@),
            PeerFailure::MissingAddress(n) => StatusFailure::MissingAddress(n@),
            PeerFailure::MissingConnection(n) => StatusFailure::MissingConnection(n@),
            PeerFailure::MissingName => StatusFailure::MissingName,
        }
    }
}

/// The device one peer yields, if it is a Taildrop target.
fn peer_device(peer: &PeerStatus, dns_suffix: &str) -> (r: Result<Option<Device>, PeerFailure>)
    ensures
        match (r, peer_outcome(peer@, dns_suffix@)) {
            (Ok(None), PeerOutcome::Skip) => true,
            (Ok(Some(d)), PeerOutcome::Target(v)) => d@ == v,
            (Err(f), PeerOutcome::Fail(g)) => f.view_failure() == g,
            _ => false,
        },
{
    if peer.taildrop_target != TAILDROP_AVAILABLE && peer.taildrop_target != TAILDROP_OFFLINE {
        return Ok(None);
    }
    let name = match display_name(peer, dns_suffix) {
        Some(n) => n,
        None => return Err(PeerFailure::MissingName),
    };
    if peer.id.as_str().is_empty() {
        return Err(PeerFailure::MissingStableId(name));
    }
    let address = match preferred_address(peer.tailscale_ips.as_slice()) {
        Some(a) => a,
        None => return Err(PeerFailure::MissingAddress(name)),
    };
    let connection = match connection(peer) {
        Some(c) => c,
        None => return Err(PeerFailure::MissingConnection(name)),
    };
    Ok(Some(Device {
        id: peer.id.clone(),
        name,
        platform: peer.os.clone(),
        address,
        connection,
    }))
}

/// The error for a LocalAPI status reply with HTTP status `status`: none
/// for a success (200 to 299), `HttpStatus` otherwise.
pub fn status_reply_error(status: u16) -> (r: Option<LocalApiError>)
    ensures
        200 <= status < 300 <==> r is None,
        r matches Some(e) ==> e == (LocalApiError::HttpStatus { status }),
{
    if 200 <= status && status < 300 {
        None
    } else {
        Some(LocalApiError::HttpStatus { status })
    }
}

/// The error for a file put that tailscaled answered with HTTP status
/// `status` other than 200, carrying the reply without surrounding white
/// space.
pub fn file_put_rejection(status: u16, reply: &str) -> (r: LocalApiError)
    ensures
        r matches LocalApiError::FilePutRejected { status: s, message } && s == status
            && message@ == trim_white_space(reply@),
{
    LocalApiError::FilePutRejected { status, message: trim_text(reply) }
}

/// The devices that can receive files, from a LocalAPI status: the peers
/// that are Taildrop targets, in the order given. A backend that is not
/// running, and a target without a name, identifier, address or known
/// connection, are errors.
pub fn devices_from_status(status: &StatusResponse) -> (r: Result<Vec<Device>, LocalApiError>)
    ensures
        match (r, status_devices(*status)) {
            (Ok(d), Ok(v)) => devices_view(d@) == v,
            (Err(e), Err(f)) => is_failure(e, f),
            _ => false,
        },
{
    let running = "Running";
    if !text_equals(status.backend_state.as_str(), running) {
        return Err(LocalApiError::NotRunning { state: status.backend_state.clone() });
    }
    let dns_suffix: &str = match &status.current_tailnet {
        Some(t) => if !t.magic_dns_suffix.as_str().is_empty() {
            t.magic_dns_suffix.as_str()
        } else {
            status.magic_dns_suffix.as_str()
        },
        None => status.magic_dns_suffix.as_str(),
    };
    assert(dns_suffix@ == dns_suffix_of(*status));
    let ghost pv = peers_view(status.peers@);
    let mut devices: Vec<Device> = Vec::new();
    let mut i: usize = 0;
    assert(pv.take(0) =~= Seq::<PeerView>::empty());
    assert(devices_view(devices@) =~= Seq::<DeviceView>::empty());
    while i < status.peers.len()
        invariant
            pv == peers_view(status.peers@),
            i <= status.peers@.len(),
            dns_suffix@ == dns_suffix_of(*status),
            status.backend_state@ == "Running"@,
            peers_devices(pv.take(i as int), dns_suffix@) == Ok::<Seq<DeviceView>, StatusFailure>(devices_view(devices@)),
        decreases status.peers@.len() - i,
    {
        assert(pv.take(i + 1).drop_last() =~= pv.take(i as int));
        assert(pv.take(i + 1).last() == status.peers@[i as int]@);
        match peer_device(&status.peers[i], dns_suffix) {
            Ok(None) => {},
            Ok(Some(d)) => {
                let ghost before = devices@;
                devices.push(d);
                assert(devices_view(devices@) =~= devices_view(before).push(d@));
            },
            Err(f) => {
                proof { lemma_failure_persists(pv, i as int + 1, dns_suffix@); }
                return Err(failure_error(&f));
            },
        }
        i = i + 1;
    }
    assert(pv.take(pv.len() as int) =~= pv);
    Ok(devices)
}

/// Once a prefix of the peers fails, all of them fail the same way.
proof fn lemma_failure_persists(peers: Seq<PeerView>, k: int, suffix: Seq<char>)
    requires
        0 <= k <= peers.len(),
        peers_devices(peers.take(k), suffix) is Err,
    ensures
        peers_devices(peers, suffix) == peers_devices(peers.take(k), suffix),
    decreases peers.len() - k,
{
    if k < peers.len() {
        assert(peers.take(k + 1).drop_last() =~= peers.take(k));
        lemma_failure_persists(peers, k + 1, suffix);
    } else {
        assert(peers.take(k) =~= peers);
    }
}

} // verus!
