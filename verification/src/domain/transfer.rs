//! The state of a running transfer as shown to the user: which item is
//! being sent, how many bytes have gone, and how fast.

use vstd::prelude::*;
use crate::domain::device::{Device, DeviceView};

verus! {

#[derive(Debug, Clone, Copy, PartialEq, Eq, Structural)]
pub enum TransferItemState {
    Sending,
    Waiting,
    Sent,
}

#[derive(Debug)]
pub struct TransferQueueItem {
    pub name: String,
    pub state: TransferItemState,
}

pub struct QueueItemView {
    pub name: Seq<char>,
    pub state: TransferItemState,
}

impl View for TransferQueueItem {
    type V = QueueItemView;

    open spec fn view(&self) -> QueueItemView {
        QueueItemView { name: self.name@, state: self.state }
    }
}

impl Clone for TransferQueueItem {
    fn clone(&self) -> (r: Self)
        ensures
            r@ == self@,
    {
        TransferQueueItem { name: self.name.clone(), state: self.state }
    }
}

pub open spec fn queue_view(q: Seq<TransferQueueItem>) -> Seq<QueueItemView> {
    q.map_values(|i: TransferQueueItem| i@)
}

pub struct SnapshotView {
    pub id: u64,
    pub target: DeviceView,
    pub current: int,
    pub transferred: u64,
    pub total: Option<u64>,
    pub bytes_per_second: u64,
    pub queue: Seq<QueueItemView>,
    pub cancelling: bool,
}

/// The queue a transfer starts with: the first item is being sent, the
/// others wait.
pub open spec fn initial_queue(names: Seq<Seq<char>>) -> Seq<QueueItemView> {
    Seq::new(names.len(), |i: int| QueueItemView {
        name: names[i],
        state: if i == 0 { TransferItemState::Sending } else { TransferItemState::Waiting },
    })
}

/// Items before the current one are sent, items after it wait; the current
/// one is being sent, or sent when it is the last.
pub open spec fn queue_valid(v: SnapshotView) -> bool {
    &&& v.queue.len() > 0
    &&& 0 <= v.current < v.queue.len()
    &&& forall|j: int| 0 <= j < v.current ==> (#[trigger] v.queue[j]).state == TransferItemState::Sent
    &&& forall|j: int| v.current < j < v.queue.len() ==> (#[trigger] v.queue[j]).state == TransferItemState::Waiting
    &&& v.queue[v.current].state != TransferItemState::Waiting
    &&& v.queue[v.current].state == TransferItemState::Sent ==> v.current == v.queue.len() - 1
    &&& match v.total {
        Some(t) => v.transferred <= t,
        None => true,
    }
}

/// The number of items sent.
pub open spec fn sent_count(q: Seq<QueueItemView>) -> nat
    decreases q.len(),
{
    if q.len() == 0 {
        0
    } else {
        sent_count(q.drop_last()) + if q.last().state == TransferItemState::Sent { 1nat } else { 0nat }
    }
}

/// A snapshot after a progress sample: the bytes sent so far and the rate.
pub open spec fn sampled(v: SnapshotView, transferred: u64, bytes_per_second: u64) -> SnapshotView {
    SnapshotView { transferred, bytes_per_second, ..v }
}

/// A snapshot after its current item was sent: that item is marked sent and
/// the next one, if there is one, becomes current and is being sent.
pub open spec fn finished(v: SnapshotView) -> SnapshotView {
    let sent = v.queue.update(v.current, QueueItemView { state: TransferItemState::Sent, ..v.queue[v.current] });
    if v.current + 1 < v.queue.len() {
        SnapshotView {
            current: v.current + 1,
            queue: sent.update(v.current + 1, QueueItemView { state: TransferItemState::Sending, ..sent[v.current + 1] }),
            ..v
        }
    } else {
        SnapshotView { queue: sent, ..v }
    }
}

pub open spec fn ceil_div(a: nat, b: nat) -> nat {
    a / b + if a % b == 0 { 0nat } else { 1nat }
}

/// The items of a transfer and the place of the current one.
#[derive(Debug)]
struct QueueState {
    current_index: usize,
    items: Vec<TransferQueueItem>,
}

#[derive(Debug)]
pub struct TransferSnapshot {
    id: u64,
    target: Device,
    progress: QueueState,
    transferred_bytes: u64,
    total_bytes: Option<u64>,
    bytes_per_second: u64,
    cancelling: bool,
}

fn clone_queue(items: &Vec<TransferQueueItem>) -> (r: Vec<TransferQueueItem>)
    ensures
        queue_view(r@) == queue_view(items@),
{
    let mut queue: Vec<TransferQueueItem> = Vec::new();
    let mut i: usize = 0;
    while i < items.len()
        invariant
            i <= items@.len(),
            queue_view(queue@) == queue_view(items@).take(i as int),
        decreases items@.len() - i,
    {
        let c = items[i].clone();
        let ghost before = queue@;
        queue.push(c);
        assert(queue_view(queue@) =~= queue_view(before).push(c@));
        assert(queue_view(items@).take(i + 1) =~= queue_view(items@).take(i as int).push(items@[i as int]@));
        i = i + 1;
    }
    assert(queue_view(items@).take(items@.len() as int) =~= queue_view(items@));
    queue
}

impl View for TransferSnapshot {
    type V = SnapshotView;

    closed spec fn view(&self) -> SnapshotView {
        SnapshotView {
            id: self.id,
            target: self.target@,
            current: self.progress.current_index as int,
            transferred: self.transferred_bytes,
            total: self.total_bytes,
            bytes_per_second: self.bytes_per_second,
            queue: queue_view(self.progress.items@),
            cancelling: self.cancelling,
        }
    }
}

impl Clone for TransferSnapshot {
    fn clone(&self) -> (r: Self)
        ensures
            r@ == self@,
    {
        proof { use_type_invariant(self); }
        TransferSnapshot {
            id: self.id,
            target: self.target.clone(),
            progress: QueueState {
                current_index: self.progress.current_index,
                items: clone_queue(&self.progress.items),
            },
            transferred_bytes: self.transferred_bytes,
            total_bytes: self.total_bytes,
            bytes_per_second: self.bytes_per_second,
            cancelling: self.cancelling,
        }
    }
}

impl TransferSnapshot {
    #[verifier::type_invariant]
    closed spec fn inv(self) -> bool {
        queue_valid(self@)
    }

    /// A transfer of the named items to `target`; `total_bytes` is known for
    /// files sent one by one and unknown for an archive made while it is sent.
    pub fn new(id: u64, target: Device, names: Vec<String>, total_bytes: Option<u64>) -> (r: Self)
        requires
            names@.len() > 0,
        ensures
            r@ == (SnapshotView {
                id,
                target: target@,
                current: 0,
                transferred: 0,
                total: total_bytes,
                bytes_per_second: 0,
                queue: initial_queue(names@.map_values(|s: String| s@)),
                cancelling: false,
            }),
            queue_valid(r@),
    {
        let ghost names_v = names@.map_values(|s: String| s@);
        let mut queue: Vec<TransferQueueItem> = Vec::new();
        let mut i: usize = 0;
        while i < names.len()
            invariant
                names_v == names@.map_values(|s: String| s@),
                i <= names@.len(),
                queue_view(queue@) == initial_queue(names_v).take(i as int),
            decreases names@.len() - i,
        {
            let state = if i == 0 { TransferItemState::Sending } else { TransferItemState::Waiting };
            let item = TransferQueueItem { name: names[i].clone(), state };
            let ghost before = queue@;
            queue.push(item);
            assert(queue_view(queue@) =~= queue_view(before).push(item@));
            assert(initial_queue(names_v).take(i + 1) =~= initial_queue(names_v).take(i as int).push(item@));
            i = i + 1;
        }
        assert(initial_queue(names_v).take(names@.len() as int) =~= initial_queue(names_v));
        let r = TransferSnapshot {
            id,
            target,
            progress: QueueState { current_index: 0, items: queue },
            transferred_bytes: 0,
            total_bytes,
            bytes_per_second: 0,
            cancelling: false,
        };
        proof { use_type_invariant(&r); }
        r
    }

    pub fn id(&self) -> (r: u64)
        ensures
            r == self@.id,
    {
        self.id
    }

    pub fn item_count(&self) -> (r: usize)
        ensures
            r == self@.queue.len(),
    {
        self.progress.items.len()
    }

    /// The name of the item being sent.
    pub fn current_name(&self) -> (r: &str)
        ensures
            r@ == self@.queue[self@.current].name,
    {
        proof { use_type_invariant(self); }
        self.progress.items[self.progress.current_index].name.as_str()
    }

    pub fn current_index(&self) -> (r: usize)
        ensures
            r == self@.current,
    {
        self.progress.current_index
    }

    pub fn target(&self) -> (r: &Device)
        ensures
            r@ == self@.target,
    {
        &self.target
    }

    pub fn queue(&self) -> (r: &[TransferQueueItem])
        ensures
            queue_view(r@) == self@.queue,
    {
        self.progress.items.as_slice()
    }

    fn count_sent(&self) -> (r: usize)
        ensures
            r == sent_count(self@.queue),
    {
        let ghost q = self@.queue;
        let mut n: usize = 0;
        let mut i: usize = 0;
        assert(q.take(0) =~= Seq::<QueueItemView>::empty());
        while i < self.progress.items.len()
            invariant
                q == queue_view(self.progress.items@),
                i <= self.progress.items@.len(),
                n == sent_count(q.take(i as int)),
                n <= i,
            decreases self.progress.items@.len() - i,
        {
            assert(q.take(i + 1).drop_last() =~= q.take(i as int));
            assert(q.take(i + 1).last() == self.progress.items@[i as int]@);
            if self.progress.items[i].state == TransferItemState::Sent {
                n = n + 1;
            }
            i = i + 1;
        }
        assert(q.take(q.len() as int) =~= q);
        n
    }

    /// How far the transfer is, as a fraction `(done, whole)`: bytes against
    /// the total when the total is positive, items sent against all items
    /// when the total is zero, and unknown without a total.
    pub fn progress_fraction(&self) -> (r: Option<(u64, u64)>)
        ensures
            r == match self@.total {
                None => None,
                Some(t) => if t == 0 {
                    Some((sent_count(self@.queue) as u64, self@.queue.len() as u64))
                } else {
                    Some((self@.transferred, t))
                },
            },
    {
        proof { use_type_invariant(self); }
        match self.total_bytes {
            None => None,
            Some(t) => {
                if t == 0 {
                    let sent = self.count_sent();
                    Some((sent as u64, self.progress.items.len() as u64))
                } else {
                    Some((self.transferred_bytes, t))
                }
            },
        }
    }

    pub fn progress_bytes(&self) -> (r: Option<(u64, u64)>)
        ensures
            r == match self@.total {
                None => None,
                Some(t) => Some((self@.transferred, t)),
            },
    {
        match self.total_bytes {
            None => None,
            Some(t) => Some((self.transferred_bytes, t)),
        }
    }

    /// The bytes of the whole transfer sent so far.
    pub fn transferred_bytes(&self) -> (r: u64)
        ensures
            r == self@.transferred,
    {
        self.transferred_bytes
    }

    pub fn bytes_per_second(&self) -> (r: u64)
        ensures
            r == self@.bytes_per_second,
    {
        self.bytes_per_second
    }

    /// Seconds left at the current rate, rounded up; zero while no rate is
    /// known, unknown without a total.
    pub fn eta_seconds(&self) -> (r: Option<u64>)
        ensures
            r == match self@.total {
                None => None,
                Some(t) => if self@.bytes_per_second == 0 {
                    Some(0u64)
                } else {
                    Some(ceil_div(
                        if t >= self@.transferred { (t - self@.transferred) as nat } else { 0nat },
                        self@.bytes_per_second as nat,
                    ) as u64)
                },
            },
    {
        match self.total_bytes {
            None => None,
            Some(t) => {
                if self.bytes_per_second == 0 {
                    Some(0)
                } else {
                    let left = t.saturating_sub(self.transferred_bytes);
                    let whole = left / self.bytes_per_second;
                    let rem = left % self.bytes_per_second;
                    let extra: u64 = if rem == 0 { 0 } else { 1 };
                    let bps = self.bytes_per_second;
                    proof {
                        vstd::arithmetic::div_mod::lemma_fundamental_div_mod(left as int, bps as int);
                        if bps >= 2 {
                            assert(whole * 2 <= bps * whole) by (nonlinear_arith)
                                requires
                                    bps >= 2,
                                    whole >= 0,
                            ;
                        }
                    }
                    Some(whole + extra)
                }
            },
        }
    }

    pub fn is_cancelling(&self) -> (r: bool)
        ensures
            r == self@.cancelling,
    {
        self.cancelling
    }

    /// Records how many bytes of the whole transfer have gone, and the rate.
    pub fn record_sample(&mut self, item_index: usize, transferred_bytes: u64, bytes_per_second: u64)
        requires
            item_index == old(self)@.current,
            transferred_bytes >= old(self)@.transferred,
            match old(self)@.total {
                Some(t) => transferred_bytes <= t,
                None => true,
            },
        ensures
            final(self)@ == sampled(old(self)@, transferred_bytes, bytes_per_second),
            queue_valid(final(self)@),
    {
        proof { use_type_invariant(&*self); }
        self.transferred_bytes = transferred_bytes;
        self.bytes_per_second = bytes_per_second;
        proof { use_type_invariant(&*self); }
    }

    /// Marks the current item sent; the next item, if any, becomes current.
    pub fn finish_item(&mut self, item_index: usize)
        requires
            item_index == old(self)@.current,
        ensures
            final(self)@ == finished(old(self)@),
            queue_valid(final(self)@),
    {
        proof { use_type_invariant(&*self); }
        let ghost q0 = self@.queue;
        let mut queue = clone_queue(&self.progress.items);
        assert(item_index < queue.len());
        let next = item_index + 1;
        let name_a = queue[item_index].name.clone();
        queue.set(item_index, TransferQueueItem { name: name_a, state: TransferItemState::Sent });
        let ghost sent = q0.update(item_index as int, QueueItemView {
            state: TransferItemState::Sent,
            ..q0[item_index as int]
        });
        assert(queue_view(queue@) =~= sent);
        if next < queue.len() {
            let name_b = queue[next].name.clone();
            queue.set(next, TransferQueueItem { name: name_b, state: TransferItemState::Sending });
            assert(queue_view(queue@) =~= sent.update(next as int, QueueItemView {
                state: TransferItemState::Sending,
                ..sent[next as int]
            }));
            self.progress = QueueState { current_index: next, items: queue };
        } else {
            self.progress = QueueState { current_index: item_index, items: queue };
        }
        proof { use_type_invariant(&*self); }
    }

    pub fn request_cancel(&mut self)
        ensures
            final(self)@ == (SnapshotView { cancelling: true, ..old(self)@ }),
            queue_valid(final(self)@),
    {
        proof { use_type_invariant(&*self); }
        self.cancelling = true;
        proof { use_type_invariant(&*self); }
    }
}

/// The count of sent items of a queue whose items before `c` are sent and
/// whose items after `c` wait.
proof fn lemma_sent_count_of_valid(q: Seq<QueueItemView>, c: int)
    requires
        0 <= c < q.len(),
        forall|j: int| 0 <= j < c ==> (#[trigger] q[j]).state == TransferItemState::Sent,
        forall|j: int| c < j < q.len() ==> (#[trigger] q[j]).state == TransferItemState::Waiting,
    ensures
        sent_count(q) == c + if q[c].state == TransferItemState::Sent { 1nat } else { 0nat },
    decreases q.len(),
{
    if q.len() - 1 > c {
        let p = q.drop_last();
        assert forall|j: int| 0 <= j < c implies (#[trigger] p[j]).state == TransferItemState::Sent by {
            assert(p[j] == q[j]);
        }
        assert forall|j: int| c < j < p.len() implies (#[trigger] p[j]).state == TransferItemState::Waiting by {
            assert(p[j] == q[j]);
        }
        assert(p[c] == q[c]);
        lemma_sent_count_of_valid(p, c);
        assert(q.last() == q[q.len() - 1]);
    } else {
        lemma_sent_count_prefix(q.drop_last());
    }
}

/// A queue of sent items counts them all.
proof fn lemma_sent_count_prefix(q: Seq<QueueItemView>)
    requires
        forall|j: int| 0 <= j < q.len() ==> (#[trigger] q[j]).state == TransferItemState::Sent,
    ensures
        sent_count(q) == q.len(),
    decreases q.len(),
{
    if q.len() > 0 {
        let p = q.drop_last();
        assert forall|j: int| 0 <= j < p.len() implies (#[trigger] p[j]).state == TransferItemState::Sent by {
            assert(p[j] == q[j]);
        }
        lemma_sent_count_prefix(p);
        assert(q.last() == q[q.len() - 1]);
    }
}

/// Finishing the item being sent sends exactly one more item, and the
/// snapshot stays consistent: the items before the current one are sent,
/// those after it wait.
pub proof fn law_finish_sends_one_more(v: SnapshotView)
    requires
        queue_valid(v),
        v.queue[v.current].state == TransferItemState::Sending,
    ensures
        queue_valid(finished(v)),
        sent_count(finished(v).queue) == sent_count(v.queue) + 1,
{
    let f = finished(v);
    lemma_sent_count_of_valid(v.queue, v.current);
    lemma_sent_count_of_valid(f.queue, f.current);
    if v.current + 1 < v.queue.len() {
        assert(f.queue[f.current].state == TransferItemState::Sending);
    }
}

/// Once the last item is finished, every item of the transfer is sent.
pub proof fn law_last_finish_sends_all(v: SnapshotView)
    requires
        queue_valid(v),
        v.current == v.queue.len() - 1,
    ensures
        sent_count(finished(v).queue) == v.queue.len(),
        finished(v).current == v.current,
{
    let f = finished(v);
    assert forall|j: int| 0 <= j < f.queue.len() implies (#[trigger] f.queue[j]).state == TransferItemState::Sent by {
        if j < v.current {
            assert(f.queue[j] == v.queue[j]);
        }
    }
    lemma_sent_count_prefix(f.queue);
}

} // verus!
