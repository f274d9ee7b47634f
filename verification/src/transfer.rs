//! A transfer to a device: its payload, its cancellation, how its request
//! body reports progress, and which events end it.

use vstd::prelude::*;
use std::io::Read;
use std::sync::Arc;
use std::sync::atomic::{AtomicBool, Ordering};
use std::time::{Duration, Instant};
use crate::archive::{ArchiveError, ArchiveRequest, broken_pipe};
use crate::outside::{duration_from_millis, duration_nanos, instant_now, io_error_other, is_other_error, nanos_of, time_between};
use crate::path::ItemPath;
use crate::tailscale::LocalApiError;

verus! {

/// A selected file to send, with the size it had when it was selected.
#[derive(Debug)]
pub struct TransferFile {
    pub path: ItemPath,
    pub name: String,
    pub size: u64,
}

pub struct TransferFileView {
    pub path: Seq<u8>,
    pub name: Seq<char>,
    pub size: u64,
}

impl View for TransferFile {
    type V = TransferFileView;

    open spec fn view(&self) -> TransferFileView {
        TransferFileView { path: self.path@, name: self.name@, size: self.size }
    }
}

pub open spec fn files_view(v: Seq<TransferFile>) -> Seq<TransferFileView> {
    v.map_values(|f: TransferFile| f@)
}

/// Shared between a transfer and whoever may stop it.
pub struct CancellationToken(Arc<AtomicBool>);

/// `Arc::clone`: another pointer to the same allocation, so the same value.
#[verifier::external_body]
fn share_flag(flag: &Arc<AtomicBool>) -> (r: Arc<AtomicBool>)
    ensures
        r == *flag,
{
    Arc::clone(flag)
}

impl Clone for CancellationToken {
    /// The same token: cancelling either cancels both.
    fn clone(&self) -> (r: Self)
        ensures
            r == *self,
    {
        CancellationToken(share_flag(&self.0))
    }
}

impl Default for CancellationToken {
    fn default() -> Self {
        CancellationToken(Arc::new(AtomicBool::new(false)))
    }
}

impl CancellationToken {
    pub fn cancel(&self) {
        self.0.store(true, Ordering::Release);
    }

    pub fn is_cancelled(&self) -> bool {
        self.0.load(Ordering::Acquire)
    }
}

/// A sampling interval of `millis` milliseconds; positive, as transfers
/// and request bodies require.
pub fn sample_interval(millis: u64) -> (d: Duration)
    requires
        millis > 0,
    ensures
        duration_nanos(d) == millis as nat * 1_000_000,
        duration_nanos(d) > 0,
{
    duration_from_millis(millis)
}

/// What a transfer sends: files one by one, or one archive made while it
/// is sent.
#[derive(Debug)]
pub enum TransferPayload {
    Separate(Vec<TransferFile>),
    Archive(ArchiveRequest),
}

pub struct TransferTask {
    id: u64,
    target_id: String,
    payload: TransferPayload,
    sample_interval: Duration,
    cancellation: CancellationToken,
}

impl TransferTask {
    pub closed spec fn task_id(&self) -> u64 {
        self.id
    }

    pub closed spec fn task_target(&self) -> Seq<char> {
        self.target_id@
    }

    pub closed spec fn task_payload(&self) -> TransferPayload {
        self.payload
    }

    pub closed spec fn task_interval(&self) -> Duration {
        self.sample_interval
    }

    /// The token that stops this transfer.
    pub closed spec fn task_token(&self) -> CancellationToken {
        self.cancellation
    }

    /// Sends `files` one by one.
    pub fn separate(id: u64, target_id: String, files: Vec<TransferFile>, sample_interval: Duration) -> (r: Self)
        requires
            files@.len() > 0,
            duration_nanos(sample_interval) > 0,
        ensures
            r.task_id() == id,
            r.task_target() == target_id@,
            r.task_payload() == TransferPayload::Separate(files),
            r.task_interval() == sample_interval,
    {
        Self::new(id, target_id, TransferPayload::Separate(files), sample_interval)
    }

    /// Sends one archive of the request.
    pub fn archive(id: u64, target_id: String, request: ArchiveRequest, sample_interval: Duration) -> (r: Self)
        requires
            duration_nanos(sample_interval) > 0,
        ensures
            r.task_id() == id,
            r.task_target() == target_id@,
            r.task_payload() == TransferPayload::Archive(request),
            r.task_interval() == sample_interval,
    {
        Self::new(id, target_id, TransferPayload::Archive(request), sample_interval)
    }

    fn new(id: u64, target_id: String, payload: TransferPayload, sample_interval: Duration) -> (r: Self)
        requires
            duration_nanos(sample_interval) > 0,
        ensures
            r.task_id() == id,
            r.task_target() == target_id@,
            r.task_payload() == payload,
            r.task_interval() == sample_interval,
    {
        TransferTask { id, target_id, payload, sample_interval, cancellation: CancellationToken::default() }
    }

    /// A token that stops this transfer: the task's own token, shared.
    pub fn cancellation_token(&self) -> (r: CancellationToken)
        ensures
            r == self.task_token(),
    {
        self.cancellation.clone()
    }

    /// The parts the transfer is run with: identifier, target, payload,
    /// sampling interval and cancellation.
    pub fn into_parts(self) -> (r: (u64, String, TransferPayload, Duration, CancellationToken))
        ensures
            r.0 == self.task_id(),
            r.1@ == self.task_target(),
            r.2 == self.task_payload(),
            r.3 == self.task_interval(),
            r.4 == self.task_token(),
    {
        (self.id, self.target_id, self.payload, self.sample_interval, self.cancellation)
    }
}

/// Why a transfer failed.
#[derive(Debug)]
pub enum TransferError {
    FileSystem { path: ItemPath, source: std::io::Error },
    FileExpected(ItemPath),
    FileSizeChanged { path: ItemPath, selected_size: u64, current_size: u64 },
    Archive(ArchiveError),
    LocalApi(LocalApiError),
}

/// What a running transfer reports.
#[derive(Debug)]
pub enum TransferEvent {
    Sample { id: u64, item_index: usize, transferred_bytes: u64, bytes_per_second: u64 },
    ItemFinished { id: u64, item_index: usize },
    Finished { id: u64 },
    Cancelled { id: u64 },
    Failed { id: u64, error: TransferError },
}

/// A selected file, opened for sending, must still be a regular file of the
/// size it was selected with.
pub fn check_selected_file(file: &TransferFile, is_file: bool, current_size: u64) -> (r: Result<(), TransferError>)
    ensures
        !is_file ==> (r matches Err(TransferError::FileExpected(p)) && p@ == file.path@),
        is_file && current_size != file.size ==> (r matches Err(TransferError::FileSizeChanged {
            path,
            selected_size,
            current_size: c,
        }) && path@ == file.path@ && selected_size == file.size && c == current_size),
        is_file && current_size == file.size ==> r is Ok,
{
    if !is_file {
        return Err(TransferError::FileExpected(file.path.clone()));
    }
    if current_size != file.size {
        return Err(TransferError::FileSizeChanged {
            path: file.path.clone(),
            selected_size: file.size,
            current_size,
        });
    }
    Ok(())
}

/// The progress sample of a file sent one by one: the bytes of the files
/// already sent plus those of this file.
pub fn separate_sample(id: u64, item_index: usize, completed_bytes: u64, file_bytes: u64, bytes_per_second: u64) -> (r: TransferEvent)
    requires
        completed_bytes + file_bytes <= u64::MAX,
    ensures
        r == (TransferEvent::Sample {
            id,
            item_index,
            transferred_bytes: (completed_bytes + file_bytes) as u64,
            bytes_per_second,
        }),
{
    TransferEvent::Sample { id, item_index, transferred_bytes: completed_bytes + file_bytes, bytes_per_second }
}

/// A file whose request failed ends the transfer: as cancelled when it was
/// cancelled, else as failed with the request's error.
fn separate_push_failed(id: u64, cancelled: bool, error: LocalApiError) -> (r: TransferEvent)
    ensures
        cancelled ==> r == (TransferEvent::Cancelled { id }),
        !cancelled ==> r == (TransferEvent::Failed { id, error: TransferError::LocalApi(error) }),
{
    if cancelled {
        TransferEvent::Cancelled { id }
    } else {
        TransferEvent::Failed { id, error: TransferError::LocalApi(error) }
    }
}

/// How a transfer of an archive ends, from whether it was cancelled, the
/// result of the request and the result of making the archive. A cancelled
/// transfer is cancelled; an archive that failed other than by its reader
/// going away explains the failure best; else a failed request does; a
/// broken pipe with a successful request is still a failure.
pub fn archive_outcome(
    id: u64,
    cancelled: bool,
    send_result: Result<(), LocalApiError>,
    archive_result: Result<(), ArchiveError>,
) -> (r: Vec<TransferEvent>)
    ensures
        cancelled ==> r@ == seq![TransferEvent::Cancelled { id }],
        !cancelled && send_result is Ok && archive_result is Ok ==> r@ == seq![
            TransferEvent::ItemFinished { id, item_index: 0 },
            TransferEvent::Finished { id },
        ],
        !cancelled && archive_result is Err && (!broken_pipe(archive_result->Err_0) || send_result is Ok) ==> r@
            == seq![TransferEvent::Failed { id, error: TransferError::Archive(archive_result->Err_0) }],
        !cancelled && send_result is Err && (archive_result is Ok || broken_pipe(archive_result->Err_0)) ==> r@
            == seq![TransferEvent::Failed { id, error: TransferError::LocalApi(send_result->Err_0) }],
{
    if cancelled {
        return vec![TransferEvent::Cancelled { id }];
    }
    match (send_result, archive_result) {
        (Ok(()), Ok(())) => vec![TransferEvent::ItemFinished { id, item_index: 0 }, TransferEvent::Finished { id }],
        (send, Err(error)) => {
            if !error.is_broken_pipe() {
                vec![TransferEvent::Failed { id, error: TransferError::Archive(error) }]
            } else {
                match send {
                    Err(e) => vec![TransferEvent::Failed { id, error: TransferError::LocalApi(e) }],
                    Ok(()) => vec![TransferEvent::Failed { id, error: TransferError::Archive(error) }],
                }
            }
        },
        (Err(e), Ok(())) => vec![TransferEvent::Failed { id, error: TransferError::LocalApi(e) }],
    }
}

/// Reads from `inner` into `buffer` (`Read::read`). Nothing is stated of
/// the count: `Read` asks every reader for one no larger than the buffer,
/// and the caller checks it.
#[verifier::external_body]
fn read_into<R: Read>(inner: &mut R, buffer: &mut [u8]) -> Result<usize, std::io::Error> {
    inner.read(buffer)
}

/// The total of some sizes.
pub open spec fn size_total(sizes: Seq<u64>) -> nat
    decreases sizes.len(),
{
    if sizes.len() == 0 {
        0
    } else {
        size_total(sizes.drop_last()) + sizes.last() as nat
    }
}

proof fn lemma_size_total_prefix(sizes: Seq<u64>, k: int)
    requires
        0 <= k <= sizes.len(),
    ensures
        size_total(sizes.take(k)) <= size_total(sizes),
    decreases sizes.len() - k,
{
    if k < sizes.len() {
        assert(sizes.take(k + 1).drop_last() =~= sizes.take(k));
        lemma_size_total_prefix(sizes, k + 1);
    } else {
        assert(sizes.take(k) =~= sizes);
    }
}

/// What a transfer of files sent one by one does next.
#[derive(Debug)]
pub enum SeparateStep {
    /// Send file `item_index`; the files before it hold `completed_bytes`.
    Send { item_index: usize, completed_bytes: u64 },
    /// Report this event; the transfer is over.
    End(TransferEvent),
}

pub struct RunView {
    pub id: u64,
    pub sizes: Seq<u64>,
    pub next: int,
    pub completed: int,
    pub ended: bool,
}

/// Where a transfer of files sent one by one stands: which file is next,
/// and how many bytes the files already sent hold.
#[derive(Debug)]
pub struct SeparateRun {
    id: u64,
    sizes: Vec<u64>,
    /// The next file, and the bytes of the files before it.
    position: (usize, u64),
    ended: bool,
}

impl View for SeparateRun {
    type V = RunView;

    closed spec fn view(&self) -> RunView {
        RunView {
            id: self.id,
            sizes: self.sizes@,
            next: self.position.0 as int,
            completed: self.position.1 as int,
            ended: self.ended,
        }
    }
}

impl SeparateRun {
    #[verifier::type_invariant]
    closed spec fn inv(self) -> bool {
        &&& self.position.0 <= self.sizes@.len()
        &&& self.position.1 == size_total(self.sizes@.take(self.position.0 as int))
        &&& size_total(self.sizes@) <= u64::MAX
    }

    /// A run of transfer `id` over `files`, none sent yet; `None` when their
    /// sizes add up past `u64::MAX`.
    pub fn new(id: u64, files: &[TransferFile]) -> (r: Option<Self>)
        ensures
            match r {
                Some(run) => run@ == (RunView {
                    id,
                    sizes: files@.map_values(|f: TransferFile| f.size),
                    next: 0,
                    completed: 0,
                    ended: false,
                }),
                None => size_total(files@.map_values(|f: TransferFile| f.size)) > u64::MAX,
            },
    {
        let ghost all = files@.map_values(|f: TransferFile| f.size);
        let mut sizes: Vec<u64> = Vec::new();
        let mut total: u64 = 0;
        let mut i: usize = 0;
        while i < files.len()
            invariant
                i <= files@.len(),
                all == files@.map_values(|f: TransferFile| f.size),
                sizes@ == all.take(i as int),
                total as nat == size_total(all.take(i as int)),
            decreases files@.len() - i,
        {
            assert(all.take(i + 1).drop_last() =~= all.take(i as int));
            match total.checked_add(files[i].size) {
                Some(t) => total = t,
                None => {
                    proof { lemma_size_total_prefix(all, i + 1); }
                    return None;
                },
            }
            sizes.push(files[i].size);
            assert(sizes@ =~= all.take(i + 1));
            i = i + 1;
        }
        assert(all.take(files@.len() as int) =~= all);
        assert(sizes@.take(0) =~= Seq::<u64>::empty());
        Some(SeparateRun { id, sizes, position: (0, 0), ended: false })
    }

    /// The next step: once every file is sent the transfer is finished;
    /// before a file, a cancelled transfer ends as cancelled; otherwise the
    /// next file is sent.
    pub fn next_step(&mut self, cancelled: bool) -> (r: SeparateStep)
        requires
            !old(self)@.ended,
        ensures
            old(self)@.next == old(self)@.sizes.len() ==> r == SeparateStep::End(TransferEvent::Finished { id: old(self)@.id })
                && final(self)@ == (RunView { ended: true, ..old(self)@ }),
            old(self)@.next < old(self)@.sizes.len() && cancelled ==> r == SeparateStep::End(
                TransferEvent::Cancelled { id: old(self)@.id },
            ) && final(self)@ == (RunView { ended: true, ..old(self)@ }),
            old(self)@.next < old(self)@.sizes.len() && !cancelled ==> r == (SeparateStep::Send {
                item_index: old(self)@.next as usize,
                completed_bytes: old(self)@.completed as u64,
            }) && final(self)@ == old(self)@,
    {
        proof { use_type_invariant(&*self); }
        if self.position.0 == self.sizes.len() {
            self.ended = true;
            SeparateStep::End(TransferEvent::Finished { id: self.id })
        } else if cancelled {
            self.ended = true;
            SeparateStep::End(TransferEvent::Cancelled { id: self.id })
        } else {
            SeparateStep::Send { item_index: self.position.0, completed_bytes: self.position.1 }
        }
    }

    /// The file being sent has been sent: it is reported finished, and the
    /// next one follows.
    pub fn file_sent(&mut self) -> (r: TransferEvent)
        requires
            !old(self)@.ended,
            old(self)@.next < old(self)@.sizes.len(),
        ensures
            r == (TransferEvent::ItemFinished { id: old(self)@.id, item_index: old(self)@.next as usize }),
            final(self)@ == (RunView {
                next: old(self)@.next + 1,
                completed: old(self)@.completed + old(self)@.sizes[old(self)@.next],
                ..old(self)@
            }),
    {
        proof {
            use_type_invariant(&*self);
            let k = self.position.0 as int;
            assert(self.sizes@.take(k + 1).drop_last() =~= self.sizes@.take(k));
            lemma_size_total_prefix(self.sizes@, k + 1);
        }
        let (item_index, completed) = self.position;
        assert(item_index < self.sizes.len());
        self.position = (item_index + 1, completed + self.sizes[item_index]);
        TransferEvent::ItemFinished { id: self.id, item_index }
    }

    /// The file being sent could not be opened or checked: the transfer
    /// fails with that error.
    pub fn file_failed(&mut self, error: TransferError) -> (r: TransferEvent)
        requires
            !old(self)@.ended,
        ensures
            r == (TransferEvent::Failed { id: old(self)@.id, error }),
            final(self)@ == (RunView { ended: true, ..old(self)@ }),
    {
        proof { use_type_invariant(&*self); }
        self.ended = true;
        TransferEvent::Failed { id: self.id, error }
    }

    /// The request for the file being sent failed: the transfer ends as
    /// cancelled when it was cancelled, else as failed with the request's
    /// error.
    pub fn push_failed(&mut self, cancelled: bool, error: LocalApiError) -> (r: TransferEvent)
        requires
            !old(self)@.ended,
        ensures
            cancelled ==> r == (TransferEvent::Cancelled { id: old(self)@.id }),
            !cancelled ==> r == (TransferEvent::Failed { id: old(self)@.id, error: TransferError::LocalApi(error) }),
            final(self)@ == (RunView { ended: true, ..old(self)@ }),
    {
        proof { use_type_invariant(&*self); }
        self.ended = true;
        separate_push_failed(self.id, cancelled, error)
    }
}

/// The rate of a sample in bytes per second, capped at `u64::MAX`; zero
/// when no time has passed.
pub open spec fn sample_rate_of(bytes: nat, elapsed_nanos: nat) -> nat {
    if elapsed_nanos == 0 {
        0
    } else {
        let r = (bytes * 1_000_000_000) / elapsed_nanos;
        if r > u64::MAX { u64::MAX as nat } else { r }
    }
}

pub fn sample_rate(bytes: u64, elapsed_nanos: u128) -> (r: u64)
    ensures
        r == sample_rate_of(bytes as nat, elapsed_nanos as nat),
{
    if elapsed_nanos == 0 {
        return 0;
    }
    let scaled: u128 = (bytes as u128) * 1_000_000_000;
    let rate = scaled / elapsed_nanos;
    if rate > 0xffff_ffff_ffff_ffff { 0xffff_ffff_ffff_ffff } else { rate as u64 }
}

pub struct SamplerView {
    pub expected_size: Option<u64>,
    pub transferred: u64,
    pub last_sample_bytes: u64,
    pub finished: bool,
    pub interval_nanos: nat,
    /// The samples in the sink: byte counts and rates, oldest first.
    pub reported: Seq<(u64, u64)>,
    /// The time, in nanoseconds, that the last counted read saw pass since
    /// the sample before it.
    pub last_elapsed: nat,
}

/// Where a request body's progress samples go. A sample is the number of
/// bytes read so far and the rate, in bytes per second, since the sample
/// before it.
pub trait SampleSink {
    /// The samples this sink has taken, oldest first.
    spec fn samples(&self) -> Seq<(u64, u64)>;

    /// Takes one sample.
    fn emit(&mut self, transferred: u64, bytes_per_second: u64)
        ensures
            final(self).samples() == old(self).samples().push((transferred, bytes_per_second)),
    ;
}

/// A vector of samples keeps each one it is given.
impl SampleSink for Vec<(u64, u64)> {
    open spec fn samples(&self) -> Seq<(u64, u64)> {
        self@
    }

    fn emit(&mut self, transferred: u64, bytes_per_second: u64) {
        self.push((transferred, bytes_per_second));
    }
}

/// A sink that hands each sample to a function, as it comes, and keeps
/// the record of what it handed over.
pub struct SampleCallback<G: Fn(u64, u64)> {
    callback: G,
    handed: Ghost<Seq<(u64, u64)>>,
}

impl<G: Fn(u64, u64)> SampleCallback<G> {
    #[verifier::type_invariant]
    spec fn inv(self) -> bool {
        forall|a: u64, b: u64| #[trigger] self.callback.requires((a, b))
    }

    /// The function that the samples go to.
    pub closed spec fn callback(&self) -> G {
        self.callback
    }

    pub fn new(callback: G) -> (r: Self)
        requires
            forall|a: u64, b: u64| #[trigger] callback.requires((a, b)),
        ensures
            r.samples() == Seq::<(u64, u64)>::empty(),
            r.callback() == callback,
    {
        SampleCallback { callback, handed: Ghost(Seq::empty()) }
    }
}

impl<G: Fn(u64, u64)> SampleSink for SampleCallback<G> {
    closed spec fn samples(&self) -> Seq<(u64, u64)> {
        self.handed@
    }

    /// Calls the function with the sample.
    fn emit(&mut self, transferred: u64, bytes_per_second: u64) {
        proof { use_type_invariant(&*self); }
        (self.callback)(transferred, bytes_per_second);
        self.handed = Ghost(self.handed@.push((transferred, bytes_per_second)));
    }
}

/// Whether a read of `read` bytes, `elapsed` nanoseconds after the last
/// sample, takes a sample: when the sampling interval has passed, when a
/// sized body has just reached its size, or when a body has just ended with
/// bytes not yet reported.
pub open spec fn sample_due(before: SamplerView, read: nat, elapsed: nat) -> bool {
    ||| elapsed >= before.interval_nanos
    ||| (read > 0 && (before.expected_size matches Some(e) && e == before.transferred + read))
    ||| (read == 0 && !before.finished && before.transferred != before.last_sample_bytes)
}

/// Whether `read` more bytes still fit the body: within `u64`, and within
/// its size when it has one.
pub open spec fn fits(before: SamplerView, read: nat) -> bool {
    &&& before.transferred + read <= u64::MAX
    &&& (before.expected_size matches Some(e) ==> before.transferred + read <= e)
}

/// The sample a read takes when one is due: the bytes read so far, and the
/// rate of the bytes read since the last sample over the time that passed.
pub open spec fn sample_of(before: SamplerView, after: SamplerView) -> (u64, u64) {
    (after.transferred, sample_rate_of((after.transferred - before.last_sample_bytes) as nat, after.last_elapsed) as u64)
}

/// What a read that counted `read` bytes does to the sampling state: the
/// bytes are counted, and exactly when a sample is due, at the time the
/// read saw pass (`after.last_elapsed`), the sink takes one sample of the
/// new count.
pub open spec fn counted(before: SamplerView, after: SamplerView, read: nat) -> bool {
    &&& after.transferred == before.transferred + read
    &&& after.finished == (before.finished || read == 0)
    &&& after.expected_size == before.expected_size
    &&& after.interval_nanos == before.interval_nanos
    &&& if sample_due(before, read, after.last_elapsed) {
        after.reported == before.reported.push(sample_of(before, after)) && after.last_sample_bytes == after.transferred
    } else {
        after.reported == before.reported && after.last_sample_bytes == before.last_sample_bytes
    }
}

/// A read that brings a sized body to its size reports that size at once,
/// however long the sampling interval; a read that ends a body with bytes
/// not yet reported reports them.
pub proof fn law_last_bytes_are_reported(before: SamplerView, after: SamplerView, read: nat)
    requires
        counted(before, after, read),
        (read > 0 && before.expected_size == Some((before.transferred + read) as u64)
            && before.transferred + read <= u64::MAX)
            || (read == 0 && !before.finished && before.transferred != before.last_sample_bytes),
    ensures
        after.reported.len() == before.reported.len() + 1,
        after.reported.last().0 == after.transferred,
        after.transferred == before.transferred + read,
{
}

/// Within the sampling interval, a read that neither brings a sized body to
/// its size nor ends it with bytes unreported takes no sample; so a sized
/// body whose size was reported is not reported again when it ends.
pub proof fn law_no_sample_within_interval(before: SamplerView, after: SamplerView, read: nat)
    requires
        counted(before, after, read),
        after.last_elapsed < before.interval_nanos,
        !(read > 0 && before.expected_size == Some((before.transferred + read) as u64)
            && before.transferred + read <= u64::MAX),
        !(read == 0 && !before.finished && before.transferred != before.last_sample_bytes),
    ensures
        after.reported == before.reported,
        after.last_sample_bytes == before.last_sample_bytes,
{
}

/// Whether the byte counts of some samples never decrease and none exceeds
/// `transferred`.
pub open spec fn counts_ordered(reported: Seq<(u64, u64)>, transferred: u64) -> bool {
    &&& forall|i: int, j: int| 0 <= i < j < reported.len() ==> #[trigger] reported[i].0 <= #[trigger] reported[j].0
    &&& forall|i: int| 0 <= i < reported.len() ==> #[trigger] reported[i].0 <= transferred
}

/// A read adds at most one sample, and the byte counts that a body reports
/// never decrease.
pub proof fn law_reported_counts_never_decrease(before: SamplerView, after: SamplerView, read: nat)
    requires
        counted(before, after, read),
        counts_ordered(before.reported, before.transferred),
    ensures
        counts_ordered(after.reported, after.transferred),
        after.reported.len() <= before.reported.len() + 1,
{
}

/// The counting of a request body, and when it was last sampled.
struct Sampler {
    expected_size: Option<u64>,
    transferred: u64,
    last_sample_bytes: u64,
    last_sample_at: Instant,
    sample_interval: u128,
    finished: bool,
    last_elapsed: Ghost<nat>,
}

impl Sampler {
    /// The sampling state, with the samples that a sink has taken.
    spec fn state_with(&self, reported: Seq<(u64, u64)>) -> SamplerView {
        SamplerView {
            expected_size: self.expected_size,
            transferred: self.transferred,
            last_sample_bytes: self.last_sample_bytes,
            finished: self.finished,
            interval_nanos: self.sample_interval as nat,
            reported,
            last_elapsed: self.last_elapsed@,
        }
    }

    #[verifier::type_invariant]
    spec fn inv(self) -> bool {
        &&& self.last_sample_bytes <= self.transferred
        &&& self.sample_interval > 0
        &&& match self.expected_size {
            Some(e) => self.transferred <= e,
            None => true,
        }
    }

    /// Counts `read` more bytes, read at `now`, `elapsed_nanos` after the
    /// last sample, and hands `sink` a sample when one is due.
    fn record<S: SampleSink>(&mut self, sink: &mut S, read: usize, now: Instant, elapsed_nanos: u128) -> (r: Result<(), std::io::Error>)
        ensures
            r is Ok <==> fits(old(self).state_with(old(sink).samples()), read as nat),
            r is Ok ==> counted(
                old(self).state_with(old(sink).samples()),
                final(self).state_with(final(sink).samples()),
                read as nat,
            ) && final(self).last_elapsed@ == elapsed_nanos,
            r is Err ==> final(self).state_with(final(sink).samples()) == old(self).state_with(old(sink).samples()),
    {
        proof { use_type_invariant(&*self); }
        let transferred = match self.transferred.checked_add(read as u64) {
            Some(t) => t,
            None => return Err(io_error_other("the request body is longer than u64::MAX bytes")),
        };
        match self.expected_size {
            Some(expected) => {
                if transferred > expected {
                    return Err(io_error_other("a sized request body cannot exceed its declared size"));
                }
            },
            None => {},
        }
        let reached_expected = read > 0 && match self.expected_size {
            Some(expected) => expected == transferred,
            None => false,
        };
        let stream_finished = read == 0 && !self.finished && transferred != self.last_sample_bytes;
        let sample = elapsed_nanos >= self.sample_interval || reached_expected || stream_finished;
        let finished = self.finished || read == 0;
        if sample {
            let rate = sample_rate(transferred - self.last_sample_bytes, elapsed_nanos);
            sink.emit(transferred, rate);
            self.transferred = transferred;
            self.last_sample_bytes = transferred;
            self.last_sample_at = now;
            self.finished = finished;
        } else {
            self.transferred = transferred;
            self.finished = finished;
        }
        self.last_elapsed = Ghost(elapsed_nanos as nat);
        Ok(())
    }
}

/// A request body that reports its progress: it counts the bytes read from
/// `inner` and hands `sink` the bytes read so far and the rate since the
/// last sample. A cancelled transfer stops the body with an error.
pub struct SampledReader<R, S: SampleSink> {
    inner: R,
    sampler: Sampler,
    cancellation: CancellationToken,
    sink: S,
}

impl<R, S: SampleSink> SampledReader<R, S> {
    pub closed spec fn state(&self) -> SamplerView {
        self.sampler.state_with(self.sink.samples())
    }

    /// The reader that the body's bytes come from.
    pub closed spec fn inner_reader(&self) -> R {
        self.inner
    }

    /// The token that stops this body.
    pub closed spec fn token(&self) -> CancellationToken {
        self.cancellation
    }

    pub fn new(inner: R, expected_size: Option<u64>, sample_interval: Duration, cancellation: CancellationToken, sink: S) -> (r: Self)
        requires
            duration_nanos(sample_interval) > 0,
        ensures
            r.state() == (SamplerView {
                expected_size,
                transferred: 0,
                last_sample_bytes: 0,
                finished: false,
                interval_nanos: duration_nanos(sample_interval),
                reported: sink.samples(),
                last_elapsed: 0,
            }),
            r.inner_reader() == inner,
            r.token() == cancellation,
    {
        let interval = nanos_of(&sample_interval);
        SampledReader {
            inner,
            sampler: Sampler {
                expected_size,
                transferred: 0,
                last_sample_bytes: 0,
                last_sample_at: instant_now(),
                sample_interval: interval,
                finished: false,
                last_elapsed: Ghost(0),
            },
            cancellation,
            sink,
        }
    }

    /// The sink that the samples went to.
    pub fn sink(&self) -> (r: &S)
        ensures
            r.samples() == self.state().reported,
    {
        &self.sink
    }

    /// Takes what the inner reader gave, read at `now`, `elapsed_nanos`
    /// after the last sample: its error is passed on; bytes that fit the
    /// body are counted, sampled when a sample is due, and returned; bytes
    /// past a count of `u64::MAX` or past a sized body's size are an error.
    pub fn count_read(&mut self, inner: Result<usize, std::io::Error>, now: Instant, elapsed_nanos: u128) -> (r: Result<usize, std::io::Error>)
        ensures
            final(self).inner_reader() == old(self).inner_reader(),
            final(self).token() == old(self).token(),
            match inner {
                Err(e) => r == Err::<usize, std::io::Error>(e) && final(self).state() == old(self).state(),
                Ok(n) => if fits(old(self).state(), n as nat) {
                    r == Ok::<usize, std::io::Error>(n) && counted(old(self).state(), final(self).state(), n as nat)
                        && final(self).state().last_elapsed == elapsed_nanos
                } else {
                    r is Err && final(self).state() == old(self).state()
                },
            },
    {
        match inner {
            Err(e) => Err(e),
            Ok(n) => match self.sampler.record(&mut self.sink, n, now, elapsed_nanos) {
                Ok(()) => Ok(n),
                Err(e) => Err(e),
            },
        }
    }
}

impl<R: Read, S: SampleSink> SampledReader<R, S> {
    /// Reads the next bytes of the body, `cancelled` telling whether the
    /// transfer has been cancelled. An empty buffer reads nothing; a
    /// cancelled transfer reads nothing and fails with an error of kind
    /// `Other`; otherwise the inner reader is read once, and what it gave is
    /// taken as `count_read` takes it, at the time read from the clock. A
    /// count larger than the buffer is an error.
    pub fn read_unless_cancelled(&mut self, buffer: &mut [u8], cancelled: bool) -> (r: Result<usize, std::io::Error>)
        ensures
            final(self).token() == old(self).token(),
            old(buffer)@.len() == 0 ==> (r matches Ok(n) && n == 0 && final(self).state() == old(self).state()
                && final(self).inner_reader() == old(self).inner_reader()),
            old(buffer)@.len() > 0 && cancelled ==> (r matches Err(e) && is_other_error(e))
                && final(self).state() == old(self).state()
                && final(self).inner_reader() == old(self).inner_reader(),
            old(buffer)@.len() > 0 && !cancelled ==> (r matches Ok(n) ==> n <= old(buffer)@.len()
                && counted(old(self).state(), final(self).state(), n as nat)),
            r is Err ==> final(self).state() == old(self).state(),
    {
        let capacity = buffer.len();
        if capacity == 0 {
            return Ok(0);
        }
        if cancelled {
            return Err(io_error_other("transfer cancelled"));
        }
        let inner = read_into(&mut self.inner, buffer);
        let inner = match inner {
            Ok(n) => if n <= capacity {
                Ok(n)
            } else {
                Err(io_error_other("the reader returned more bytes than the buffer holds"))
            },
            Err(e) => Err(e),
        };
        let now = instant_now();
        let elapsed = nanos_of(&time_between(&now, &self.sampler.last_sample_at));
        self.count_read(inner, now, elapsed)
    }

    /// Reads the next bytes of the body: `read_unless_cancelled`, with the
    /// transfer's cancellation as it stands.
    pub fn read_sampled(&mut self, buffer: &mut [u8]) -> (r: Result<usize, std::io::Error>)
        ensures
            final(self).token() == old(self).token(),
            old(buffer)@.len() == 0 ==> (r matches Ok(n) && n == 0 && final(self).state() == old(self).state()
                && final(self).inner_reader() == old(self).inner_reader()),
            old(buffer)@.len() > 0 ==> (r matches Ok(n) ==> n <= old(buffer)@.len()
                && counted(old(self).state(), final(self).state(), n as nat)),
            r is Err ==> final(self).state() == old(self).state(),
    {
        if buffer.len() == 0 {
            return Ok(0);
        }
        let cancelled = self.cancellation.is_cancelled();
        self.read_unless_cancelled(buffer, cancelled)
    }
}

impl<R: Read, S: SampleSink> Read for SampledReader<R, S> {
    /// As `read_sampled`.
    fn read(&mut self, buffer: &mut [u8]) -> (r: Result<usize, std::io::Error>)
        ensures
            final(self).token() == old(self).token(),
            old(buffer)@.len() == 0 ==> (r matches Ok(n) && n == 0 && final(self).state() == old(self).state()
                && final(self).inner_reader() == old(self).inner_reader()),
            old(buffer)@.len() > 0 ==> (r matches Ok(n) ==> n <= old(buffer)@.len()
                && counted(old(self).state(), final(self).state(), n as nat)),
            r is Err ==> final(self).state() == old(self).state(),
    {
        self.read_sampled(buffer)
    }
}

} // verus!
