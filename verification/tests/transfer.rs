use std::io::{Cursor, ErrorKind, Read};
use std::sync::{Arc, Mutex};
use std::time::{Duration, Instant};

use droptail::domain::device::{Connection, Device, IpAddress};
use droptail::domain::transfer::{TransferItemState, TransferSnapshot};
use droptail::path::ItemPath;
use droptail::tailscale::LocalApiError;
use droptail::archive::ArchiveError;
use droptail::transfer::{
    CancellationToken, SampleCallback, SampledReader, SeparateRun, SeparateStep, TransferError, TransferEvent, TransferFile,
    archive_outcome, check_selected_file, sample_interval, sample_rate, separate_sample,
};

fn target() -> Device {
    Device {
        id: "node-1".to_owned(),
        name: "target".to_owned(),
        platform: "linux".to_owned(),
        address: IpAddress::V4([100, 64, 0, 2]),
        connection: Connection::Direct,
    }
}

fn fraction(progress: Option<(u64, u64)>) -> Option<f64> {
    progress.map(|(done, whole)| done as f64 / whole as f64)
}

#[test]
fn cancelling_a_reader_stops_the_request_body() {
    let cancellation = CancellationToken::default();
    let mut reader = SampledReader::new(
        Cursor::new([1_u8, 2, 3]),
        Some(3),
        Duration::from_millis(200),
        cancellation.clone(),
        Vec::<(u64, u64)>::new(),
    );
    cancellation.cancel();

    let error = reader
        .read(&mut [0_u8; 3])
        .expect_err("a cancelled body must stop producing bytes");

    assert_eq!(error.kind(), ErrorKind::Other);
}

#[test]
fn a_sized_body_emits_its_final_sample_before_the_interval() {
    let samples = Arc::new(Mutex::new(Vec::new()));
    let captured_samples = Arc::clone(&samples);
    let mut reader = SampledReader::new(
        Cursor::new([1_u8, 2, 3]),
        Some(3),
        Duration::from_secs(60),
        CancellationToken::default(),
        SampleCallback::new(move |bytes, rate| {
            captured_samples.lock().expect("sample mutex poisoned").push((bytes, rate));
        }),
    );
    let mut body = Vec::new();
    reader.read_to_end(&mut body).expect("sampled body must be readable");

    assert_eq!(body, [1, 2, 3]);
    let samples = samples.lock().expect("sample mutex poisoned");
    assert_eq!(samples.len(), 1);
    assert_eq!(samples[0].0, 3);
}

#[test]
fn progress_advances_the_queue_and_tracks_the_whole_transfer() {
    let mut transfer = TransferSnapshot::new(
        7,
        target(),
        vec!["first.bin".to_owned(), "second.bin".to_owned()],
        Some(10),
    );

    transfer.record_sample(0, 4, 2);
    assert_eq!(fraction(transfer.progress_fraction()), Some(0.4));
    assert_eq!(transfer.bytes_per_second(), 2);

    transfer.finish_item(0);
    assert_eq!(transfer.queue()[0].state, TransferItemState::Sent);
    assert_eq!(transfer.queue()[1].state, TransferItemState::Sending);
    assert_eq!(transfer.current_name(), "second.bin");

    transfer.record_sample(1, 10, 3);
    transfer.finish_item(1);
    assert_eq!(fraction(transfer.progress_fraction()), Some(1.0));
    assert_eq!(transfer.queue()[1].state, TransferItemState::Sent);

    let mut archive = TransferSnapshot::new(8, transfer.target().clone(), vec!["bundle.tar.zst".to_owned()], None);
    archive.record_sample(0, 2048, 1024);
    assert_eq!(archive.progress_fraction(), None);
    assert_eq!(archive.progress_bytes(), None);
    assert_eq!(archive.eta_seconds(), None);
}

#[test]
fn an_empty_total_counts_sent_items() {
    let mut transfer = TransferSnapshot::new(
        1,
        target(),
        vec!["a".to_owned(), "b".to_owned(), "c".to_owned(), "d".to_owned()],
        Some(0),
    );
    assert_eq!(transfer.progress_fraction(), Some((0, 4)));
    transfer.finish_item(0);
    assert_eq!(transfer.progress_fraction(), Some((1, 4)));
    assert_eq!(transfer.current_index(), 1);
    assert_eq!(transfer.eta_seconds(), Some(0));
}

#[test]
fn the_time_left_is_rounded_up() {
    let mut transfer = TransferSnapshot::new(2, target(), vec!["big.iso".to_owned()], Some(1000));
    transfer.record_sample(0, 100, 300);
    assert_eq!(transfer.progress_bytes(), Some((100, 1000)));
    assert_eq!(transfer.eta_seconds(), Some(3));
    transfer.record_sample(0, 1000, 300);
    assert_eq!(transfer.eta_seconds(), Some(0));
    assert!(!transfer.is_cancelling());
    transfer.request_cancel();
    assert!(transfer.is_cancelling());
    assert_eq!(transfer.item_count(), 1);
    assert_eq!(transfer.id(), 2);
}

#[test]
fn rates_are_bytes_per_second_and_capped() {
    assert_eq!(sample_rate(1000, 500_000_000), 2000);
    assert_eq!(sample_rate(1000, 0), 0);
    assert_eq!(sample_rate(3, 2_000_000_000), 1);
    assert_eq!(sample_rate(u64::MAX, 1), u64::MAX);
}

#[test]
fn an_unsized_body_samples_once_when_it_ends() {
    let mut reader = SampledReader::new(
        Cursor::new(vec![7_u8; 10]),
        None,
        Duration::from_secs(60),
        CancellationToken::default(),
        Vec::<(u64, u64)>::new(),
    );
    let mut body = Vec::new();
    reader.read_to_end(&mut body).expect("body must be readable");
    assert_eq!(body.len(), 10);
    let samples = reader.sink();
    assert_eq!(samples.len(), 1);
    assert_eq!(samples[0].0, 10);
}

#[test]
fn a_body_longer_than_its_size_is_refused() {
    let mut reader = SampledReader::new(
        Cursor::new([1_u8, 2, 3, 4]),
        Some(2),
        Duration::from_secs(60),
        CancellationToken::default(),
        Vec::<(u64, u64)>::new(),
    );
    let mut body = Vec::new();
    assert!(reader.read_to_end(&mut body).is_err());
}

#[test]
fn an_empty_buffer_reads_nothing() {
    let mut reader = SampledReader::new(
        Cursor::new([1_u8]),
        Some(1),
        Duration::from_secs(1),
        CancellationToken::default(),
        Vec::<(u64, u64)>::new(),
    );
    assert_eq!(reader.read(&mut []).expect("an empty read succeeds"), 0);
}

fn transfer_file(name: &str, size: u64) -> TransferFile {
    TransferFile { path: ItemPath::from_str(name), name: name.to_owned(), size }
}

#[test]
fn a_run_sends_each_file_then_finishes() {
    let files = vec![transfer_file("a", 3), transfer_file("b", 4)];
    let mut run = SeparateRun::new(9, &files).expect("sizes fit");
    assert!(matches!(run.next_step(false), SeparateStep::Send { item_index: 0, completed_bytes: 0 }));
    assert!(matches!(run.file_sent(), TransferEvent::ItemFinished { id: 9, item_index: 0 }));
    assert!(matches!(run.next_step(false), SeparateStep::Send { item_index: 1, completed_bytes: 3 }));
    assert!(matches!(run.file_sent(), TransferEvent::ItemFinished { id: 9, item_index: 1 }));
    assert!(matches!(run.next_step(true), SeparateStep::End(TransferEvent::Finished { id: 9 })));
}

#[test]
fn a_run_stops_when_cancelled_or_failing() {
    let files = vec![transfer_file("a", 3), transfer_file("b", 4)];
    let mut run = SeparateRun::new(1, &files).expect("sizes fit");
    assert!(matches!(run.next_step(true), SeparateStep::End(TransferEvent::Cancelled { id: 1 })));

    let mut run = SeparateRun::new(2, &files).expect("sizes fit");
    let _ = run.next_step(false);
    assert!(matches!(
        run.push_failed(false, LocalApiError::HttpStatus { status: 500 }),
        TransferEvent::Failed { id: 2, error: TransferError::LocalApi(LocalApiError::HttpStatus { status: 500 }) }
    ));

    let mut run = SeparateRun::new(3, &files).expect("sizes fit");
    let _ = run.next_step(false);
    assert!(matches!(run.push_failed(true, LocalApiError::MissingName), TransferEvent::Cancelled { id: 3 }));

    let mut run = SeparateRun::new(4, &files).expect("sizes fit");
    let _ = run.next_step(false);
    let error = TransferError::FileExpected(ItemPath::from_str("a"));
    assert!(matches!(run.file_failed(error), TransferEvent::Failed { id: 4, error: TransferError::FileExpected(_) }));

    assert!(SeparateRun::new(5, &[transfer_file("x", u64::MAX), transfer_file("y", 1)]).is_none());
}

#[test]
fn a_selected_file_must_keep_its_kind_and_size() {
    let file = transfer_file("notes.txt", 12);
    assert!(check_selected_file(&file, true, 12).is_ok());
    assert!(matches!(check_selected_file(&file, false, 12), Err(TransferError::FileExpected(_))));
    match check_selected_file(&file, true, 13) {
        Err(TransferError::FileSizeChanged { path, selected_size, current_size }) => {
            assert_eq!(path, ItemPath::from_str("notes.txt"));
            assert_eq!(selected_size, 12);
            assert_eq!(current_size, 13);
        }
        other => panic!("unexpected result {other:?}"),
    }
}

#[test]
fn samples_of_separate_files_count_the_files_before() {
    assert!(matches!(
        separate_sample(3, 1, 100, 20, 7),
        TransferEvent::Sample { id: 3, item_index: 1, transferred_bytes: 120, bytes_per_second: 7 }
    ));
}

#[test]
fn an_archive_transfer_ends_by_its_request_and_its_archive() {
    let events = archive_outcome(1, false, Ok(()), Ok(()));
    assert!(matches!(
        events.as_slice(),
        [TransferEvent::ItemFinished { id: 1, item_index: 0 }, TransferEvent::Finished { id: 1 }]
    ));

    let events = archive_outcome(2, true, Err(LocalApiError::MissingName), Ok(()));
    assert!(matches!(events.as_slice(), [TransferEvent::Cancelled { id: 2 }]));

    let events = archive_outcome(3, false, Err(LocalApiError::HttpStatus { status: 500 }), Ok(()));
    assert!(matches!(events.as_slice(), [TransferEvent::Failed { id: 3, error: TransferError::LocalApi(_) }]));

    let broken = ArchiveError::Output(std::io::Error::from(ErrorKind::BrokenPipe));
    let events = archive_outcome(4, false, Err(LocalApiError::HttpStatus { status: 403 }), Err(broken));
    assert!(matches!(events.as_slice(), [TransferEvent::Failed { id: 4, error: TransferError::LocalApi(_) }]));

    let events = archive_outcome(5, false, Err(LocalApiError::HttpStatus { status: 403 }), Err(ArchiveError::WorkerPanicked));
    assert!(matches!(
        events.as_slice(),
        [TransferEvent::Failed { id: 5, error: TransferError::Archive(ArchiveError::WorkerPanicked) }]
    ));

    let broken = ArchiveError::Output(std::io::Error::from(ErrorKind::BrokenPipe));
    let events = archive_outcome(6, false, Ok(()), Err(broken));
    assert!(matches!(events.as_slice(), [TransferEvent::Failed { id: 6, error: TransferError::Archive(_) }]));
}

fn recording_reader(
    bytes: Vec<u8>,
    expected: Option<u64>,
) -> (SampledReader<Cursor<Vec<u8>>, SampleCallback<impl Fn(u64, u64)>>, Arc<Mutex<Vec<(u64, u64)>>>) {
    let samples = Arc::new(Mutex::new(Vec::new()));
    let captured = Arc::clone(&samples);
    let reader = SampledReader::new(
        Cursor::new(bytes),
        expected,
        sample_interval(1000),
        CancellationToken::default(),
        SampleCallback::new(move |bytes, rate| captured.lock().expect("sample mutex poisoned").push((bytes, rate))),
    );
    (reader, samples)
}

#[test]
fn samples_are_taken_when_the_interval_has_passed() {
    let (mut reader, samples) = recording_reader(vec![0; 10], None);
    let now = Instant::now();
    assert_eq!(reader.count_read(Ok(4), now, 999_999_999).expect("bytes fit"), 4);
    assert!(samples.lock().expect("sample mutex poisoned").is_empty());
    assert_eq!(reader.count_read(Ok(2), now, 1_000_000_000).expect("bytes fit"), 2);
    assert_eq!(*samples.lock().expect("sample mutex poisoned"), [(6, 6)]);
    assert_eq!(reader.count_read(Ok(0), now, 5).expect("the end fits"), 0);
    assert_eq!(samples.lock().expect("sample mutex poisoned").len(), 1);
}

#[test]
fn a_sized_body_is_reported_once_at_its_size() {
    let (mut reader, samples) = recording_reader(vec![0; 3], Some(3));
    let now = Instant::now();
    assert_eq!(reader.count_read(Ok(3), now, 10).expect("bytes fit"), 3);
    assert_eq!(reader.count_read(Ok(0), now, 20).expect("the end fits"), 0);
    let samples = samples.lock().expect("sample mutex poisoned");
    assert_eq!(samples.len(), 1);
    assert_eq!(samples[0].0, 3);
}

#[test]
fn reads_past_the_size_and_inner_errors_fail() {
    let (mut reader, samples) = recording_reader(vec![0; 3], Some(3));
    let now = Instant::now();
    assert!(reader.count_read(Ok(4), now, 0).is_err());
    let inner = Err(std::io::Error::from(ErrorKind::ConnectionReset));
    assert_eq!(reader.count_read(inner, now, 0).expect_err("passed on").kind(), ErrorKind::ConnectionReset);
    assert!(samples.lock().expect("sample mutex poisoned").is_empty());
}

#[test]
fn a_cancelled_read_reads_nothing() {
    let (mut reader, samples) = recording_reader(vec![1, 2, 3], Some(3));
    let mut buffer = [0_u8; 3];
    assert_eq!(reader.read_unless_cancelled(&mut buffer, true).expect_err("cancelled").kind(), ErrorKind::Other);
    assert_eq!(buffer, [0, 0, 0]);
    assert_eq!(reader.read_unless_cancelled(&mut [], true).expect("an empty read succeeds"), 0);
    assert_eq!(reader.read_unless_cancelled(&mut buffer, false).expect("not cancelled"), 3);
    assert_eq!(buffer, [1, 2, 3]);
    assert_eq!(samples.lock().expect("sample mutex poisoned").len(), 1);
}

#[test]
fn sampling_intervals_are_whole_milliseconds() {
    assert_eq!(sample_interval(250), Duration::from_millis(250));
}

#[test]
fn a_vector_sink_keeps_each_sample_with_its_rate() {
    let mut reader = SampledReader::new(
        Cursor::new(vec![0_u8; 8]),
        Some(8),
        sample_interval(1000),
        CancellationToken::default(),
        vec![(1_u64, 1_u64)],
    );
    let now = Instant::now();
    assert_eq!(reader.count_read(Ok(2), now, 2_000_000_000).expect("bytes fit"), 2);
    assert_eq!(reader.count_read(Ok(6), now, 500_000_000).expect("bytes fit"), 6);
    assert_eq!(reader.sink().as_slice(), [(1, 1), (2, 1), (8, 12)]);
    assert!(reader.sink().windows(2).all(|pair| pair[0].0 <= pair[1].0));
}
