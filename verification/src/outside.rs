//! Outside types that run through the library's values, and the few calls
//! made on them.

use vstd::prelude::*;
use std::time::{Duration, Instant};

verus! {

#[verifier::external_type_specification]
#[verifier::external_body]
pub struct ExIoError(std::io::Error);

#[verifier::external_type_specification]
#[verifier::external_body]
pub struct ExInstant(Instant);

#[verifier::external_type_specification]
#[verifier::external_body]
pub struct ExWalkError(walkdir::Error);

#[verifier::external_type_specification]
#[verifier::external_body]
pub struct ExZipError(zip::result::ZipError);

/// Whether an I/O error is of kind `BrokenPipe` (`io::Error::kind`).
pub uninterp spec fn is_broken_pipe_error(e: std::io::Error) -> bool;

/// `io::Error::kind`, compared with `ErrorKind::BrokenPipe`.
#[verifier::external_body]
pub(crate) fn io_error_is_broken_pipe(e: &std::io::Error) -> (r: bool)
    ensures
        r == is_broken_pipe_error(*e),
{
    e.kind() == std::io::ErrorKind::BrokenPipe
}

/// Whether an I/O error is of kind `Other` (`io::Error::kind`).
pub uninterp spec fn is_other_error(e: std::io::Error) -> bool;

/// `io::Error::other`: an error of kind `Other` carrying the message.
#[verifier::external_body]
pub(crate) fn io_error_other(message: &str) -> (r: std::io::Error)
    ensures
        is_other_error(r),
{
    std::io::Error::other(message.to_owned())
}

/// The I/O error a ZIP error carries, when it is `ZipError::Io`.
pub uninterp spec fn zip_io_source(e: zip::result::ZipError) -> Option<std::io::Error>;

/// The I/O error inside a ZIP error, when it is one (`ZipError::Io`).
#[verifier::external_body]
pub(crate) fn zip_error_io(e: &zip::result::ZipError) -> (r: Option<&std::io::Error>)
    ensures
        match r {
            Some(source) => zip_io_source(*e) == Some(*source),
            None => zip_io_source(*e) is None,
        },
{
    match e {
        zip::result::ZipError::Io(source) => Some(source),
        _ => None,
    }
}

/// The length of a duration in nanoseconds (`Duration::as_nanos`).
pub uninterp spec fn duration_nanos(d: Duration) -> nat;

/// `Duration::as_nanos`.
#[verifier::external_body]
pub(crate) fn nanos_of(d: &Duration) -> (r: u128)
    ensures
        r == duration_nanos(*d),
{
    d.as_nanos()
}

/// `Duration::from_millis`: a duration of `millis` milliseconds.
#[verifier::external_body]
pub(crate) fn duration_from_millis(millis: u64) -> (d: Duration)
    ensures
        duration_nanos(d) == millis as nat * 1_000_000,
{
    Duration::from_millis(millis)
}

/// `Instant::now`: the current time of a monotonic clock.
#[verifier::external_body]
pub(crate) fn instant_now() -> Instant {
    Instant::now()
}

/// `Instant::duration_since`: the time from `earlier` to `later`, zero when
/// `earlier` is the later one.
#[verifier::external_body]
pub(crate) fn time_between(later: &Instant, earlier: &Instant) -> Duration {
    later.duration_since(*earlier)
}

} // verus!
