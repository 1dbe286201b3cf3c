//! What the daemon has to say about its work, as values: the caller decides
//! where and how they are written down.

use vstd::prelude::*;
use crate::remediator::RemediationError;

verus! {

/// One line of the daemon's log. `P` is the path type, `E` the error type of
/// the layers below.
#[derive(Debug, PartialEq, Eq)]
pub enum LogRecord<P, E> {
    /// A directory is now watched.
    Watching(P),
    /// A directory could not be watched; the others are not affected.
    WatchFailed(P, E),
    /// The delivery channel handed over a failure in place of a notification.
    ReceiveFailed(E),
    /// The marker was present on the path and has been removed.
    Unquarantined(P),
    /// The path carried no marker: nothing was changed.
    AlreadyClean(P),
    /// The path could not be remediated; no other path is affected.
    RemediationFailed(P, RemediationError<E>),
}

/// The record of an attempt to watch `target`.
pub open spec fn registration_record<P, E>(target: P, outcome: Result<(), E>) -> LogRecord<P, E> {
    match outcome {
        Ok(_) => LogRecord::Watching(target),
        Err(failure) => LogRecord::WatchFailed(target, failure),
    }
}

/// The record of a finished remediation of `path`.
pub open spec fn remediation_record<P, E>(
    path: P,
    outcome: Result<bool, RemediationError<E>>,
) -> LogRecord<P, E> {
    match outcome {
        Ok(true) => LogRecord::Unquarantined(path),
        Ok(false) => LogRecord::AlreadyClean(path),
        Err(failure) => LogRecord::RemediationFailed(path, failure),
    }
}

/// Records how the attempt to watch `target` ended.
pub fn record_registration<P, E>(target: P, outcome: Result<(), E>) -> (record: LogRecord<P, E>)
    ensures
        record == registration_record(target, outcome),
{
    match outcome {
        Ok(_) => LogRecord::Watching(target),
        Err(failure) => LogRecord::WatchFailed(target, failure),
    }
}

/// Records how the remediation of `path` ended: whether it changed anything,
/// found nothing to change, or failed.
pub fn record_remediation<P, E>(path: P, outcome: Result<bool, RemediationError<E>>) -> (record:
    LogRecord<P, E>)
    ensures
        record == remediation_record(path, outcome),
{
    match outcome {
        Ok(true) => LogRecord::Unquarantined(path),
        Ok(false) => LogRecord::AlreadyClean(path),
        Err(failure) => LogRecord::RemediationFailed(path, failure),
    }
}

} // verus!
