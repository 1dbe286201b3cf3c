//! The attribute remediator: check, then remove.
//!
//! Remediating a path takes at most two calls into the attribute layer of the
//! operating system. The marker is read first; only when it is there is its
//! removal asked for. The functions here decide what follows each answer;
//! making the calls is the caller's part.

use vstd::prelude::*;

verus! {

/// The name of the extended attribute that marks a file as quarantined.
pub const QUARANTINE_ATTRIBUTE: &'static str = "com.apple.quarantine";

/// Why a path could not be remediated. `E` is the error of the attribute layer.
#[derive(Debug, PartialEq, Eq)]
pub enum RemediationError<E> {
    /// Reading the marker failed.
    Inspection(E),
    /// The marker was there, and removing it failed.
    Removal(E),
}

/// Where a remediation stands once the marker has been read.
#[derive(Debug, PartialEq, Eq)]
pub enum Finding<E> {
    /// The marker is there: its removal is to be asked for next.
    Marked,
    /// The remediation is over: the marker was absent, or could not be read.
    Settled(Result<bool, RemediationError<E>>),
}

/// Whether a reading of the attribute found it, whatever its value.
pub open spec fn presence<E>(reading: Result<Option<Vec<u8>>, E>) -> Result<bool, E> {
    match reading {
        Ok(value) => Ok(value is Some),
        Err(failure) => Err(failure),
    }
}

/// What follows from knowing whether the marker is present.
pub open spec fn finding<E>(presence: Result<bool, E>) -> Finding<E> {
    match presence {
        Ok(true) => Finding::Marked,
        Ok(false) => Finding::Settled(Ok(false)),
        Err(failure) => Finding::Settled(Err(RemediationError::Inspection(failure))),
    }
}

/// How a remediation ends once the removal of the marker was attempted.
pub open spec fn verdict<E>(removal: Result<(), E>) -> Result<bool, RemediationError<E>> {
    match removal {
        Ok(_) => Ok(true),
        Err(failure) => Err(RemediationError::Removal(failure)),
    }
}

/// Decides what follows a reading of the marker: an absent marker ends the
/// remediation with `false`, a failed reading ends it with the failure, and a
/// present marker asks for its removal. The value of the attribute plays no
/// part.
pub fn examine<E>(reading: Result<Option<Vec<u8>>, E>) -> (found: Finding<E>)
    ensures
        found == finding(presence(reading)),
{
    match reading {
        Ok(Some(_)) => Finding::Marked,
        Ok(None) => Finding::Settled(Ok(false)),
        Err(failure) => Finding::Settled(Err(RemediationError::Inspection(failure))),
    }
}

/// Decides how a remediation ends after the removal of the marker: with
/// `true` when the marker is gone, with the failure when the removal failed.
pub fn conclude<E>(removal: Result<(), E>) -> (outcome: Result<bool, RemediationError<E>>)
    ensures
        outcome == verdict(removal),
{
    match removal {
        Ok(_) => Ok(true),
        Err(failure) => Err(RemediationError::Removal(failure)),
    }
}

} // verus!
