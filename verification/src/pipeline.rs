//! The pipeline from watch subscriptions to remediated files, as a state
//! machine without I/O of its own.
//!
//! A [`Pipeline`] says through [`Pipeline::request`] what is to be done next.
//! Its driver does that and reports what came of it through the method that
//! takes such an answer; the method returns the pipeline in its next state
//! and, where the step is worth a log line, the record of it. An answer to a
//! question that the pipeline did not ask changes nothing.
//!
//! The configured directories are subscribed first, one after the other, and
//! a failed subscription is recorded and passed over. From then on the
//! pipeline handles one delivery of the channel at a time, in the order of
//! delivery: a creation is classified, and each of its candidates is
//! remediated before the next delivery is taken. No failure of a single
//! delivery or path stops the pipeline; only the closing of the channel does.

use vstd::prelude::*;
use std::collections::VecDeque;
use crate::classifier::{candidates, classify};
use crate::journal::{
    record_registration,
    record_remediation,
    registration_record,
    remediation_record,
    LogRecord,
};
use crate::notification::{Delivery, DeliveryView, RawNotification, RawNotificationView};
use crate::remediator::{conclude, examine, finding, presence, verdict, Finding};

verus! {

/// The state of the pipeline.
#[derive(Debug, PartialEq, Eq)]
pub enum Pipeline<P> {
    /// `target` is to be subscribed; `rest` waits behind it.
    Registering { target: P, rest: VecDeque<P> },
    /// The next delivery of the channel is awaited.
    Awaiting,
    /// A creation was delivered; which of its paths exist is to be found out.
    Classifying { notification: RawNotification<P> },
    /// The marker of `candidate` is to be read; `rest` waits behind it.
    Inspecting { candidate: P, rest: VecDeque<P> },
    /// `candidate` carries the marker, which is to be removed.
    Removing { candidate: P, rest: VecDeque<P> },
    /// The channel is closed: the pipeline has come to its end.
    Halted,
}

/// The state of the pipeline as contracts speak of it.
pub enum PipelineView<P> {
    Registering { target: P, rest: Seq<P> },
    Awaiting,
    Classifying { notification: RawNotificationView<P> },
    Inspecting { candidate: P, rest: Seq<P> },
    Removing { candidate: P, rest: Seq<P> },
    Halted,
}

impl<P> View for Pipeline<P> {
    type V = PipelineView<P>;

    open spec fn view(&self) -> PipelineView<P> {
        match *self {
            Pipeline::Registering { target, rest } => PipelineView::Registering {
                target,
                rest: rest@,
            },
            Pipeline::Awaiting => PipelineView::Awaiting,
            Pipeline::Classifying { notification } => PipelineView::Classifying {
                notification: notification@,
            },
            Pipeline::Inspecting { candidate, rest } => PipelineView::Inspecting {
                candidate,
                rest: rest@,
            },
            Pipeline::Removing { candidate, rest } => PipelineView::Removing {
                candidate,
                rest: rest@,
            },
            Pipeline::Halted => PipelineView::Halted,
        }
    }
}

/// What the pipeline asks of its driver.
#[derive(Debug, PartialEq, Eq)]
pub enum Request<'a, P> {
    /// Subscribe to changes in the whole subtree of this directory, and report
    /// through [`Pipeline::watched`].
    WatchRecursively(&'a P),
    /// Wait for the next item of the delivery channel, and report through
    /// [`Pipeline::received`].
    Receive,
    /// Find out which of these paths exist now, and report through
    /// [`Pipeline::probed`].
    ProbeExistence(&'a Vec<P>),
    /// Read the quarantine marker of this path, and report through
    /// [`Pipeline::inspected`].
    ReadMarker(&'a P),
    /// Remove the quarantine marker from this path, and report through
    /// [`Pipeline::removed`].
    RemoveMarker(&'a P),
    /// Nothing is left to do.
    Stop,
}

/// A request as contracts speak of it.
pub enum RequestView<P> {
    WatchRecursively(P),
    Receive,
    ProbeExistence(Seq<P>),
    ReadMarker(P),
    RemoveMarker(P),
    Stop,
}

impl<'a, P> View for Request<'a, P> {
    type V = RequestView<P>;

    open spec fn view(&self) -> RequestView<P> {
        match *self {
            Request::WatchRecursively(target) => RequestView::WatchRecursively(*target),
            Request::Receive => RequestView::Receive,
            Request::ProbeExistence(paths) => RequestView::ProbeExistence(paths@),
            Request::ReadMarker(path) => RequestView::ReadMarker(*path),
            Request::RemoveMarker(path) => RequestView::RemoveMarker(*path),
            Request::Stop => RequestView::Stop,
        }
    }
}

/// The state in which `targets` are still to be subscribed.
pub open spec fn registering<P>(targets: Seq<P>) -> PipelineView<P> {
    if targets.len() == 0 {
        PipelineView::Awaiting
    } else {
        PipelineView::Registering { target: targets.first(), rest: targets.drop_first() }
    }
}

/// The state in which `paths` are still to be remediated.
pub open spec fn remediating<P>(paths: Seq<P>) -> PipelineView<P> {
    if paths.len() == 0 {
        PipelineView::Awaiting
    } else {
        PipelineView::Inspecting { candidate: paths.first(), rest: paths.drop_first() }
    }
}

/// What a state asks of the driver.
pub open spec fn request_of<P>(stage: PipelineView<P>) -> RequestView<P> {
    match stage {
        PipelineView::Registering { target, .. } => RequestView::WatchRecursively(target),
        PipelineView::Awaiting => RequestView::Receive,
        PipelineView::Classifying { notification } => RequestView::ProbeExistence(
            notification.paths,
        ),
        PipelineView::Inspecting { candidate, .. } => RequestView::ReadMarker(candidate),
        PipelineView::Removing { candidate, .. } => RequestView::RemoveMarker(candidate),
        PipelineView::Halted => RequestView::Stop,
    }
}

/// The step taken when a subscription has been attempted.
pub open spec fn after_watch<P, E>(stage: PipelineView<P>, outcome: Result<(), E>) -> (
    PipelineView<P>,
    Option<LogRecord<P, E>>,
) {
    match stage {
        PipelineView::Registering { target, rest } => (
            registering(rest),
            Some(registration_record(target, outcome)),
        ),
        _ => (stage, None),
    }
}

/// The step taken when the channel has handed over an item.
pub open spec fn after_delivery<P, E>(stage: PipelineView<P>, delivery: DeliveryView<P, E>) -> (
    PipelineView<P>,
    Option<LogRecord<P, E>>,
) {
    match stage {
        PipelineView::Awaiting => match delivery {
            DeliveryView::Notification(notification) => if notification.kind is Create {
                (PipelineView::Classifying { notification }, None)
            } else {
                (PipelineView::Awaiting, None)
            },
            DeliveryView::Failure(failure) => (
                PipelineView::Awaiting,
                Some(LogRecord::ReceiveFailed(failure)),
            ),
            DeliveryView::Closed => (PipelineView::Halted, None),
        },
        _ => (stage, None),
    }
}

/// The step taken when the existence of the notification's paths is known.
pub open spec fn after_probe<P>(stage: PipelineView<P>, exists: Seq<bool>) -> PipelineView<P> {
    match stage {
        PipelineView::Classifying { notification } => remediating(
            candidates(notification, exists),
        ),
        _ => stage,
    }
}

/// The step taken when the marker of the candidate has been read.
pub open spec fn after_inspection<P, E>(stage: PipelineView<P>, presence: Result<bool, E>) -> (
    PipelineView<P>,
    Option<LogRecord<P, E>>,
) {
    match stage {
        PipelineView::Inspecting { candidate, rest } => match finding(presence) {
            Finding::Marked => (PipelineView::Removing { candidate, rest }, None),
            Finding::Settled(outcome) => (
                remediating(rest),
                Some(remediation_record(candidate, outcome)),
            ),
        },
        _ => (stage, None),
    }
}

/// The step taken when the removal of the marker has been attempted.
pub open spec fn after_removal<P, E>(stage: PipelineView<P>, removal: Result<(), E>) -> (
    PipelineView<P>,
    Option<LogRecord<P, E>>,
) {
    match stage {
        PipelineView::Removing { candidate, rest } => (
            remediating(rest),
            Some(remediation_record(candidate, verdict(removal))),
        ),
        _ => (stage, None),
    }
}

fn queue_of<P>(items: Vec<P>) -> (queue: VecDeque<P>)
    ensures
        queue@ == items@,
{
    let mut queue: VecDeque<P> = VecDeque::new();
    let ghost all = items@;
    for item in it: items
        invariant
            it.seq() == all,
            queue@ == all.take(it.index() as int),
    {
        queue.push_back(item);
    }
    queue
}

fn register_next<P>(targets: VecDeque<P>) -> (next: Pipeline<P>)
    ensures
        next@ == registering(targets@),
{
    let mut rest = targets;
    match rest.pop_front() {
        Some(target) => {
            Pipeline::Registering { target, rest }
        },
        None => Pipeline::Awaiting,
    }
}

fn remediate_next<P>(paths: VecDeque<P>) -> (next: Pipeline<P>)
    ensures
        next@ == remediating(paths@),
{
    let mut rest = paths;
    match rest.pop_front() {
        Some(candidate) => {
            Pipeline::Inspecting { candidate, rest }
        },
        None => Pipeline::Awaiting,
    }
}

impl<P> Pipeline<P> {
    /// The pipeline at startup, with the directories to watch in the order in
    /// which they are to be subscribed. An empty list is in order: the
    /// pipeline then watches nothing and awaits deliveries at once.
    pub fn start(targets: Vec<P>) -> (pipeline: Pipeline<P>)
        ensures
            pipeline@ == registering(targets@),
    {
        register_next(queue_of(targets))
    }

    /// What the driver is to do next.
    pub fn request(&self) -> (request: Request<'_, P>)
        ensures
            request@ == request_of(self@),
    {
        match self {
            Pipeline::Registering { target, .. } => Request::WatchRecursively(target),
            Pipeline::Awaiting => Request::Receive,
            Pipeline::Classifying { notification } => Request::ProbeExistence(
                &notification.paths,
            ),
            Pipeline::Inspecting { candidate, .. } => Request::ReadMarker(candidate),
            Pipeline::Removing { candidate, .. } => Request::RemoveMarker(candidate),
            Pipeline::Halted => Request::Stop,
        }
    }

    /// Takes the outcome of subscribing the target. Whether it succeeded or
    /// failed, the outcome is recorded and the remaining targets follow.
    pub fn watched<E>(self, outcome: Result<(), E>) -> (step: (Pipeline<P>, Option<LogRecord<P, E>>))
        ensures
            (step.0@, step.1) == after_watch(self@, outcome),
    {
        match self {
            Pipeline::Registering { target, rest } => (
                register_next(rest),
                Some(record_registration(target, outcome)),
            ),
            other => (other, None),
        }
    }

    /// Takes an item of the delivery channel. A creation goes on to be
    /// classified, any other notification is dropped, a failure is recorded
    /// and the next item awaited, and the closing of the channel halts the
    /// pipeline.
    pub fn received<E>(self, delivery: Delivery<P, E>) -> (step: (
        Pipeline<P>,
        Option<LogRecord<P, E>>,
    ))
        ensures
            (step.0@, step.1) == after_delivery(self@, delivery@),
            step.0@ is Halted ==> self@ is Halted || delivery is Closed,
    {
        match self {
            Pipeline::Awaiting => match delivery {
                Delivery::Notification(notification) => {
                    if notification.kind.is_creation() {
                        (Pipeline::Classifying { notification }, None)
                    } else {
                        (Pipeline::Awaiting, None)
                    }
                },
                Delivery::Failure(failure) => (
                    Pipeline::Awaiting,
                    Some(LogRecord::ReceiveFailed(failure)),
                ),
                Delivery::Closed => (Pipeline::Halted, None),
            },
            other => (other, None),
        }
    }

    /// Takes, for each path of the notification in turn, whether it exists.
    /// The paths that do are remediated one after the other; the others are
    /// dropped without a word.
    pub fn probed(self, exists: &Vec<bool>) -> (next: Pipeline<P>)
        ensures
            next@ == after_probe(self@, exists@),
    {
        match self {
            Pipeline::Classifying { notification } => remediate_next(
                queue_of(classify(notification, exists)),
            ),
            other => other,
        }
    }

    /// Takes the reading of the candidate's marker. A marker that is there is
    /// to be removed next; otherwise the remediation of this candidate is
    /// over and recorded, and the next candidate follows.
    pub fn inspected<E>(self, reading: Result<Option<Vec<u8>>, E>) -> (step: (
        Pipeline<P>,
        Option<LogRecord<P, E>>,
    ))
        ensures
            (step.0@, step.1) == after_inspection(self@, presence(reading)),
    {
        match self {
            Pipeline::Inspecting { candidate, rest } => match examine(reading) {
                Finding::Marked => (Pipeline::Removing { candidate, rest }, None),
                Finding::Settled(outcome) => (
                    remediate_next(rest),
                    Some(record_remediation(candidate, outcome)),
                ),
            },
            other => (other, None),
        }
    }

    /// Takes the outcome of removing the candidate's marker. It is recorded,
    /// and the next candidate follows.
    pub fn removed<E>(self, removal: Result<(), E>) -> (step: (
        Pipeline<P>,
        Option<LogRecord<P, E>>,
    ))
        ensures
            (step.0@, step.1) == after_removal(self@, removal),
    {
        match self {
            Pipeline::Removing { candidate, rest } => (
                remediate_next(rest),
                Some(record_remediation(candidate, conclude(removal))),
            ),
            other => (other, None),
        }
    }
}

} // verus!
