//! A model of what surrounds the pipeline: the file system with its markers,
//! and the watch layer. It is ghost code: none of it is compiled. The laws of
//! the library are stated over it, by letting the model answer each request
//! of the pipeline as a system would that nothing else disturbs.

use vstd::prelude::*;
use crate::classifier::candidates_are_no_more;
use crate::journal::{registration_record, remediation_record, LogRecord};
use crate::notification::DeliveryView;
use crate::pipeline::{
    after_delivery,
    after_inspection,
    after_probe,
    after_removal,
    after_watch,
    request_of,
    PipelineView,
    RequestView,
};
use crate::remediator::{finding, verdict, Finding, RemediationError};

verus! {

/// The surroundings at one instant.
#[verifier::reject_recursive_types(P)]
pub struct World<P, E> {
    /// The paths that exist.
    pub existing: Set<P>,
    /// The paths that carry the quarantine marker.
    pub marked: Set<P>,
    /// The paths whose marker cannot be read, each with the error that reading
    /// gives.
    pub unreadable: Map<P, E>,
    /// The paths whose marker cannot be removed, each with the error that
    /// removing gives.
    pub stuck: Map<P, E>,
    /// The directories that cannot be watched, each with the error that
    /// subscribing gives.
    pub unwatchable: Map<P, E>,
    /// The directories whose subtrees are watched.
    pub watched: Set<P>,
    /// The error that removing gives where there is no marker to remove.
    pub missing: E,
}

impl<P, E> World<P, E> {
    /// What the watch layer answers when asked to watch the subtree of
    /// `target`, and the world after that.
    pub open spec fn register(self, target: P) -> (Result<(), E>, World<P, E>) {
        if self.unwatchable.dom().contains(target) {
            (Err(self.unwatchable[target]), self)
        } else {
            (Ok(()), World { watched: self.watched.insert(target), ..self })
        }
    }

    /// What a look at `paths` tells: for each in turn, whether it exists.
    pub open spec fn probe(self, paths: Seq<P>) -> Seq<bool> {
        Seq::new(paths.len(), |i: int| self.existing.contains(paths[i]))
    }

    /// What the attribute layer answers when asked whether `path` carries the
    /// marker.
    pub open spec fn read_marker(self, path: P) -> Result<bool, E> {
        if self.unreadable.dom().contains(path) {
            Err(self.unreadable[path])
        } else {
            Ok(self.marked.contains(path))
        }
    }

    /// Whether the marker of `path` can be read and, if it is there, removed.
    pub open spec fn obliging(self, path: P) -> bool {
        !self.unreadable.dom().contains(path) && !self.stuck.dom().contains(path)
    }

    /// The world once `path` has lost its marker.
    pub open spec fn without_marker(self, path: P) -> World<P, E> {
        World { marked: self.marked.remove(path), ..self }
    }

    /// What the attribute layer answers when asked to remove the marker of
    /// `path`, and the world after that.
    pub open spec fn remove_marker(self, path: P) -> (Result<(), E>, World<P, E>) {
        if !self.marked.contains(path) {
            (Err(self.missing), self)
        } else if self.stuck.dom().contains(path) {
            (Err(self.stuck[path]), self)
        } else {
            (Ok(()), self.without_marker(path))
        }
    }

    /// The remediation of `path` in this world: how it ends, and the world
    /// after it. The marker is read; if it is there, its removal follows.
    pub open spec fn remediate(self, path: P) -> (Result<bool, RemediationError<E>>, World<P, E>) {
        match finding(self.read_marker(path)) {
            Finding::Marked => {
                let (removal, after) = self.remove_marker(path);
                (verdict(removal), after)
            },
            Finding::Settled(outcome) => (outcome, self),
        }
    }

    /// The remediation of `paths`, one after the other: the record of each,
    /// and the world after the last.
    pub open spec fn remediate_each(self, paths: Seq<P>) -> (Seq<LogRecord<P, E>>, World<P, E>)
        decreases paths.len(),
    {
        if paths.len() == 0 {
            (Seq::empty(), self)
        } else {
            let (outcome, after) = self.remediate(paths.first());
            let (records, end) = after.remediate_each(paths.drop_first());
            (seq![remediation_record(paths.first(), outcome)] + records, end)
        }
    }

    /// The registration of `targets`, one after the other: the record of each,
    /// and the world after the last.
    pub open spec fn register_each(self, targets: Seq<P>) -> (Seq<LogRecord<P, E>>, World<P, E>)
        decreases targets.len(),
    {
        if targets.len() == 0 {
            (Seq::empty(), self)
        } else {
            let (outcome, after) = self.register(targets.first());
            let (records, end) = after.register_each(targets.drop_first());
            (seq![registration_record(targets.first(), outcome)] + records, end)
        }
    }
}

/// The pipeline at work in a world: where both stand, and what has been
/// recorded so far.
#[verifier::reject_recursive_types(P)]
pub struct Run<P, E> {
    pub world: World<P, E>,
    pub stage: PipelineView<P>,
    pub log: Seq<LogRecord<P, E>>,
}

/// The log with the record of one more step, if the step left one.
pub open spec fn logged<P, E>(log: Seq<LogRecord<P, E>>, record: Option<LogRecord<P, E>>) -> Seq<
    LogRecord<P, E>,
> {
    match record {
        Some(record) => log.push(record),
        None => log,
    }
}

/// Whether a state asks nothing of the world: it waits for a delivery, or has
/// halted.
pub open spec fn idle<P>(stage: PipelineView<P>) -> bool {
    stage is Awaiting || stage is Halted
}

/// One step of the pipeline, with the world answering what the pipeline asks.
/// An idle pipeline takes no step.
pub open spec fn drive<P, E>(run: Run<P, E>) -> Run<P, E> {
    match request_of(run.stage) {
        RequestView::WatchRecursively(target) => {
            let (outcome, world) = run.world.register(target);
            let step = after_watch(run.stage, outcome);
            Run { world, stage: step.0, log: logged(run.log, step.1) }
        },
        RequestView::ProbeExistence(paths) => Run {
            world: run.world,
            stage: after_probe(run.stage, run.world.probe(paths)),
            log: run.log,
        },
        RequestView::ReadMarker(path) => {
            let step = after_inspection(run.stage, run.world.read_marker(path));
            Run { world: run.world, stage: step.0, log: logged(run.log, step.1) }
        },
        RequestView::RemoveMarker(path) => {
            let (removal, world) = run.world.remove_marker(path);
            let step = after_removal(run.stage, removal);
            Run { world, stage: step.0, log: logged(run.log, step.1) }
        },
        RequestView::Receive => run,
        RequestView::Stop => run,
    }
}

/// How many steps a state is from being idle, at most.
pub open spec fn work<P>(stage: PipelineView<P>) -> nat {
    match stage {
        PipelineView::Registering { rest, .. } => rest.len() + 1,
        PipelineView::Classifying { notification } => 2 * notification.paths.len() + 1,
        PipelineView::Inspecting { rest, .. } => 2 * rest.len() + 2,
        PipelineView::Removing { rest, .. } => 2 * rest.len() + 1,
        PipelineView::Awaiting => 0,
        PipelineView::Halted => 0,
    }
}

/// The pipeline driven until it is idle.
pub open spec fn settle<P, E>(run: Run<P, E>) -> Run<P, E>
    decreases work(run.stage),
    via settle_ends::<P, E>
{
    if idle(run.stage) {
        run
    } else {
        settle(drive(run))
    }
}

#[via_fn]
proof fn settle_ends<P, E>(run: Run<P, E>) {
    if !idle(run.stage) {
        drive_shortens(run);
    }
}

/// Each step brings the pipeline nearer to being idle.
pub proof fn drive_shortens<P, E>(run: Run<P, E>)
    requires
        !idle(run.stage),
    ensures
        work(drive(run).stage) < work(run.stage),
{
    match run.stage {
        PipelineView::Classifying { notification } => {
            candidates_are_no_more(notification, run.world.probe(notification.paths));
        },
        _ => {},
    }
}

/// The pipeline taking `deliveries` from the channel, one after the other,
/// and driven after each until it is idle again. A pipeline that has halted
/// takes no more.
pub open spec fn serve<P, E>(run: Run<P, E>, deliveries: Seq<DeliveryView<P, E>>) -> Run<P, E>
    decreases deliveries.len(),
{
    if deliveries.len() == 0 || !(run.stage is Awaiting) {
        run
    } else {
        let step = after_delivery(run.stage, deliveries.first());
        let taken = Run { world: run.world, stage: step.0, log: logged(run.log, step.1) };
        serve(settle(taken), deliveries.drop_first())
    }
}

} // verus!
