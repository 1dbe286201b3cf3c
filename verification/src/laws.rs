//! What holds of the library as a whole, proved over the model of its
//! surroundings.

use vstd::prelude::*;
use crate::classifier::{candidates, seen_to_exist};
use crate::journal::{registration_record, remediation_record, LogRecord};
use crate::notification::{DeliveryView, RawNotificationView};
use crate::pipeline::{
    after_delivery,
    after_inspection,
    after_probe,
    after_removal,
    after_watch,
    registering,
    remediating,
    PipelineView,
};
use crate::remediator::RemediationError;
use crate::world::{drive, logged, serve, settle, Run, World};

verus! {

/// A path that carries the marker, in a world that lets the marker be read
/// and removed, is remediated with `true`; afterwards a reading of its marker
/// finds none, and nothing else in the world has changed.
pub proof fn marked_path_is_cleared<P, E>(world: World<P, E>, path: P)
    requires
        world.marked.contains(path),
        world.obliging(path),
    ensures
        world.remediate(path).0 == Ok::<bool, RemediationError<E>>(true),
        world.remediate(path).1 == world.without_marker(path),
        !world.remediate(path).1.marked.contains(path),
        world.remediate(path).1.read_marker(path) == Ok::<bool, E>(false),
{
}

/// A path that carries no marker, in a world that lets the marker be read, is
/// remediated with `false`, and the world is left as it was.
pub proof fn unmarked_path_is_left_alone<P, E>(world: World<P, E>, path: P)
    requires
        !world.marked.contains(path),
        !world.unreadable.dom().contains(path),
    ensures
        world.remediate(path) == (Ok::<bool, RemediationError<E>>(false), world),
{
}

/// Remediating a path a second time yields `false` and changes nothing, in a
/// world that lets the marker be read and removed.
pub proof fn remediation_is_idempotent<P, E>(world: World<P, E>, path: P)
    requires
        world.obliging(path),
    ensures
        world.remediate(path).1.remediate(path) == (
            Ok::<bool, RemediationError<E>>(false),
            world.remediate(path).1,
        ),
{
}

/// After a remediation that succeeded the path carries no marker, whether
/// the marker was removed or was not there in the first place.
pub proof fn success_leaves_no_marker<P, E>(world: World<P, E>, path: P)
    ensures
        world.remediate(path).0 is Ok ==> !world.remediate(path).1.marked.contains(path),
        world.remediate(path).0 == Ok::<bool, RemediationError<E>>(true) <==> world.marked.contains(
            path,
        ) && world.obliging(path),
        world.remediate(path).0 == Ok::<bool, RemediationError<E>>(false)
            <==> !world.marked.contains(path) && !world.unreadable.dom().contains(path),
{
}

/// A remediation fails exactly where the world refuses: with the error of the
/// reading where the marker cannot be read, with the error of the removal
/// where the marker is there and cannot be removed. A failed remediation
/// leaves the world as it was.
pub proof fn remediation_fails_only_where_refused<P, E>(world: World<P, E>, path: P)
    ensures
        world.unreadable.dom().contains(path) ==> world.remediate(path) == (
            Err::<bool, RemediationError<E>>(RemediationError::Inspection(world.unreadable[path])),
            world,
        ),
        !world.unreadable.dom().contains(path) && world.marked.contains(path)
            && world.stuck.dom().contains(path) ==> world.remediate(path) == (
            Err::<bool, RemediationError<E>>(RemediationError::Removal(world.stuck[path])),
            world,
        ),
        world.remediate(path).0 is Err ==> !world.obliging(path) && world.remediate(path).1
            == world,
{
}

/// A remediation touches nothing but the marker of its own path.
pub proof fn remediation_is_local<P, E>(world: World<P, E>, path: P, other: P)
    ensures
        world.remediate(path).1.existing == world.existing,
        world.remediate(path).1.unreadable == world.unreadable,
        world.remediate(path).1.stuck == world.stuck,
        world.remediate(path).1.unwatchable == world.unwatchable,
        world.remediate(path).1.watched == world.watched,
        other != path ==> (world.remediate(path).1.marked.contains(other)
            <==> world.marked.contains(other)),
{
}

/// The pipeline halts on the closing of the channel and on nothing else:
/// whatever answer it is given in whatever state, it does not halt unless it
/// had halted before or was told, while awaiting a delivery, that the channel
/// is closed.
pub proof fn only_closing_halts<P, E>(
    stage: PipelineView<P>,
    outcome: Result<(), E>,
    delivery: DeliveryView<P, E>,
    exists: Seq<bool>,
    presence: Result<bool, E>,
)
    requires
        !(stage is Halted),
    ensures
        !(after_watch(stage, outcome).0 is Halted),
        after_delivery(stage, delivery).0 is Halted <==> stage is Awaiting && delivery is Closed,
        !(after_probe(stage, exists) is Halted),
        !(after_inspection(stage, presence).0 is Halted),
        !(after_removal(stage, outcome).0 is Halted),
{
}

/// A notification of anything but a creation is dropped on delivery, whatever
/// paths it names: the pipeline awaits the next delivery at once, asks
/// nothing about the paths, and records nothing.
pub proof fn other_changes_are_dropped<P, E>(notification: RawNotificationView<P>)
    requires
        !(notification.kind is Create),
    ensures
        after_delivery::<P, E>(PipelineView::Awaiting, DeliveryView::Notification(notification))
            == (PipelineView::<P>::Awaiting, None::<LogRecord<P, E>>),
        forall|exists: Seq<bool>| #[trigger] candidates(notification, exists) == Seq::<P>::empty(),
{
}

proof fn first_or_among_the_rest<A>(items: Seq<A>, item: A)
    requires
        items.len() > 0,
    ensures
        items.contains(item) <==> items.first() == item || items.drop_first().contains(item),
{
    if items.contains(item) && items.first() != item {
        let k = choose|k: int| 0 <= k < items.len() && items[k] == item;
        assert(items.drop_first()[k - 1] == item);
    }
}

/// A failed registration stops nothing. The pipeline asks for every target in
/// turn, whatever the world answered for the targets before it, records each
/// answer, and then awaits deliveries.
pub proof fn registration_passes_over_failures<P, E>(
    world: World<P, E>,
    targets: Seq<P>,
    log: Seq<LogRecord<P, E>>,
)
    ensures
        settle(Run { world, stage: registering(targets), log }) == (Run {
            world: world.register_each(targets).1,
            stage: PipelineView::Awaiting,
            log: log + world.register_each(targets).0,
        }),
    decreases targets.len(),
{
    if targets.len() > 0 {
        let rest = targets.drop_first();
        let (outcome, after) = world.register(targets.first());
        let record = registration_record(targets.first(), outcome);
        registration_passes_over_failures(after, rest, log.push(record));
        assert(log.push(record) + after.register_each(rest).0 == log + world.register_each(
            targets,
        ).0);
    }
}

/// What a series of registrations does to the world: each target that the
/// world lets be watched is watched afterwards, whether or not another target
/// has failed, and what was watched before still is. Each target has its own
/// record, which tells what the world answered for that target. Nothing else
/// changes.
pub proof fn registrations_are_independent<P, E>(world: World<P, E>, targets: Seq<P>, target: P)
    ensures
        world.register_each(targets).1.watched.contains(target) <==> world.watched.contains(target)
            || (targets.contains(target) && !world.unwatchable.dom().contains(target)),
        world.register_each(targets).1 == (World {
            watched: world.register_each(targets).1.watched,
            ..world
        }),
        world.register_each(targets).0.len() == targets.len(),
        forall|i: int|
            0 <= i < targets.len() ==> #[trigger] world.register_each(targets).0[i]
                == registration_record(targets[i], world.register(targets[i]).0),
    decreases targets.len(),
{
    if targets.len() > 0 {
        registrations_are_independent(
            world.register(targets.first()).1,
            targets.drop_first(),
            target,
        );
        first_or_among_the_rest(targets, target);
    }
}

/// The pipeline remediates its candidates one after the other, each in the
/// world that the one before has left, and records each; a candidate that
/// fails is recorded and the next one follows. With the last candidate done
/// the pipeline awaits the next delivery.
pub proof fn candidates_are_remediated_in_turn<P, E>(
    world: World<P, E>,
    paths: Seq<P>,
    log: Seq<LogRecord<P, E>>,
)
    ensures
        settle(Run { world, stage: remediating(paths), log }) == (Run {
            world: world.remediate_each(paths).1,
            stage: PipelineView::Awaiting,
            log: log + world.remediate_each(paths).0,
        }),
    decreases paths.len(),
{
    if paths.len() > 0 {
        let run = Run { world, stage: remediating(paths), log };
        let rest = paths.drop_first();
        let (outcome, after) = world.remediate(paths.first());
        let record = remediation_record(paths.first(), outcome);
        if drive(run).stage is Removing {
            assert(settle(drive(run)) == settle(drive(drive(run))));
        }
        candidates_are_remediated_in_turn(after, rest, log.push(record));
        assert(log.push(record) + after.remediate_each(rest).0 == log + world.remediate_each(
            paths,
        ).0);
    }
}

/// The paths of `paths` that exist in `world`, in their order.
pub open spec fn existing_among<P, E>(world: World<P, E>, paths: Seq<P>) -> Seq<P> {
    paths.filter(|path: P| world.existing.contains(path))
}

/// A path is among the existing ones of `paths` exactly if it is one of
/// `paths` and exists.
pub proof fn existing_among_is_exact<P, E>(world: World<P, E>, paths: Seq<P>, path: P)
    ensures
        existing_among(world, paths).contains(path) <==> paths.contains(path)
            && world.existing.contains(path),
{
    let exists = |path: P| world.existing.contains(path);
    let found = existing_among(world, paths);
    if found.contains(path) {
        let k = choose|k: int| 0 <= k < found.len() && found[k] == path;
        paths.lemma_filter_contains_rev(exists, path);
        paths.lemma_filter_pred(exists, k);
    }
    if paths.contains(path) && world.existing.contains(path) {
        let k = choose|k: int| 0 <= k < paths.len() && paths[k] == path;
        paths.lemma_filter_contains(exists, k);
    }
}

proof fn probe_sees_what_exists<P, E>(world: World<P, E>, paths: Seq<P>, upto: int)
    requires
        0 <= upto <= paths.len(),
    ensures
        seen_to_exist(paths.take(upto), world.probe(paths)) == existing_among(
            world,
            paths.take(upto),
        ),
    decreases upto,
{
    reveal(Seq::filter);
    if upto > 0 {
        probe_sees_what_exists(world, paths, upto - 1);
        assert(paths.take(upto).drop_last() == paths.take(upto - 1));
    }
}

/// With the world telling which paths exist, the candidates of a creation are
/// the paths that exist as the classifier looks, in the order of the
/// notification: a path that is gone by then is no candidate. A notification
/// of any other kind has no candidates.
pub proof fn classification_keeps_what_exists<P, E>(
    world: World<P, E>,
    notification: RawNotificationView<P>,
)
    ensures
        candidates(notification, world.probe(notification.paths)) == if notification.kind
            is Create {
            existing_among(world, notification.paths)
        } else {
            Seq::empty()
        },
        forall|path: P|
            !world.existing.contains(path) ==> !#[trigger] candidates(
                notification,
                world.probe(notification.paths),
            ).contains(path),
{
    let paths = notification.paths;
    probe_sees_what_exists(world, paths, paths.len() as int);
    assert(paths.take(paths.len() as int) == paths);
    assert forall|path: P| !world.existing.contains(path) implies !candidates(
        notification,
        world.probe(paths),
    ).contains(path) by {
        existing_among_is_exact(world, paths, path);
    }
}

/// One notification cycle. A creation that the pipeline has taken delivery of
/// is classified against the world, its candidates are remediated in turn,
/// and the pipeline awaits the next delivery.
pub proof fn creation_is_remediated<P, E>(
    world: World<P, E>,
    notification: RawNotificationView<P>,
    log: Seq<LogRecord<P, E>>,
)
    requires
        notification.kind is Create,
    ensures
        after_delivery::<P, E>(PipelineView::Awaiting, DeliveryView::Notification(notification))
            == (PipelineView::Classifying { notification }, None::<LogRecord<P, E>>),
        settle(Run { world, stage: PipelineView::Classifying { notification }, log }) == (Run {
            world: world.remediate_each(existing_among(world, notification.paths)).1,
            stage: PipelineView::Awaiting,
            log: log + world.remediate_each(existing_among(world, notification.paths)).0,
        }),
{
    classification_keeps_what_exists(world, notification);
    candidates_are_remediated_in_turn(world, existing_among(world, notification.paths), log);
}

/// What a series of remediations does to the world: a path carries the marker
/// afterwards exactly if it carried it before and either was not among the
/// paths remediated or is one whose marker the world does not let be read or
/// removed. Nothing else changes.
pub proof fn remediations_clear_their_paths<P, E>(world: World<P, E>, paths: Seq<P>, path: P)
    ensures
        world.remediate_each(paths).1.marked.contains(path) <==> world.marked.contains(path) && !(
        paths.contains(path) && world.obliging(path)),
        world.remediate_each(paths).1 == (World {
            marked: world.remediate_each(paths).1.marked,
            ..world
        }),
        world.remediate_each(paths).0.len() == paths.len(),
    decreases paths.len(),
{
    if paths.len() > 0 {
        remediations_clear_their_paths(
            world.remediate(paths.first()).1,
            paths.drop_first(),
            path,
        );
        first_or_among_the_rest(paths, path);
    }
}

/// After a cycle, no file that the creation named and that existed carries
/// the marker, in a world that lets its marker be read and removed.
pub proof fn created_files_end_unmarked<P, E>(
    world: World<P, E>,
    notification: RawNotificationView<P>,
    log: Seq<LogRecord<P, E>>,
    path: P,
)
    requires
        notification.kind is Create,
        notification.paths.contains(path),
        world.existing.contains(path),
        world.obliging(path),
    ensures
        !settle(
            Run { world, stage: PipelineView::Classifying { notification }, log },
        ).world.marked.contains(path),
{
    creation_is_remediated(world, notification, log);
    remediations_clear_their_paths(world, existing_among(world, notification.paths), path);
}

/// Whether a delivery is a creation that names `path`.
pub open spec fn creates<P, E>(delivery: DeliveryView<P, E>, path: P) -> bool {
    delivery matches DeliveryView::Notification(notification) && notification.kind is Create
        && notification.paths.contains(path)
}

/// How many of `deliveries` come before the channel closes.
pub open spec fn open_for<P, E>(deliveries: Seq<DeliveryView<P, E>>) -> nat
    decreases deliveries.len(),
{
    if deliveries.len() == 0 || deliveries.first() is Closed {
        0
    } else {
        1 + open_for(deliveries.drop_first())
    }
}

/// Whether `path` is named by a creation that is delivered before the channel
/// closes.
pub open spec fn created_while_open<P, E>(deliveries: Seq<DeliveryView<P, E>>, path: P) -> bool {
    exists|i: int| 0 <= i < open_for(deliveries) && creates(#[trigger] deliveries[i], path)
}

proof fn open_for_is_within<P, E>(deliveries: Seq<DeliveryView<P, E>>)
    ensures
        open_for(deliveries) <= deliveries.len(),
    decreases deliveries.len(),
{
    if deliveries.len() > 0 {
        open_for_is_within(deliveries.drop_first());
    }
}

proof fn created_while_open_unfolds<P, E>(deliveries: Seq<DeliveryView<P, E>>, path: P)
    requires
        deliveries.len() > 0,
    ensures
        created_while_open(deliveries, path) <==> !(deliveries.first() is Closed) && (creates(
            deliveries.first(),
            path,
        ) || created_while_open(deliveries.drop_first(), path)),
{
    let rest = deliveries.drop_first();
    open_for_is_within(rest);
    if created_while_open(deliveries, path) {
        let i = choose|i: int|
            0 <= i < open_for(deliveries) && creates(#[trigger] deliveries[i], path);
        if i > 0 {
            assert(creates(rest[i - 1], path));
        }
    }
}

/// The daemon as a whole, from the first delivery to the last. The pipeline
/// takes the deliveries in their order until the channel closes, and halts
/// exactly if it closes. In the end a path carries the marker exactly if it
/// carried it at the start and was not remediated on the way: it did not
/// exist, or no creation delivered while the channel was open named it, or
/// the world does not let its marker be read or removed. Nothing else in the
/// world has changed.
pub proof fn deliveries_are_served_in_turn<P, E>(
    world: World<P, E>,
    deliveries: Seq<DeliveryView<P, E>>,
    log: Seq<LogRecord<P, E>>,
    path: P,
)
    ensures
        ({
            let end = serve(Run { world, stage: PipelineView::Awaiting, log }, deliveries);
            &&& end.stage == if open_for(deliveries) < deliveries.len() {
                PipelineView::<P>::Halted
            } else {
                PipelineView::<P>::Awaiting
            }
            &&& end.world == World { marked: end.world.marked, ..world }
            &&& end.world.marked.contains(path) <==> world.marked.contains(path) && !(
            world.existing.contains(path) && world.obliging(path) && created_while_open(
                deliveries,
                path,
            ))
        }),
    decreases deliveries.len(),
{
    let run = Run { world, stage: PipelineView::Awaiting, log };
    if deliveries.len() > 0 {
        let first = deliveries.first();
        let rest = deliveries.drop_first();
        open_for_is_within(rest);
        created_while_open_unfolds(deliveries, path);
        let step = after_delivery(run.stage, first);
        let taken = Run { world, stage: step.0, log: logged(log, step.1) };
        match first {
            DeliveryView::Closed => {
                assert(serve(settle(taken), rest) == taken);
            },
            DeliveryView::Failure(_) => {
                deliveries_are_served_in_turn(world, rest, taken.log, path);
            },
            DeliveryView::Notification(notification) => {
                if notification.kind is Create {
                    let found = existing_among(world, notification.paths);
                    creation_is_remediated(world, notification, log);
                    remediations_clear_their_paths(world, found, path);
                    let after = world.remediate_each(found).1;
                    existing_among_is_exact(world, notification.paths, path);
                    deliveries_are_served_in_turn(after, rest, settle(taken).log, path);
                } else {
                    deliveries_are_served_in_turn(world, rest, taken.log, path);
                }
            },
        }
    }
}

/// From startup to the closing of the channel. Whatever registrations fail,
/// the pipeline goes on to take deliveries, and every target that the world
/// lets be watched is watched; and the deliveries do to the markers what they
/// would do had every registration succeeded.
pub proof fn failed_registrations_hinder_no_delivery<P, E>(
    world: World<P, E>,
    targets: Seq<P>,
    deliveries: Seq<DeliveryView<P, E>>,
    path: P,
)
    ensures
        ({
            let ready = settle(Run { world, stage: registering(targets), log: Seq::empty() });
            let end = serve(ready, deliveries);
            &&& ready.stage is Awaiting
            &&& ready.world.marked == world.marked
            &&& end.world.watched.contains(path) <==> world.watched.contains(path) || (
            targets.contains(path) && !world.unwatchable.dom().contains(path))
            &&& end.world.marked.contains(path) <==> world.marked.contains(path) && !(
            world.existing.contains(path) && world.obliging(path) && created_while_open(
                deliveries,
                path,
            ))
        }),
{
    let ready = settle(Run { world, stage: registering(targets), log: Seq::empty() });
    registration_passes_over_failures(world, targets, Seq::empty());
    registrations_are_independent(world, targets, path);
    deliveries_are_served_in_turn(ready.world, deliveries, ready.log, path);
}

} // verus!
