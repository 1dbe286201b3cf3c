use std::collections::{BTreeMap, BTreeSet, VecDeque};
use std::path::PathBuf;

use autoremove_quarantine::journal::LogRecord;
use autoremove_quarantine::notification::{ChangeKind, Delivery, RawNotification};
use autoremove_quarantine::pipeline::{Pipeline, Request};
use autoremove_quarantine::remediator::RemediationError;

type Path = &'static str;
type Failure = &'static str;
type Record = LogRecord<Path, Failure>;

/// A file system and a watch layer in memory, and what was asked of them.
struct Surroundings {
    existing: BTreeSet<Path>,
    marked: BTreeSet<Path>,
    unreadable: BTreeMap<Path, Failure>,
    stuck: BTreeMap<Path, Failure>,
    unwatchable: BTreeMap<Path, Failure>,
    channel: VecDeque<Delivery<Path, Failure>>,
    watched: Vec<Path>,
    probes: Vec<Path>,
    readings: Vec<Path>,
    removals: Vec<Path>,
}

fn surroundings() -> Surroundings {
    Surroundings {
        existing: BTreeSet::new(),
        marked: BTreeSet::new(),
        unreadable: BTreeMap::new(),
        stuck: BTreeMap::new(),
        unwatchable: BTreeMap::new(),
        channel: VecDeque::new(),
        watched: Vec::new(),
        probes: Vec::new(),
        readings: Vec::new(),
        removals: Vec::new(),
    }
}

fn created(paths: &[Path]) -> Delivery<Path, Failure> {
    Delivery::Notification(RawNotification { kind: ChangeKind::Create, paths: paths.to_vec() })
}

fn changed(kind: ChangeKind, paths: &[Path]) -> Delivery<Path, Failure> {
    Delivery::Notification(RawNotification { kind, paths: paths.to_vec() })
}

/// Runs the pipeline against the surroundings until it stops; an empty channel
/// counts as closed.
fn run(around: &mut Surroundings, targets: &[Path]) -> Vec<Record> {
    let mut log: Vec<Record> = Vec::new();
    let mut pipeline: Pipeline<Path> = Pipeline::start(targets.to_vec());
    let mut steps = 0;
    loop {
        steps += 1;
        assert!(steps < 10_000);
        let (next, record) = match pipeline.request() {
            Request::WatchRecursively(target) => {
                let target = *target;
                let outcome = match around.unwatchable.get(target) {
                    Some(failure) => Err(*failure),
                    None => {
                        around.watched.push(target);
                        Ok(())
                    }
                };
                pipeline.watched(outcome)
            }
            Request::Receive => {
                let delivery = around.channel.pop_front().unwrap_or(Delivery::Closed);
                pipeline.received(delivery)
            }
            Request::ProbeExistence(paths) => {
                let exists: Vec<bool> = paths
                    .iter()
                    .map(|path| {
                        around.probes.push(*path);
                        around.existing.contains(path)
                    })
                    .collect();
                (pipeline.probed(&exists), None)
            }
            Request::ReadMarker(path) => {
                let path = *path;
                around.readings.push(path);
                let reading = match around.unreadable.get(path) {
                    Some(failure) => Err(*failure),
                    None if around.marked.contains(path) => Ok(Some(b"0083;0;Browser;".to_vec())),
                    None => Ok(None),
                };
                pipeline.inspected(reading)
            }
            Request::RemoveMarker(path) => {
                let path = *path;
                around.removals.push(path);
                let removal = match around.stuck.get(path) {
                    Some(failure) => Err(*failure),
                    None if around.marked.remove(path) => Ok(()),
                    None => Err("no such attribute"),
                };
                pipeline.removed(removal)
            }
            Request::Stop => break,
        };
        log.extend(record);
        pipeline = next;
    }
    log
}

#[test]
fn created_file_with_marker_loses_it_within_one_cycle() {
    let mut around = surroundings();
    around.existing.insert("/watched/a.txt");
    around.marked.insert("/watched/a.txt");
    around.channel.push_back(created(&["/watched/a.txt"]));
    let log = run(&mut around, &["/watched"]);
    assert!(!around.marked.contains("/watched/a.txt"));
    assert_eq!(around.watched, vec!["/watched"]);
    assert_eq!(
        log,
        vec![LogRecord::Watching("/watched"), LogRecord::Unquarantined("/watched/a.txt")]
    );
}

#[test]
fn created_file_without_marker_is_left_alone() {
    let mut around = surroundings();
    around.existing.insert("/watched/b.txt");
    around.channel.push_back(created(&["/watched/b.txt"]));
    let log = run(&mut around, &["/watched"]);
    assert!(around.removals.is_empty());
    assert_eq!(around.readings, vec!["/watched/b.txt"]);
    assert!(around.marked.is_empty());
    assert_eq!(
        log,
        vec![LogRecord::Watching("/watched"), LogRecord::AlreadyClean("/watched/b.txt")]
    );
}

#[test]
fn created_file_that_is_gone_is_not_remediated() {
    let mut around = surroundings();
    around.marked.insert("/watched/tmp");
    around.channel.push_back(created(&["/watched/tmp"]));
    let log = run(&mut around, &["/watched"]);
    assert_eq!(around.probes, vec!["/watched/tmp"]);
    assert!(around.readings.is_empty());
    assert!(around.removals.is_empty());
    assert_eq!(log, vec![LogRecord::Watching("/watched")]);
}

#[test]
fn missing_directory_does_not_stop_the_others() {
    let mut around = surroundings();
    around.unwatchable.insert("/nowhere", "no such directory");
    around.existing.insert("/watched/a.txt");
    around.marked.insert("/watched/a.txt");
    around.channel.push_back(created(&["/watched/a.txt"]));
    let log = run(&mut around, &["/first", "/nowhere", "/watched"]);
    assert_eq!(around.watched, vec!["/first", "/watched"]);
    assert!(!around.marked.contains("/watched/a.txt"));
    assert_eq!(
        log,
        vec![
            LogRecord::Watching("/first"),
            LogRecord::WatchFailed("/nowhere", "no such directory"),
            LogRecord::Watching("/watched"),
            LogRecord::Unquarantined("/watched/a.txt"),
        ]
    );
}

#[test]
fn every_directory_failing_still_leads_to_the_channel() {
    let mut around = surroundings();
    around.unwatchable.insert("/a", "denied");
    around.unwatchable.insert("/b", "not a directory");
    around.channel.push_back(Delivery::Failure("overflow"));
    let log = run(&mut around, &["/a", "/b"]);
    assert!(around.watched.is_empty());
    assert!(around.channel.is_empty());
    assert_eq!(
        log,
        vec![
            LogRecord::WatchFailed("/a", "denied"),
            LogRecord::WatchFailed("/b", "not a directory"),
            LogRecord::ReceiveFailed("overflow"),
        ]
    );
}

#[test]
fn empty_list_of_directories_watches_nothing() {
    let pipeline: Pipeline<Path> = Pipeline::start(Vec::new());
    assert_eq!(pipeline, Pipeline::Awaiting);
    let mut around = surroundings();
    let log = run(&mut around, &[]);
    assert!(log.is_empty());
    assert!(around.watched.is_empty());
}

#[test]
fn second_remediation_of_a_path_changes_nothing() {
    let mut around = surroundings();
    around.existing.insert("/watched/a.txt");
    around.marked.insert("/watched/a.txt");
    around.channel.push_back(created(&["/watched/a.txt"]));
    around.channel.push_back(created(&["/watched/a.txt"]));
    let log = run(&mut around, &[]);
    assert_eq!(around.removals, vec!["/watched/a.txt"]);
    assert_eq!(
        log,
        vec![
            LogRecord::Unquarantined("/watched/a.txt"),
            LogRecord::AlreadyClean("/watched/a.txt"),
        ]
    );
}

#[test]
fn other_changes_touch_nothing() {
    let mut around = surroundings();
    around.existing.insert("/watched/a.txt");
    around.marked.insert("/watched/a.txt");
    around.channel.push_back(changed(ChangeKind::Modify, &["/watched/a.txt"]));
    around.channel.push_back(changed(ChangeKind::Remove, &["/watched/a.txt"]));
    around.channel.push_back(changed(ChangeKind::Rename, &["/watched/a.txt"]));
    around.channel.push_back(changed(ChangeKind::Other, &["/watched/a.txt"]));
    let log = run(&mut around, &[]);
    assert!(log.is_empty());
    assert!(around.probes.is_empty());
    assert!(around.readings.is_empty());
    assert!(around.marked.contains("/watched/a.txt"));
}

#[test]
fn failure_on_the_channel_does_not_end_the_loop() {
    let mut around = surroundings();
    around.existing.insert("/watched/a.txt");
    around.marked.insert("/watched/a.txt");
    around.channel.push_back(Delivery::Failure("watch queue overflowed"));
    around.channel.push_back(created(&["/watched/a.txt"]));
    let log = run(&mut around, &[]);
    assert_eq!(
        log,
        vec![
            LogRecord::ReceiveFailed("watch queue overflowed"),
            LogRecord::Unquarantined("/watched/a.txt"),
        ]
    );
}

#[test]
fn failed_candidate_does_not_skip_the_remaining_ones() {
    let mut around = surroundings();
    for path in ["/w/a", "/w/b", "/w/c", "/w/d"] {
        around.existing.insert(path);
        around.marked.insert(path);
    }
    around.unreadable.insert("/w/a", "permission denied");
    around.stuck.insert("/w/c", "read-only file system");
    around.channel.push_back(created(&["/w/a", "/w/b", "/w/c", "/w/d"]));
    let log = run(&mut around, &[]);
    assert_eq!(
        log,
        vec![
            LogRecord::RemediationFailed("/w/a", RemediationError::Inspection("permission denied")),
            LogRecord::Unquarantined("/w/b"),
            LogRecord::RemediationFailed(
                "/w/c",
                RemediationError::Removal("read-only file system")
            ),
            LogRecord::Unquarantined("/w/d"),
        ]
    );
    assert_eq!(around.readings, vec!["/w/a", "/w/b", "/w/c", "/w/d"]);
    assert_eq!(around.removals, vec!["/w/b", "/w/c", "/w/d"]);
    assert_eq!(around.marked.iter().copied().collect::<Vec<_>>(), vec!["/w/a", "/w/c"]);
}

#[test]
fn paths_are_probed_together_before_any_is_remediated() {
    let mut around = surroundings();
    around.existing.insert("/w/a");
    around.existing.insert("/w/c");
    around.marked.insert("/w/c");
    around.channel.push_back(created(&["/w/a", "/w/b", "/w/c"]));
    let log = run(&mut around, &[]);
    assert_eq!(around.probes, vec!["/w/a", "/w/b", "/w/c"]);
    assert_eq!(around.readings, vec!["/w/a", "/w/c"]);
    assert_eq!(log, vec![LogRecord::AlreadyClean("/w/a"), LogRecord::Unquarantined("/w/c")]);
}

#[test]
fn deliveries_are_handled_in_their_order() {
    let mut around = surroundings();
    for path in ["/one/x", "/two/y", "/one/z"] {
        around.existing.insert(path);
        around.marked.insert(path);
    }
    around.channel.push_back(created(&["/one/x"]));
    around.channel.push_back(created(&["/two/y"]));
    around.channel.push_back(created(&["/one/z"]));
    let log = run(&mut around, &["/one", "/two"]);
    assert_eq!(
        log,
        vec![
            LogRecord::Watching("/one"),
            LogRecord::Watching("/two"),
            LogRecord::Unquarantined("/one/x"),
            LogRecord::Unquarantined("/two/y"),
            LogRecord::Unquarantined("/one/z"),
        ]
    );
}

#[test]
fn pipeline_asks_to_watch_the_first_directory_first() {
    let pipeline: Pipeline<Path> = Pipeline::start(vec!["/a", "/b"]);
    assert_eq!(pipeline.request(), Request::WatchRecursively(&"/a"));
    let (pipeline, record) = pipeline.watched::<Failure>(Err("denied"));
    assert_eq!(record, Some(LogRecord::WatchFailed("/a", "denied")));
    assert_eq!(pipeline.request(), Request::WatchRecursively(&"/b"));
    let (pipeline, record) = pipeline.watched::<Failure>(Ok(()));
    assert_eq!(record, Some(LogRecord::Watching("/b")));
    assert_eq!(pipeline.request(), Request::Receive);
}

#[test]
fn closing_of_the_channel_halts_the_pipeline() {
    let pipeline: Pipeline<Path> = Pipeline::Awaiting;
    let (pipeline, record) = pipeline.received::<Failure>(Delivery::Closed);
    assert_eq!(record, None);
    assert_eq!(pipeline, Pipeline::Halted);
    assert_eq!(pipeline.request(), Request::Stop);
}

#[test]
fn halted_pipeline_stays_halted() {
    let pipeline: Pipeline<Path> = Pipeline::Halted;
    let (pipeline, record) = pipeline.received(created(&["/w/a"]));
    assert_eq!(record, None);
    let (pipeline, record) = pipeline.watched::<Failure>(Ok(()));
    assert_eq!(record, None);
    let pipeline = pipeline.probed(&vec![true]);
    let (pipeline, record) = pipeline.inspected::<Failure>(Ok(None));
    assert_eq!(record, None);
    let (pipeline, record) = pipeline.removed::<Failure>(Ok(()));
    assert_eq!(record, None);
    assert_eq!(pipeline, Pipeline::Halted);
}

#[test]
fn creation_goes_on_to_classification() {
    let pipeline: Pipeline<Path> = Pipeline::Awaiting;
    let (pipeline, record) = pipeline.received(created(&["/w/a", "/w/b"]));
    assert_eq!(record, None);
    assert_eq!(pipeline.request(), Request::ProbeExistence(&vec!["/w/a", "/w/b"]));
    let pipeline = pipeline.probed(&vec![false, true]);
    assert_eq!(pipeline.request(), Request::ReadMarker(&"/w/b"));
}

#[test]
fn creation_of_nothing_that_exists_returns_to_the_channel() {
    let pipeline: Pipeline<Path> = Pipeline::Awaiting;
    let (pipeline, _) = pipeline.received(created(&["/w/a", "/w/b"]));
    let pipeline = pipeline.probed(&vec![false, false]);
    assert_eq!(pipeline, Pipeline::Awaiting);
}

#[test]
fn marker_found_is_removed_next() {
    let pipeline: Pipeline<Path> =
        Pipeline::Inspecting { candidate: "/w/a", rest: VecDeque::from(vec!["/w/b"]) };
    let (pipeline, record) = pipeline.inspected::<Failure>(Ok(Some(b"0081".to_vec())));
    assert_eq!(record, None);
    assert_eq!(pipeline.request(), Request::RemoveMarker(&"/w/a"));
    let (pipeline, record) = pipeline.removed::<Failure>(Ok(()));
    assert_eq!(record, Some(LogRecord::Unquarantined("/w/a")));
    assert_eq!(pipeline.request(), Request::ReadMarker(&"/w/b"));
}

#[test]
fn marker_not_found_is_not_removed() {
    let pipeline: Pipeline<Path> =
        Pipeline::Inspecting { candidate: "/w/a", rest: VecDeque::new() };
    let (pipeline, record) = pipeline.inspected::<Failure>(Ok(None));
    assert_eq!(record, Some(LogRecord::AlreadyClean("/w/a")));
    assert_eq!(pipeline, Pipeline::Awaiting);
}

#[test]
fn failed_reading_is_recorded_and_passed_over() {
    let pipeline: Pipeline<Path> =
        Pipeline::Inspecting { candidate: "/w/a", rest: VecDeque::from(vec!["/w/b"]) };
    let (pipeline, record) = pipeline.inspected(Err("not supported"));
    assert_eq!(
        record,
        Some(LogRecord::RemediationFailed("/w/a", RemediationError::Inspection("not supported")))
    );
    assert_eq!(pipeline.request(), Request::ReadMarker(&"/w/b"));
}

#[test]
fn failed_removal_is_recorded_and_passed_over() {
    let pipeline: Pipeline<Path> =
        Pipeline::Removing { candidate: "/w/a", rest: VecDeque::from(vec!["/w/b"]) };
    let (pipeline, record) = pipeline.removed(Err("vanished"));
    assert_eq!(
        record,
        Some(LogRecord::RemediationFailed("/w/a", RemediationError::Removal("vanished")))
    );
    assert_eq!(pipeline.request(), Request::ReadMarker(&"/w/b"));
}

#[test]
fn answer_to_a_question_not_asked_changes_nothing() {
    let pipeline: Pipeline<Path> = Pipeline::start(vec!["/a"]);
    let (pipeline, record) = pipeline.received(created(&["/w/a"]));
    assert_eq!(record, None);
    let pipeline = pipeline.probed(&vec![true]);
    let (pipeline, record) = pipeline.inspected::<Failure>(Ok(None));
    assert_eq!(record, None);
    let (pipeline, record) = pipeline.removed::<Failure>(Ok(()));
    assert_eq!(record, None);
    assert_eq!(pipeline, Pipeline::Registering { target: "/a", rest: VecDeque::new() });

    let pipeline: Pipeline<Path> = Pipeline::Awaiting;
    let (pipeline, record) = pipeline.watched::<Failure>(Ok(()));
    assert_eq!(record, None);
    assert_eq!(pipeline, Pipeline::Awaiting);

    let pipeline: Pipeline<Path> =
        Pipeline::Removing { candidate: "/w/a", rest: VecDeque::new() };
    let (pipeline, record) = pipeline.inspected::<Failure>(Ok(None));
    assert_eq!(record, None);
    assert_eq!(pipeline.request(), Request::RemoveMarker(&"/w/a"));
}

#[test]
fn pipeline_carries_paths_and_errors_of_any_type() {
    let pipeline: Pipeline<PathBuf> = Pipeline::start(vec![PathBuf::from("/watched")]);
    let (pipeline, record) = pipeline.watched(Err(String::from("no such directory")));
    assert_eq!(
        record,
        Some(LogRecord::WatchFailed(PathBuf::from("/watched"), String::from("no such directory")))
    );
    let notification =
        RawNotification { kind: ChangeKind::Create, paths: vec![PathBuf::from("/watched/a")] };
    let (pipeline, _) = pipeline.received::<String>(Delivery::Notification(notification));
    let pipeline = pipeline.probed(&vec![true]);
    let (pipeline, record) = pipeline.inspected::<String>(Ok(Some(vec![0x30])));
    assert_eq!(record, None);
    let (pipeline, record) = pipeline.removed::<String>(Ok(()));
    assert_eq!(record, Some(LogRecord::Unquarantined(PathBuf::from("/watched/a"))));
    assert_eq!(pipeline, Pipeline::Awaiting);
}
