//! The event classifier: which paths of a notification are worth remediating.
//!
//! Only a creation yields candidates, and of its paths only those that were
//! seen to exist when the classifier looked. A path that is already gone is
//! no error, merely no candidate. The classifier remembers nothing between
//! two notifications.

use vstd::prelude::*;
use crate::notification::{RawNotification, RawNotificationView};

verus! {

/// The paths among `paths` that were seen to exist, in their order. The flag
/// at an index tells of the path at that index; a path without a flag was not
/// seen to exist.
pub open spec fn seen_to_exist<P>(paths: Seq<P>, exists: Seq<bool>) -> Seq<P>
    decreases paths.len(),
{
    if paths.len() == 0 {
        Seq::empty()
    } else {
        let earlier = seen_to_exist(paths.drop_last(), exists);
        if paths.len() <= exists.len() && exists[paths.len() - 1] {
            earlier.push(paths.last())
        } else {
            earlier
        }
    }
}

/// The candidates of a notification, given what was seen of its paths.
pub open spec fn candidates<P>(notification: RawNotificationView<P>, exists: Seq<bool>) -> Seq<P> {
    if notification.kind is Create {
        seen_to_exist(notification.paths, exists)
    } else {
        Seq::empty()
    }
}

/// Whether `path` stands at some position of `paths` whose flag says that it
/// existed.
pub open spec fn sighted<P>(paths: Seq<P>, exists: Seq<bool>, path: P) -> bool {
    exists|i: int|
        0 <= i < paths.len() && i < exists.len() && exists[i] && #[trigger] paths[i] == path
}

/// The paths seen to exist are the paths sighted: a path that did not exist
/// when it was looked at is not among them, and a path that did is.
pub proof fn seen_to_exist_is_sighted<P>(paths: Seq<P>, exists: Seq<bool>, path: P)
    ensures
        seen_to_exist(paths, exists).contains(path) <==> sighted(paths, exists, path),
    decreases paths.len(),
{
    if paths.len() > 0 {
        let earlier = seen_to_exist(paths.drop_last(), exists);
        let last = paths.len() - 1;
        seen_to_exist_is_sighted(paths.drop_last(), exists, path);
        if sighted(paths, exists, path) {
            let i = choose|i: int|
                0 <= i < paths.len() && i < exists.len() && exists[i] && #[trigger] paths[i]
                    == path;
            if i < last {
                assert(paths.drop_last()[i] == path);
                let k = choose|k: int| 0 <= k < earlier.len() && earlier[k] == path;
                assert(seen_to_exist(paths, exists)[k] == path);
            } else {
                assert(seen_to_exist(paths, exists)[earlier.len() as int] == path);
            }
        }
    }
}

/// Classification yields at most as many candidates as the notification has
/// paths.
pub proof fn candidates_are_no_more<P>(notification: RawNotificationView<P>, exists: Seq<bool>)
    ensures
        candidates(notification, exists).len() <= notification.paths.len(),
{
    seen_are_no_more(notification.paths, exists);
}

proof fn seen_are_no_more<P>(paths: Seq<P>, exists: Seq<bool>)
    ensures
        seen_to_exist(paths, exists).len() <= paths.len(),
    decreases paths.len(),
{
    if paths.len() > 0 {
        seen_are_no_more(paths.drop_last(), exists);
    }
}

/// Classifies a notification: returns the paths to remediate.
///
/// `exists` holds, for each path of the notification in turn, whether the path
/// existed when it was looked at.
pub fn classify<P>(notification: RawNotification<P>, exists: &Vec<bool>) -> (found: Vec<P>)
    ensures
        found@ == candidates(notification@, exists@),
        !(notification.kind is Create) ==> found@.len() == 0,
        forall|path: P| #[trigger]
            found@.contains(path) <==> notification.kind is Create && sighted(
                notification.paths@,
                exists@,
                path,
            ),
{
    let mut found: Vec<P> = Vec::new();
    if !notification.kind.is_creation() {
        return found;
    }
    let ghost all = notification.paths@;
    let total: usize = notification.paths.len();
    let mut index: usize = 0;
    for path in it: notification.paths
        invariant
            index == it.index(),
            it.seq() == all,
            all.len() == total,
            found@ == seen_to_exist(all.take(index as int), exists@),
    {
        proof {
            assert(all.take(index + 1).drop_last() == all.take(index as int));
        }
        if index < exists.len() && exists[index] {
            found.push(path);
        }
        index = index + 1;
    }
    proof {
        assert(all.take(index as int) == all);
        assert forall|path: P| #[trigger] found@.contains(path) == sighted(all, exists@, path) by {
            seen_to_exist_is_sighted(all, exists@, path);
        }
    }
    found
}

} // verus!
