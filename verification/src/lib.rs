//! The decision core of a daemon that removes the quarantine marker from
//! newly created files.
//!
//! The daemon watches a set of directories and, as soon as a file appears in
//! one of them, strips the extended attribute that marks the file as
//! quarantined. This library holds everything that the daemon decides and
//! none of what it does: it never touches the file system, the watch layer or
//! the log. Its caller does, as the [`pipeline`] asks, and reports back.
//!
//! - [`notification`]: what the watch layer delivers.
//! - [`classifier`]: which paths of a notification are worth remediating.
//! - [`remediator`]: the remediation of one path, check, then remove.
//! - [`journal`]: the records that the daemon leaves of its work.
//! - [`pipeline`]: the state machine that registers the directories and then
//!   handles one delivery after the other.
//! - [`world`] and [`laws`]: a model of the surroundings, and what is proved
//!   of the pipeline in it.
//! - [`watchlist`] and [`text`]: reading the list of directories to watch.
//! - [`install`]: the decisions of installing the daemon as a service.

pub mod classifier;
pub mod install;
pub mod journal;
pub mod laws;
pub mod notification;
pub mod pipeline;
pub mod remediator;
pub mod text;
pub mod watchlist;
pub mod world;
