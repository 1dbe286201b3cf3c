//! Filesystem change notifications as the watch layer delivers them.

use vstd::prelude::*;

verus! {

/// What happened to the paths a notification names.
#[derive(Clone, Copy, Debug, PartialEq, Eq, Structural)]
pub enum ChangeKind {
    /// A file or directory came into existence.
    Create,
    /// Content or metadata changed.
    Modify,
    /// A file or directory went away.
    Remove,
    /// A file or directory changed its name.
    Rename,
    /// Anything the watch layer could not name more precisely.
    Other,
}

impl ChangeKind {
    /// Whether the change brought something into existence.
    pub fn is_creation(&self) -> (creation: bool)
        ensures
            creation == (*self is Create),
    {
        match self {
            ChangeKind::Create => true,
            _ => false,
        }
    }
}

/// One event of the watch layer: a kind of change and the paths it touched,
/// in the order the watch layer gave them. The path type `P` is never looked
/// into; paths are only handed on.
#[derive(Debug, PartialEq, Eq)]
pub struct RawNotification<P> {
    pub kind: ChangeKind,
    pub paths: Vec<P>,
}

/// A notification as contracts speak of it.
pub struct RawNotificationView<P> {
    pub kind: ChangeKind,
    pub paths: Seq<P>,
}

impl<P> View for RawNotification<P> {
    type V = RawNotificationView<P>;

    open spec fn view(&self) -> RawNotificationView<P> {
        RawNotificationView { kind: self.kind, paths: self.paths@ }
    }
}

/// One item taken from the delivery channel.
#[derive(Debug, PartialEq, Eq)]
pub enum Delivery<P, E> {
    /// The watch layer reported a change.
    Notification(RawNotification<P>),
    /// The watch layer reported a failure of its own in place of a change.
    Failure(E),
    /// The channel is closed: nothing will ever be delivered again.
    Closed,
}

/// A delivery as contracts speak of it.
pub enum DeliveryView<P, E> {
    Notification(RawNotificationView<P>),
    Failure(E),
    Closed,
}

impl<P, E> View for Delivery<P, E> {
    type V = DeliveryView<P, E>;

    open spec fn view(&self) -> DeliveryView<P, E> {
        match *self {
            Delivery::Notification(notification) => DeliveryView::Notification(notification@),
            Delivery::Failure(failure) => DeliveryView::Failure(failure),
            Delivery::Closed => DeliveryView::Closed,
        }
    }
}

} // verus!
