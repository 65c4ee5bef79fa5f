//! A notification channel with at most one subscriber.
//!
//! The channel itself delivers nothing: delivery is the transport's work.
//! A push therefore runs in two steps. [`NotificationChannel::receiver`]
//! says to whom the value has to be handed, if to anyone, and
//! [`NotificationChannel::settle`] takes the transport's answer. A failed
//! delivery drops the subscriber, and the channel stays silent until the
//! next [`NotificationChannel::subscribe`].

use vstd::prelude::*;

verus! {

/// Holds the one subscriber of a characteristic, if there is one.
pub struct NotificationChannel<S> {
    subscriber: Option<S>,
}

impl<S> View for NotificationChannel<S> {
    type V = Option<S>;

    closed spec fn view(&self) -> Option<S> {
        self.subscriber
    }
}

impl<S> NotificationChannel<S> {
    /// A channel without subscriber.
    pub fn new() -> (channel: Self)
        ensures
            channel@ is None,
    {
        NotificationChannel { subscriber: None }
    }

    /// Makes `subscriber` the one subscriber; an earlier one is dropped.
    pub fn subscribe(&mut self, subscriber: S)
        ensures
            final(self)@ == Some(subscriber),
    {
        self.subscriber = Some(subscriber);
    }

    /// Whether a push would be delivered to anyone.
    pub fn is_subscribed(&self) -> (b: bool)
        ensures
            b == (self@ is Some),
    {
        self.subscriber.is_some()
    }

    /// First step of a push: the subscriber to deliver to. Without
    /// subscriber there is nothing to do and the channel is left as it is.
    pub fn receiver(&mut self) -> (to: Option<&mut S>)
        ensures
            match to {
                Some(s) => old(self)@ == Some(*s) && final(self)@ == Some(*final(s)),
                None => old(self)@ is None && final(self)@ is None,
            },
    {
        self.subscriber.as_mut()
    }

    /// Second step of a push: `delivered` tells whether the transport took
    /// the value. After a failure the channel holds no subscriber.
    pub fn settle(&mut self, delivered: bool)
        ensures
            delivered ==> final(self)@ == old(self)@,
            !delivered ==> final(self)@ is None,
    {
        if !delivered {
            self.subscriber = None;
        }
    }
}

} // verus!
