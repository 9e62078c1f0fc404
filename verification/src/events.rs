//! Event notification: a caller-supplied listener receives event
//! strings.  The trait is for the surrounding application to
//! implement; the notifier holds at most one listener at a time.

use vstd::prelude::*;

verus! {

/// A receiver of event notifications, implemented by the caller; it
/// must be callable from the notifying thread.
pub trait EventListener: Send + Sync {
    /// Called with the data of one event.
    fn on_event_occurred(&self, event_data: String);
}

/// Holds the registered listener, if any, and forwards events to it.
pub struct EventNotifier {
    pub listener: Option<Box<dyn EventListener>>,
}

impl EventNotifier {
    /// A notifier with no listener registered.
    pub fn new() -> (r: EventNotifier)
        ensures
            r.listener is None,
    {
        EventNotifier { listener: None }
    }

    /// Registers `listener`, replacing any previous one.
    pub fn set_listener(&mut self, listener: Box<dyn EventListener>)
        ensures
            final(self).listener is Some,
    {
        self.listener = Some(listener);
    }

    /// Removes the registered listener, if any.
    pub fn remove_listener(&mut self)
        ensures
            final(self).listener is None,
    {
        self.listener = None;
    }

    /// Hands `event_data` to the registered listener; without one the
    /// event is dropped.
    pub fn notify_event(&self, event_data: String) {
        match &self.listener {
            Some(listener) => {
                listener.on_event_occurred(event_data);
            },
            None => {},
        }
    }
}

} // verus!
