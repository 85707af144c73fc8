//! The signal by which the user stops an upload.

use crate::model::Event;
use vstd::prelude::*;

verus! {

/// A signal that is created with an upload and can be fired once. The task
/// that coordinates the upload looks at it before every step it takes.
#[derive(Debug)]
pub struct CancellationToken {
    fired: bool,
}

impl View for CancellationToken {
    type V = bool;

    closed spec fn view(&self) -> bool {
        self.fired
    }
}

impl CancellationToken {
    /// What the coordinator is given in place of `event`: the cancellation
    /// once the token has fired, else the event itself.
    pub open spec fn gate(&self, event: Event) -> Event {
        if self@ {
            Event::Cancel
        } else {
            event
        }
    }

    /// A token that has not fired.
    pub fn new() -> (token: CancellationToken)
        ensures
            !token@,
    {
        CancellationToken { fired: false }
    }

    /// Fires the token. Returns whether this call was the one that fired it:
    /// the token is single-use, and firing it again changes nothing.
    pub fn fire(&mut self) -> (first: bool)
        ensures
            final(self)@,
            first == !old(self)@,
    {
        let first = !self.fired;
        self.fired = true;
        first
    }

    /// Whether the token has fired.
    pub fn is_fired(&self) -> (fired: bool)
        ensures
            fired == self@,
    {
        self.fired
    }
}

} // verus!
