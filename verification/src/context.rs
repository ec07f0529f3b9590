//! The action context: the mutable request view plus ownership of the
//! optional request body, used during the asynchronous resolution phase.
//!
//! The body slot is a single-owner resource: it can be taken at most once
//! across the whole combinator tree for a given request.  A second take
//! yields `None`, which the body endpoints turn into the terminal
//! "already consumed" error.

use vstd::prelude::*;

use crate::body::Body;
use crate::request::Request;

verus! {

/// A set of contextual values used while an action is polled.
pub struct ActionContext {
    pub req: Request,
    pub body: Option<Body>,
}

impl ActionContext {
    /// The body, when still present, has a cursor within its schedule.
    pub open spec fn wf(&self) -> bool {
        match self.body {
            Some(b) => b.wf(),
            None => true,
        }
    }

    /// The schedule entries the body slot can still yield.
    pub open spec fn steps_left(&self) -> int {
        match self.body {
            Some(b) => b.remaining_steps(),
            None => 0,
        }
    }

    /// Creates a context from the request view and the body slot.
    pub fn new(req: Request, body: Option<Body>) -> (r: ActionContext)
        ensures
            r.req == req,
            r.body == body,
    {
        ActionContext { req, body }
    }

    /// Returns a reference to the inner request view.
    pub fn request(&self) -> (r: &Request)
        ensures
            r == self.req,
    {
        &self.req
    }

    /// Moves the request body out of the context; every later take
    /// reports that the body is gone.
    pub fn take_body(&mut self) -> (r: Option<Body>)
        ensures
            r == old(self).body,
            final(self).body is None,
            final(self).req == old(self).req,
    {
        self.body.take()
    }
}

} // verus!
