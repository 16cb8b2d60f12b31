//! One connection's protocol state: unregistered until its first `Register`,
//! then active under that name until it closes.

use crate::message::{ClientMessage, IntentView};
use crate::router::{
    deliveries_view, spec_intent, spec_leave, spec_register, Delivery, ServerState,
};
use vstd::prelude::*;

verus! {

/// A connection: its delivery handle and, once registered, its name.
pub struct Session {
    handle: u64,
    name: Option<String>,
}

impl View for Session {
    type V = (u64, Option<Seq<char>>);

    closed spec fn view(&self) -> (u64, Option<Seq<char>>) {
        (
            self.handle,
            match self.name {
                Some(n) => Some(n@),
                None => None,
            },
        )
    }
}

impl Session {
    /// A fresh, unregistered connection with the given handle.
    pub fn new(handle: u64) -> (r: Session)
        ensures
            r@ == (handle, None::<Seq<char>>),
    {
        Session { handle, name: None }
    }

    /// The connection's delivery handle.
    pub fn handle(&self) -> (r: u64)
        ensures
            r == self@.0,
    {
        self.handle
    }

    /// The registered name, if any.
    pub fn name(&self) -> (r: Option<String>)
        ensures
            match r {
                Some(n) => self@.1 == Some(n@),
                None => self@.1 is None,
            },
    {
        match &self.name {
            Some(n) => Some(n.clone()),
            None => None,
        }
    }

    /// Handles one intent read from the connection. Before registration only
    /// `Register` counts, and anything else is dropped; after it, the intent
    /// is routed.
    pub fn on_intent(&mut self, state: &mut ServerState, msg: &ClientMessage) -> (r: Vec<Delivery>)
        requires
            old(state).wf(),
        ensures
            final(state).wf(),
            final(self)@.0 == old(self)@.0,
            match old(self)@.1 {
                None => match msg@ {
                    IntentView::Register { name } => final(self)@.1 == Some(name) && (
                    final(state)@,
                    deliveries_view(r@),
                    ) == spec_register(old(state)@, name, old(self)@.0),
                    _ => final(self)@ == old(self)@ && final(state)@ == old(state)@ && r@.len()
                        == 0,
                },
                Some(_) => final(self)@ == old(self)@ && (final(state)@, deliveries_view(r@))
                    == spec_intent(old(state)@, msg@),
            },
    {
        if self.name.is_some() {
            return state.route(msg);
        }
        match msg {
            ClientMessage::Register { name } => {
                let r = state.register(name, self.handle);
                self.name = Some(name.clone());
                r
            },
            _ => Vec::new(),
        }
    }

    /// Tears the connection down: a registered name is dropped from the
    /// directory and those left hear of it.
    pub fn close(&self, state: &mut ServerState) -> (r: Vec<Delivery>)
        requires
            old(state).wf(),
        ensures
            final(state).wf(),
            match self@.1 {
                Some(n) => (final(state)@, deliveries_view(r@)) == spec_leave(old(state)@, n),
                None => final(state)@ == old(state)@ && r@.len() == 0,
            },
    {
        match &self.name {
            Some(n) => state.leave(n),
            None => Vec::new(),
        }
    }
}

} // verus!
