//! Event dispatch.
//!
//! Events go to the frontend of one window or of all of them.  Delivery
//! is fire-and-forget: the dispatcher records what must be handed to the
//! window capability and reports a missing target window as an error to
//! the caller, never retrying.  The log is append-only, so events to the
//! same target keep their call order.

use vstd::prelude::*;
use crate::links::DeepLink;
use crate::registry::WindowRegistry;

verus! {

/// Where an event goes: every window, or the one under a label.
#[derive(Debug)]
pub enum EventTarget {
    All,
    Window(String),
}

/// What an event carries.
#[derive(Debug)]
pub enum EventPayload {
    Empty,
    Text(String),
    Link(DeepLink),
}

/// One event handed to the window capability.
#[derive(Debug)]
pub struct Emission {
    pub event: String,
    pub target: EventTarget,
    pub payload: EventPayload,
}

/// Emission fails only when the target window is not open.
#[derive(Debug)]
pub enum DispatchError {
    NoSuchWindow(String),
}

/// The mathematical shape of a target.
pub enum TargetView {
    All,
    Window(Seq<char>),
}

/// The mathematical shape of a payload.
pub enum PayloadView {
    Empty,
    Text(Seq<char>),
    Link(Seq<char>, Map<Seq<char>, Seq<char>>),
}

/// The mathematical shape of an emission.
pub struct EmissionView {
    pub event: Seq<char>,
    pub target: TargetView,
    pub payload: PayloadView,
}

impl View for EventTarget {
    type V = TargetView;

    open spec fn view(&self) -> TargetView {
        match self {
            EventTarget::All => TargetView::All,
            EventTarget::Window(l) => TargetView::Window(l@),
        }
    }
}

impl View for EventPayload {
    type V = PayloadView;

    open spec fn view(&self) -> PayloadView {
        match self {
            EventPayload::Empty => PayloadView::Empty,
            EventPayload::Text(t) => PayloadView::Text(t@),
            EventPayload::Link(link) => PayloadView::Link(link.action@, link.params_map()),
        }
    }
}

impl View for Emission {
    type V = EmissionView;

    open spec fn view(&self) -> EmissionView {
        EmissionView { event: self.event@, target: self.target@, payload: self.payload@ }
    }
}

/// Records the events handed to the window capability, in call order.
pub struct Dispatcher {
    pub log: Vec<Emission>,
}

impl View for Dispatcher {
    type V = Seq<EmissionView>;

    open spec fn view(&self) -> Seq<EmissionView> {
        Seq::new(self.log@.len(), |i: int| self.log@[i]@)
    }
}

impl Dispatcher {
    pub fn new() -> (d: Self)
        ensures
            d@ == Seq::<EmissionView>::empty(),
    {
        let d = Dispatcher { log: Vec::new() };
        proof {
            assert(d@ =~= Seq::<EmissionView>::empty());
        }
        d
    }

    /// Emits one event.  A broadcast always succeeds; an event aimed at
    /// one window succeeds exactly when that window is open, and a
    /// failed emission leaves the log untouched.
    pub fn emit(
        &mut self,
        registry: &WindowRegistry,
        event: String,
        payload: EventPayload,
        target: EventTarget,
    ) -> (r: Result<(), DispatchError>)
        ensures
            r is Ok <==> (target@ matches TargetView::Window(l) ==> registry.has_label(l)),
            r is Ok ==> final(self)@ == old(self)@.push(
                EmissionView { event: event@, target: target@, payload: payload@ },
            ),
            r is Err ==> final(self)@ == old(self)@,
            r matches Err(DispatchError::NoSuchWindow(l)) ==> (target@ matches TargetView::Window(
                l2,
            ) && l@ == l2 && !registry.has_label(l2)),
    {
        match target {
            EventTarget::All => {
                let em = Emission { event, target: EventTarget::All, payload };
                let ghost prev = self@;
                self.log.push(em);
                proof {
                    assert(self@ =~= prev.push(em@));
                }
                Ok(())
            },
            EventTarget::Window(l) => {
                if registry.contains(l.as_str()) {
                    let em = Emission { event, target: EventTarget::Window(l), payload };
                    let ghost prev = self@;
                    self.log.push(em);
                    proof {
                        assert(self@ =~= prev.push(em@));
                    }
                    Ok(())
                } else {
                    Err(DispatchError::NoSuchWindow(l))
                }
            },
        }
    }
}

} // verus!
