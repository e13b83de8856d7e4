//! Application events: handlers registered on a bridge receive every
//! event emitted on it.
use vstd::prelude::*;
use crate::runtime::Runtime;
use crate::signal::{EffectId, Signal};

verus! {

/// Desktop event types.
#[derive(Debug, Clone)]
pub enum DesktopEvent {
    /// Window closed
    WindowClose { scope_id: usize },
    /// Window focused
    WindowFocus,
    /// Window blurred
    WindowBlur,
    /// Custom event with payload
    Custom { name: String, payload: String },
}

impl DesktopEvent {
    /// An equal event.
    pub fn copy(&self) -> (e: DesktopEvent)
        ensures
            e == *self,
    {
        match self {
            DesktopEvent::WindowClose { scope_id } => DesktopEvent::WindowClose { scope_id: *scope_id },
            DesktopEvent::WindowFocus => DesktopEvent::WindowFocus,
            DesktopEvent::WindowBlur => DesktopEvent::WindowBlur,
            DesktopEvent::Custom { name, payload } => DesktopEvent::Custom { name: name.clone(), payload: payload.clone() },
        }
    }
}

/// A receiver of desktop events.
pub trait EventHandler {
    /// Handle one event.
    fn handle(&self, event: DesktopEvent);
}

struct Registered {
    handler: Box<dyn EventHandler>,
}

/// Event bridge: the registered handlers, in registration order, and the
/// record of the deliveries made so far.
pub struct EventBridge {
    handlers: Vec<Registered>,
    deliveries: Ghost<Seq<(nat, DesktopEvent)>>,
}

/// The deliveries of one emission of `event` to the first `n` handlers: the
/// handler numbers 0, 1, ..., n - 1 in that order, each with `event`.
pub open spec fn deliveries_of(event: DesktopEvent, n: nat) -> Seq<(nat, DesktopEvent)> {
    Seq::new(n, |i: int| (i as nat, event))
}

impl EventBridge {
    /// Number of registered handlers.
    pub closed spec fn handler_count(self) -> nat {
        self.handlers@.len()
    }

    /// Every delivery so far, in the order made: which handler (by its
    /// registration number) was handed which event.
    pub closed spec fn delivered(self) -> Seq<(nat, DesktopEvent)> {
        self.deliveries@
    }

    /// A bridge with no handlers.
    pub fn new() -> (bridge: Self)
        ensures
            bridge.handler_count() == 0,
            bridge.delivered() == Seq::<(nat, DesktopEvent)>::empty(),
    {
        EventBridge { handlers: Vec::new(), deliveries: Ghost(Seq::empty()) }
    }

    /// Register an event handler; it is called after those registered before.
    pub fn on(&mut self, handler: Box<dyn EventHandler>)
        ensures
            final(self).handler_count() == old(self).handler_count() + 1,
            final(self).delivered() == old(self).delivered(),
    {
        self.add(Registered { handler });
    }

    fn add(&mut self, r: Registered)
        ensures
            final(self).handler_count() == old(self).handler_count() + 1,
            final(self).delivered() == old(self).delivered(),
    {
        self.handlers.push(r);
    }

    /// Hand handler number `i` an equal copy of `event`, and record it.
    fn deliver(&mut self, i: usize, event: &DesktopEvent)
        requires
            i < old(self).handler_count(),
        ensures
            final(self).handler_count() == old(self).handler_count(),
            final(self).delivered() == old(self).delivered().push((i as nat, *event)),
    {
        let copy = event.copy();
        self.handlers[i].handler.handle(copy);
        self.deliveries = Ghost(self.deliveries@.push((i as nat, *event)));
    }

    /// Number of registered handlers.
    pub fn len(&self) -> (n: usize)
        ensures
            n == self.handler_count(),
    {
        self.handlers.len()
    }

    /// Emit an event: every handler, once, in registration order, is
    /// handed an equal copy of it.
    pub fn emit(&mut self, event: DesktopEvent)
        ensures
            final(self).handler_count() == old(self).handler_count(),
            final(self).delivered() == old(self).delivered() + deliveries_of(event, old(self).handler_count()),
    {
        let mut i: usize = 0;
        while i < self.handlers.len()
            invariant
                i <= self.handler_count(),
                self.handler_count() == old(self).handler_count(),
                self.delivered() == old(self).delivered() + deliveries_of(event, i as nat),
            decreases self.handler_count() - i,
        {
            self.deliver(i, &event);
            assert(deliveries_of(event, (i + 1) as nat) =~= deliveries_of(event, i as nat).push((i as nat, event)));
            i = i + 1;
        }
    }
}

impl Default for EventBridge {
    fn default() -> (bridge: Self)
        ensures
            bridge.handler_count() == 0,
    {
        Self::new()
    }
}

/// A signal that holds `initial` and is meant to be updated when the event
/// named `_event_name` fires.
pub fn use_event_signal<V>(rt: &mut Runtime<V>, _event_name: &str, initial: V) -> (s: Signal)
    requires
        old(rt).wf(),
    ensures
        final(rt).wf(),
        s.id() == old(rt).store().len(),
        final(rt).store().value(s) == initial,
        final(rt).store().subscribers(s) == Seq::<EffectId>::empty(),
        final(rt).same_bookkeeping(*old(rt)),
{
    Signal::new(rt, initial)
}

} // verus!
