//! A view dispatcher: a single-threaded event loop that owns a registry of
//! views and delivers queued events to an application handler.
//!
//! This is an in-memory model of the dispatcher, not a binding to a device's
//! native event loop: the registry, the event queue and the stop flag live
//! here, and events reach the queue through `post_event` and
//! `send_custom_event`.
//!
//! The handler declares which callback categories it takes; only those get a
//! trampoline registered, and events of any other category are discarded
//! when the loop takes them from the queue. Handlers receive the dispatcher
//! itself and may call any of its operations, `stop` included. The loop is
//! driven one iteration at a time by `dispatch_next`; a stop request is
//! observed between two iterations with `take_stop_request`. A loop that
//! blocks waiting for the next event needs an outside event source and is
//! not part of this module; `run_until_idle` drives the loop only as long
//! as events are queued.
use std::collections::HashMap;
use vstd::prelude::*;

verus! {

broadcast use vstd::std_specs::hash::group_hash_axioms;

/// How the dispatcher's output is attached to the screen.
#[derive(Debug, Clone, Copy, PartialEq, Eq, Structural)]
pub enum ViewDispatcherType {
    /// Desktop view dispatcher type.
    Desktop,
    /// Window view dispatcher type.
    Window,
    /// Fullscreen view dispatcher type.
    Fullscreen,
}

/// An opaque handle to a view widget. The dispatcher stores it by id and
/// never looks inside.
#[derive(Debug, Clone, Copy, PartialEq, Eq, Structural)]
pub struct ViewHandle(pub usize);

/// An event waiting in the dispatcher's queue.
#[derive(Debug, Clone, Copy, PartialEq, Eq, Structural)]
pub enum DispatcherEvent {
    /// A navigation (back) input.
    Navigation,
    /// An application-defined event.
    Custom(u32),
    /// A timer tick.
    Tick,
}

/// The callback categories a handler takes. A category that is off gets no
/// trampoline; `tick_period` is the tick interval when ticks are taken.
#[derive(Debug, Clone, Copy, PartialEq, Eq, Structural)]
pub struct Capabilities {
    pub navigation: bool,
    pub custom_event: bool,
    pub tick_period: Option<u32>,
}

/// What the loop did with one event taken from the queue.
#[derive(Debug, Clone, Copy, PartialEq, Eq, Structural)]
pub enum Delivery {
    /// The navigation trampoline ran and returned `handled`.
    Navigation { handled: bool },
    /// The custom-event trampoline ran with `event` and returned `handled`.
    Custom { event: u32, handled: bool },
    /// The tick trampoline ran.
    Tick,
    /// No trampoline is registered for `event`: it was discarded.
    Discarded { event: DispatcherEvent },
}

/// Whether `caps` registers a trampoline for the category of `e`.
pub open spec fn routes(caps: Capabilities, e: DispatcherEvent) -> bool {
    match e {
        DispatcherEvent::Navigation => caps.navigation,
        DispatcherEvent::Custom(_) => caps.custom_event,
        DispatcherEvent::Tick => caps.tick_period is Some,
    }
}

/// `d` is what the loop reports for `e` under the registrations `caps`: the
/// trampoline of `e`'s category with `e`'s payload, or a discard.
pub open spec fn delivers(caps: Capabilities, e: DispatcherEvent, d: Delivery) -> bool {
    if routes(caps, e) {
        match (e, d) {
            (DispatcherEvent::Navigation, Delivery::Navigation { .. }) => true,
            (DispatcherEvent::Custom(x), Delivery::Custom { event, .. }) => event == x,
            (DispatcherEvent::Tick, Delivery::Tick) => true,
            _ => false,
        }
    } else {
        d == (Delivery::Discarded { event: e })
    }
}

/// The abstract state of a dispatcher.
pub struct DispatcherState {
    /// The view registry.
    pub views: Map<u32, ViewHandle>,
    /// The id of the view on screen.
    pub current: Option<u32>,
    /// Events waiting for delivery, oldest first.
    pub pending: Seq<DispatcherEvent>,
    /// Number of events taken from the queue so far.
    pub delivered: nat,
    /// Whether a stop was requested and not yet observed by the loop.
    pub stop_requested: bool,
    /// Whether the view port is in front of the others.
    pub in_front: bool,
    pub attachment: ViewDispatcherType,
    /// The trampolines registered at construction.
    pub registered: Capabilities,
}

/// Largest number of events a dispatcher accepts over its lifetime; each one
/// gets a 64-bit sequence number.
pub open spec fn event_limit() -> nat {
    u64::MAX as nat
}

impl DispatcherState {
    /// The state right after construction.
    pub open spec fn initial(attachment: ViewDispatcherType, caps: Capabilities) -> Self {
        DispatcherState {
            views: Map::empty(),
            current: None,
            pending: Seq::empty(),
            delivered: 0,
            stop_requested: false,
            in_front: true,
            attachment,
            registered: caps,
        }
    }

    /// Whether one more event can be accepted.
    pub open spec fn can_post(self) -> bool {
        self.delivered + self.pending.len() < event_limit()
    }

    /// The state after `e` was queued, or the same state when no more events
    /// can be accepted.
    pub open spec fn post(self, e: DispatcherEvent) -> Self {
        if self.can_post() {
            DispatcherState { pending: self.pending.push(e), ..self }
        } else {
            self
        }
    }

    pub open spec fn add_view(self, id: u32, view: ViewHandle) -> Self {
        DispatcherState { views: self.views.insert(id, view), ..self }
    }

    pub open spec fn remove_view(self, id: u32) -> Self {
        DispatcherState {
            views: self.views.remove(id),
            current: if self.current == Some(id) {
                None
            } else {
                self.current
            },
            ..self
        }
    }

    pub open spec fn switch_to_view(self, id: u32) -> Self {
        DispatcherState { current: Some(id), ..self }
    }

    pub open spec fn stop(self) -> Self {
        DispatcherState { stop_requested: true, ..self }
    }

    /// The state after the oldest pending event was taken from the queue.
    pub open spec fn take(self) -> Self {
        DispatcherState { pending: self.pending.drop_first(), delivered: self.delivered + 1, ..self }
    }

    /// Whether the loop takes another event: no stop request, and an event
    /// is waiting.
    pub open spec fn runs_on(self) -> bool {
        !self.stop_requested && self.pending.len() > 0
    }

    /// What any sequence of dispatcher operations keeps: the registrations,
    /// the attachment, and the count of delivered events never going back.
    pub open spec fn leads_to(self, other: Self) -> bool {
        &&& other.registered == self.registered
        &&& other.attachment == self.attachment
        &&& other.delivered >= self.delivered
    }
}

/// The operations surface of the dispatcher, over its registry, queue and
/// stop flag.
pub struct ViewDispatcher {
    views: HashMap<u32, ViewHandle>,
    current: Option<u32>,
    queue: Vec<DispatcherEvent>,
    posted: u64,
    delivered: u64,
    stop_requested: bool,
    in_front: bool,
    attachment: ViewDispatcherType,
    registered: Capabilities,
}

impl View for ViewDispatcher {
    type V = DispatcherState;

    closed spec fn view(&self) -> DispatcherState {
        DispatcherState {
            views: self.views@,
            current: self.current,
            pending: self.queue@,
            delivered: self.delivered as nat,
            stop_requested: self.stop_requested,
            in_front: self.in_front,
            attachment: self.attachment,
            registered: self.registered,
        }
    }
}

impl ViewDispatcher {
    /// Every event accepted is either delivered or still queued.
    pub closed spec fn wf(&self) -> bool {
        self.posted as int == self.delivered as int + self.queue@.len()
    }

    fn new_raw(attachment: ViewDispatcherType, registered: Capabilities) -> (r: Self)
        ensures
            r.wf(),
            r@ == DispatcherState::initial(attachment, registered),
    {
        let r = ViewDispatcher {
            views: HashMap::new(),
            current: None,
            queue: Vec::new(),
            posted: 0,
            delivered: 0,
            stop_requested: false,
            in_front: true,
            attachment,
            registered,
        };
        assert(r@.views =~= Map::empty());
        assert(r@.pending =~= Seq::empty());
        r
    }

    /// Requests the end of the event loop, which observes the request at
    /// its next boundary between two events (see `take_stop_request`).
    /// Calling this again changes nothing.
    pub fn stop(&mut self)
        requires
            old(self).wf(),
        ensures
            final(self).wf(),
            final(self)@ == old(self)@.stop(),
    {
        self.stop_requested = true;
    }

    /// Registers `view` under `view_id`, which must be free.
    pub fn add_view(&mut self, view_id: u32, view: ViewHandle)
        requires
            old(self).wf(),
            !old(self)@.views.contains_key(view_id),
        ensures
            final(self).wf(),
            final(self)@ == old(self)@.add_view(view_id, view),
    {
        self.views.insert(view_id, view);
    }

    /// Removes the view registered under `view_id`. If it was on screen, no
    /// view is on screen afterwards.
    pub fn remove_view(&mut self, view_id: u32)
        requires
            old(self).wf(),
            old(self)@.views.contains_key(view_id),
        ensures
            final(self).wf(),
            final(self)@ == old(self)@.remove_view(view_id),
    {
        self.views.remove(&view_id);
        if self.current == Some(view_id) {
            self.current = None;
        }
    }

    /// Puts the view registered under `view_id` on screen.
    pub fn switch_to_view(&mut self, view_id: u32)
        requires
            old(self).wf(),
            old(self)@.views.contains_key(view_id),
        ensures
            final(self).wf(),
            final(self)@ == old(self)@.switch_to_view(view_id),
    {
        self.current = Some(view_id);
    }

    /// Sends the dispatcher's view port to the front.
    pub fn send_to_front(&mut self)
        requires
            old(self).wf(),
        ensures
            final(self).wf(),
            final(self)@ == (DispatcherState { in_front: true, ..old(self)@ }),
    {
        self.in_front = true;
    }

    /// Sends the dispatcher's view port to the back.
    pub fn send_to_back(&mut self)
        requires
            old(self).wf(),
        ensures
            final(self).wf(),
            final(self)@ == (DispatcherState { in_front: false, ..old(self)@ }),
    {
        self.in_front = false;
    }

    /// Queues `event` for delivery; returns whether it was accepted, which it
    /// is unless the dispatcher's lifetime supply of event numbers is spent.
    pub fn post_event(&mut self, event: DispatcherEvent) -> (r: bool)
        requires
            old(self).wf(),
        ensures
            final(self).wf(),
            r == old(self)@.can_post(),
            final(self)@ == old(self)@.post(event),
    {
        if self.posted < u64::MAX {
            self.queue.push(event);
            self.posted = self.posted + 1;
            true
        } else {
            false
        }
    }

    /// Queues the custom event `event` for the custom-event handler. Without
    /// a registered custom-event trampoline it is discarded when its turn
    /// comes.
    pub fn send_custom_event(&mut self, event: u32)
        requires
            old(self).wf(),
        ensures
            final(self).wf(),
            final(self)@ == old(self)@.post(DispatcherEvent::Custom(event)),
    {
        self.post_event(DispatcherEvent::Custom(event));
    }

    /// Whether a view is registered under `view_id`.
    pub fn contains_view(&self, view_id: u32) -> (r: bool)
        ensures
            r == self@.views.contains_key(view_id),
    {
        self.views.contains_key(&view_id)
    }

    /// The id of the view on screen.
    pub fn current_view(&self) -> (r: Option<u32>)
        ensures
            r == self@.current,
    {
        self.current
    }

    /// Whether the view port is in front of the others.
    pub fn is_in_front(&self) -> (r: bool)
        ensures
            r == self@.in_front,
    {
        self.in_front
    }

    /// Observes and clears a stop request: returns whether one was pending.
    /// The event loop calls this between two iterations and ends when it
    /// returns `true`.
    pub fn take_stop_request(&mut self) -> (r: bool)
        requires
            old(self).wf(),
        ensures
            final(self).wf(),
            r == old(self)@.stop_requested,
            final(self)@ == (DispatcherState { stop_requested: false, ..old(self)@ }),
    {
        let r = self.stop_requested;
        self.stop_requested = false;
        r
    }

    /// Number of events waiting in the queue.
    pub fn pending_events(&self) -> (r: usize)
        ensures
            r == self@.pending.len(),
    {
        self.queue.len()
    }
}


/// An application handler. Each category that `capabilities` turns on gets
/// a trampoline at construction; the others are never called. A handler may
/// call any operation of the dispatcher it is handed.
///
/// For each category a step relation states what handling one event does:
/// from the handler `self` and the dispatcher state `before` to the handler
/// `after_self`, the state `after` and the answer. Unless a handler states
/// otherwise, handling changes nothing and answers `false`.
///
/// A handler is meant to be written inside `verus!`, overriding
/// `declared_capabilities` and the step relation of each category it takes,
/// so that its methods are checked against them. An impl written outside
/// `verus!` keeps the defaults of these spec functions while its methods do
/// something else: what is proved of the loop then says nothing of it.
pub trait ViewDispatcherCallbacks: Sized {
    /// The categories this handler takes; none unless the handler says
    /// otherwise.
    open spec fn declared_capabilities() -> Capabilities {
        Capabilities { navigation: false, custom_event: false, tick_period: None }
    }

    /// What handling the custom event `event` does.
    open spec fn custom_event_step(
        &self,
        before: DispatcherState,
        event: u32,
        after_self: &Self,
        after: DispatcherState,
        handled: bool,
    ) -> bool {
        !handled && after == before && *after_self == *self
    }

    /// What handling a navigation event does.
    open spec fn navigation_event_step(
        &self,
        before: DispatcherState,
        after_self: &Self,
        after: DispatcherState,
        handled: bool,
    ) -> bool {
        !handled && after == before && *after_self == *self
    }

    /// What handling a tick does.
    open spec fn tick_event_step(
        &self,
        before: DispatcherState,
        after_self: &Self,
        after: DispatcherState,
    ) -> bool {
        after == before && *after_self == *self
    }

    fn capabilities() -> (r: Capabilities)
        ensures
            r == Self::declared_capabilities(),
    ;

    /// Handles a custom event; returns whether it was handled.
    fn on_custom_event(&mut self, view_dispatcher: &mut ViewDispatcher, event: u32) -> (handled:
        bool)
        requires
            old(view_dispatcher).wf(),
        ensures
            final(view_dispatcher).wf(),
            old(view_dispatcher)@.leads_to(final(view_dispatcher)@),
            old(self).custom_event_step(
                old(view_dispatcher)@,
                event,
                &*final(self),
                final(view_dispatcher)@,
                handled,
            ),
    ;

    /// Handles a navigation event; returns whether it was handled.
    fn on_navigation_event(&mut self, view_dispatcher: &mut ViewDispatcher) -> (handled: bool)
        requires
            old(view_dispatcher).wf(),
        ensures
            final(view_dispatcher).wf(),
            old(view_dispatcher)@.leads_to(final(view_dispatcher)@),
            old(self).navigation_event_step(
                old(view_dispatcher)@,
                &*final(self),
                final(view_dispatcher)@,
                handled,
            ),
    ;

    /// Handles a timer tick.
    fn on_tick_event(&mut self, view_dispatcher: &mut ViewDispatcher)
        requires
            old(view_dispatcher).wf(),
        ensures
            final(view_dispatcher).wf(),
            old(view_dispatcher)@.leads_to(final(view_dispatcher)@),
            old(self).tick_event_step(old(view_dispatcher)@, &*final(self), final(view_dispatcher)@),
    ;
}

/// The handler that takes no category: every event leaves it and the
/// dispatcher unchanged, unhandled.
impl ViewDispatcherCallbacks for () {
    fn capabilities() -> (r: Capabilities) {
        Capabilities { navigation: false, custom_event: false, tick_period: None }
    }

    fn on_custom_event(&mut self, view_dispatcher: &mut ViewDispatcher, event: u32) -> (handled:
        bool) {
        false
    }

    fn on_navigation_event(&mut self, view_dispatcher: &mut ViewDispatcher) -> (handled: bool) {
        false
    }

    fn on_tick_event(&mut self, view_dispatcher: &mut ViewDispatcher) {
    }
}

/// A handler that takes navigation events only: on one it requests the end
/// of the event loop and answers that it handled the event.
pub struct StopOnNavigation;

impl ViewDispatcherCallbacks for StopOnNavigation {
    open spec fn declared_capabilities() -> Capabilities {
        Capabilities { navigation: true, custom_event: false, tick_period: None }
    }

    open spec fn navigation_event_step(
        &self,
        before: DispatcherState,
        after_self: &Self,
        after: DispatcherState,
        handled: bool,
    ) -> bool {
        handled && after == before.stop()
    }

    fn capabilities() -> (r: Capabilities) {
        Capabilities { navigation: true, custom_event: false, tick_period: None }
    }

    fn on_custom_event(&mut self, view_dispatcher: &mut ViewDispatcher, event: u32) -> (handled:
        bool) {
        false
    }

    fn on_navigation_event(&mut self, view_dispatcher: &mut ViewDispatcher) -> (handled: bool) {
        view_dispatcher.stop();
        true
    }

    fn on_tick_event(&mut self, view_dispatcher: &mut ViewDispatcher) {
    }
}

/// Trampoline of the custom-event category: hands `event` and the
/// dispatcher to the handler and returns the handler's answer.
pub fn dispatch_custom_event<C: ViewDispatcherCallbacks>(
    view_dispatcher: &mut ViewDispatcher,
    callbacks: &mut C,
    event: u32,
) -> (handled: bool)
    requires
        old(view_dispatcher).wf(),
    ensures
        final(view_dispatcher).wf(),
        old(view_dispatcher)@.leads_to(final(view_dispatcher)@),
        old(callbacks).custom_event_step(
            old(view_dispatcher)@,
            event,
            &*final(callbacks),
            final(view_dispatcher)@,
            handled,
        ),
{
    callbacks.on_custom_event(view_dispatcher, event)
}

/// Trampoline of the navigation category: hands the dispatcher to the
/// handler and returns the handler's answer.
pub fn dispatch_navigation_event<C: ViewDispatcherCallbacks>(
    view_dispatcher: &mut ViewDispatcher,
    callbacks: &mut C,
) -> (handled: bool)
    requires
        old(view_dispatcher).wf(),
    ensures
        final(view_dispatcher).wf(),
        old(view_dispatcher)@.leads_to(final(view_dispatcher)@),
        old(callbacks).navigation_event_step(
            old(view_dispatcher)@,
            &*final(callbacks),
            final(view_dispatcher)@,
            handled,
        ),
{
    callbacks.on_navigation_event(view_dispatcher)
}

/// Trampoline of the tick category: hands the dispatcher to the handler.
pub fn dispatch_tick_event<C: ViewDispatcherCallbacks>(
    view_dispatcher: &mut ViewDispatcher,
    callbacks: &mut C,
)
    requires
        old(view_dispatcher).wf(),
    ensures
        final(view_dispatcher).wf(),
        old(view_dispatcher)@.leads_to(final(view_dispatcher)@),
        old(callbacks).tick_event_step(
            old(view_dispatcher)@,
            &*final(callbacks),
            final(view_dispatcher)@,
        ),
{
    callbacks.on_tick_event(view_dispatcher)
}

/// One iteration of the event loop from the state `before` and the handler
/// `handler`, reported as `d`: the oldest pending event is taken; the
/// trampoline of its category runs with its payload when one is registered
/// and the handler's step relation holds of what it did and answered;
/// otherwise the event is discarded and nothing else changes.
pub open spec fn step<C: ViewDispatcherCallbacks>(
    before: DispatcherState,
    handler: C,
    after: DispatcherState,
    after_handler: C,
    d: Delivery,
) -> bool {
    let e = before.pending[0];
    let s = before.take();
    &&& before.pending.len() > 0
    &&& delivers(before.registered, e, d)
    &&& s.leads_to(after)
    &&& match d {
        Delivery::Navigation { handled } => handler.navigation_event_step(
            s,
            &after_handler,
            after,
            handled,
        ),
        Delivery::Custom { event, handled } => handler.custom_event_step(
            s,
            event,
            &after_handler,
            after,
            handled,
        ),
        Delivery::Tick => handler.tick_event_step(s, &after_handler, after),
        Delivery::Discarded { .. } => after == s && after_handler == handler,
    }
}

/// `states` and `handlers` are a run of the event loop, with `deliveries`
/// what each iteration did: each state but the last lets the loop run on,
/// and one step leads from it to the next.
pub open spec fn run_trace<C: ViewDispatcherCallbacks>(
    states: Seq<DispatcherState>,
    handlers: Seq<C>,
    deliveries: Seq<Delivery>,
) -> bool {
    &&& states.len() >= 1
    &&& handlers.len() == states.len()
    &&& deliveries.len() + 1 == states.len()
    &&& forall|k: int|
        0 <= k < states.len() - 1 ==> (#[trigger] states[k]).runs_on() && step(
            states[k],
            handlers[k],
            states[k + 1],
            handlers[k + 1],
            deliveries[k],
        )
}

impl ViewDispatcher {
    /// One iteration of the event loop: takes the oldest pending event and
    /// runs the trampoline registered for its category, or discards it when
    /// there is none. `None`, and nothing changed, when no event is pending.
    pub fn dispatch_next<C: ViewDispatcherCallbacks>(&mut self, callbacks: &mut C) -> (r: Option<
        Delivery,
    >)
        requires
            old(self).wf(),
        ensures
            final(self).wf(),
            old(self)@.leads_to(final(self)@),
            old(self)@.pending.len() == 0 ==> r is None && final(self)@ == old(self)@
                && *final(callbacks) == *old(callbacks),
            old(self)@.pending.len() > 0 ==> (r matches Some(d) && step(
                old(self)@,
                *old(callbacks),
                final(self)@,
                *final(callbacks),
                d,
            )),
    {
        if self.queue.len() == 0 {
            return None;
        }
        let event = self.queue.remove(0);
        self.delivered = self.delivered + 1;
        proof {
            assert(self@.pending =~= old(self)@.pending.drop_first());
            assert(self@ == old(self)@.take());
        }
        match event {
            DispatcherEvent::Navigation => {
                if self.registered.navigation {
                    let handled = dispatch_navigation_event(self, callbacks);
                    Some(Delivery::Navigation { handled })
                } else {
                    Some(Delivery::Discarded { event })
                }
            },
            DispatcherEvent::Custom(e) => {
                if self.registered.custom_event {
                    let handled = dispatch_custom_event(self, callbacks, e);
                    Some(Delivery::Custom { event: e, handled })
                } else {
                    Some(Delivery::Discarded { event })
                }
            },
            DispatcherEvent::Tick => {
                if self.registered.tick_period.is_some() {
                    dispatch_tick_event(self, callbacks);
                    Some(Delivery::Tick)
                } else {
                    Some(Delivery::Discarded { event })
                }
            },
        }
    }

    /// Drives the event loop while events are queued: delivers pending
    /// events one at a time, oldest first, until a stop request is observed
    /// between two events or the queue is empty. Unlike a blocking event
    /// loop it does not wait for further events: it also returns, with no
    /// stop requested, once nothing is queued. An observed stop request is
    /// cleared; a request made before the call is observed before the first
    /// event.
    pub fn run_until_idle<C: ViewDispatcherCallbacks>(&mut self, callbacks: &mut C)
        requires
            old(self).wf(),
        ensures
            final(self).wf(),
            old(self)@.leads_to(final(self)@),
            !final(self)@.stop_requested,
            exists|states: Seq<DispatcherState>, handlers: Seq<C>, deliveries: Seq<Delivery>|
                {
                    &&& run_trace(states, handlers, deliveries)
                    &&& states[0] == old(self)@
                    &&& handlers[0] == *old(callbacks)
                    &&& !states.last().runs_on()
                    &&& final(self)@ == (DispatcherState {
                        stop_requested: false,
                        ..states.last()
                    })
                    &&& *final(callbacks) == handlers.last()
                },
    {
        let ghost mut states: Seq<DispatcherState> = seq![self@];
        let ghost mut handlers: Seq<C> = seq![*callbacks];
        let ghost mut deliveries: Seq<Delivery> = Seq::empty();
        loop
            invariant_except_break
                states.last() == self@,
            invariant
                self.wf(),
                old(self)@.leads_to(self@),
                run_trace(states, handlers, deliveries),
                states[0] == old(self)@,
                handlers[0] == *old(callbacks),
                handlers.last() == *callbacks,
            ensures
                self.wf(),
                old(self)@.leads_to(self@),
                !self@.stop_requested,
                run_trace(states, handlers, deliveries),
                states[0] == old(self)@,
                handlers[0] == *old(callbacks),
                handlers.last() == *callbacks,
                !states.last().runs_on(),
                self@ == (DispatcherState { stop_requested: false, ..states.last() }),
            decreases u64::MAX - self.delivered,
        {
            if self.stop_requested {
                self.stop_requested = false;
                break;
            }
            if self.queue.len() == 0 {
                break;
            }
            let ghost before = self@;
            let ghost before_handler = *callbacks;
            let r = self.dispatch_next(callbacks);
            proof {
                let d = r->Some_0;
                let ns = states.push(self@);
                let nh = handlers.push(*callbacks);
                let nd = deliveries.push(d);
                assert forall|k: int| 0 <= k < ns.len() - 1 implies (#[trigger] ns[k]).runs_on()
                    && step(ns[k], nh[k], ns[k + 1], nh[k + 1], nd[k]) by {
                    if k < states.len() - 1 {
                        assert(ns[k] == states[k]);
                        assert(ns[k + 1] == states[k + 1]);
                        assert(nh[k] == handlers[k]);
                        assert(nh[k + 1] == handlers[k + 1]);
                        assert(nd[k] == deliveries[k]);
                    } else {
                        assert(ns[k] == before);
                        assert(nh[k] == before_handler);
                        assert(nd[k] == d);
                    }
                }
                states = ns;
                handlers = nh;
                deliveries = nd;
            }
        }
    }
}

/// The trampoline that `d` reports as run, with its payload; `None` for a
/// discard.
pub open spec fn invoked(d: Delivery) -> Option<DispatcherEvent> {
    match d {
        Delivery::Navigation { .. } => Some(DispatcherEvent::Navigation),
        Delivery::Custom { event, .. } => Some(DispatcherEvent::Custom(event)),
        Delivery::Tick => Some(DispatcherEvent::Tick),
        Delivery::Discarded { .. } => None,
    }
}

/// A dispatcher together with the handler it owns: the context that every
/// trampoline works on.
pub struct ViewDispatcherBuilder<C> {
    view_dispatcher: ViewDispatcher,
    callbacks: C,
}

impl<C: ViewDispatcherCallbacks> ViewDispatcherBuilder<C> {
    /// The dispatcher is well formed and its registrations are the handler's
    /// declared categories.
    pub closed spec fn wf(&self) -> bool {
        &&& self.view_dispatcher.wf()
        &&& self.view_dispatcher@.registered == C::declared_capabilities()
    }

    pub closed spec fn spec_view_dispatcher(&self) -> ViewDispatcher {
        self.view_dispatcher
    }

    pub closed spec fn spec_callbacks(&self) -> C {
        self.callbacks
    }

    /// Creates a dispatcher attached as `view_dispatcher_type` that owns
    /// `callbacks`. A trampoline is registered for each category the handler
    /// declares and for no other.
    pub fn new(view_dispatcher_type: ViewDispatcherType, callbacks: C) -> (r: Self)
        ensures
            r.wf(),
            r.spec_view_dispatcher()@ == DispatcherState::initial(
                view_dispatcher_type,
                C::declared_capabilities(),
            ),
            r.spec_callbacks() == callbacks,
    {
        let declared = C::capabilities();
        let mut registered = Capabilities { navigation: false, custom_event: false, tick_period: None };
        if declared.navigation {
            registered.navigation = true;
        }
        if declared.custom_event {
            registered.custom_event = true;
        }
        if let Some(period) = declared.tick_period {
            registered.tick_period = Some(period);
        }
        let view_dispatcher = ViewDispatcher::new_raw(view_dispatcher_type, registered);
        ViewDispatcherBuilder { view_dispatcher, callbacks }
    }

    /// Drives the event loop with the owned handler while events are
    /// queued; see `ViewDispatcher::run_until_idle`.
    pub fn run_until_idle(&mut self)
        requires
            old(self).wf(),
        ensures
            final(self).wf(),
            old(self).spec_view_dispatcher()@.leads_to(final(self).spec_view_dispatcher()@),
            !final(self).spec_view_dispatcher()@.stop_requested,
            exists|states: Seq<DispatcherState>, handlers: Seq<C>, deliveries: Seq<Delivery>|
                {
                    &&& run_trace(states, handlers, deliveries)
                    &&& states[0] == old(self).spec_view_dispatcher()@
                    &&& handlers[0] == old(self).spec_callbacks()
                    &&& !states.last().runs_on()
                    &&& final(self).spec_view_dispatcher()@ == (DispatcherState {
                        stop_requested: false,
                        ..states.last()
                    })
                    &&& final(self).spec_callbacks() == handlers.last()
                },
    {
        self.view_dispatcher.run_until_idle(&mut self.callbacks);
    }

    /// One iteration of the event loop with the owned handler; see
    /// `ViewDispatcher::dispatch_next`.
    pub fn dispatch_next(&mut self) -> (r: Option<Delivery>)
        requires
            old(self).wf(),
        ensures
            final(self).wf(),
            old(self).spec_view_dispatcher()@.pending.len() == 0 ==> r is None
                && final(self).spec_view_dispatcher()@ == old(self).spec_view_dispatcher()@
                && final(self).spec_callbacks() == old(self).spec_callbacks(),
            old(self).spec_view_dispatcher()@.pending.len() > 0 ==> (r matches Some(d) && step(
                old(self).spec_view_dispatcher()@,
                old(self).spec_callbacks(),
                final(self).spec_view_dispatcher()@,
                final(self).spec_callbacks(),
                d,
            )),
    {
        self.view_dispatcher.dispatch_next(&mut self.callbacks)
    }

    /// The dispatcher, for its operations.
    pub fn view_dispatcher(&mut self) -> (r: &mut ViewDispatcher)
        ensures
            *r == old(self).spec_view_dispatcher(),
            old(self).wf() ==> r.wf() && r@.registered == C::declared_capabilities(),
            final(self).spec_view_dispatcher() == *final(r),
            final(self).spec_callbacks() == old(self).spec_callbacks(),
            old(self).wf() && final(r).wf() && r@.leads_to(final(r)@) ==> final(self).wf(),
    {
        &mut self.view_dispatcher
    }

    /// The owned handler.
    pub fn callbacks(&self) -> (r: &C)
        ensures
            *r == self.spec_callbacks(),
    {
        &self.callbacks
    }
}

/// An event reaches the trampoline of its category, with its payload,
/// exactly when the handler registered that category; otherwise no
/// trampoline runs for it.
pub proof fn lemma_capability_gate(caps: Capabilities, e: DispatcherEvent, d: Delivery)
    requires
        delivers(caps, e, d),
    ensures
        invoked(d) == (if routes(caps, e) {
            Some(e)
        } else {
            None
        }),
{
}

/// After `add_view(id, h)`, `switch_to_view(id)` is allowed and puts `id` on
/// screen; switching to it a second time changes nothing more.
pub proof fn lemma_switch_after_add(s: DispatcherState, id: u32, h: ViewHandle)
    requires
        !s.views.contains_key(id),
    ensures
        s.add_view(id, h).views.contains_key(id),
        s.add_view(id, h).switch_to_view(id).current == Some(id),
        s.add_view(id, h).switch_to_view(id).switch_to_view(id) == s.add_view(
            id,
            h,
        ).switch_to_view(id),
{
}

/// `remove_view(id)` after `add_view(id, h)` leaves no view under `id`, so
/// a later `switch_to_view(id)` does not meet its precondition.
pub proof fn lemma_remove_after_add(s: DispatcherState, id: u32, h: ViewHandle)
    requires
        !s.views.contains_key(id),
    ensures
        !s.add_view(id, h).remove_view(id).views.contains_key(id),
        s.add_view(id, h).remove_view(id).views == s.views,
{
    assert(s.add_view(id, h).remove_view(id).views =~= s.views);
}

/// A stop request ends the loop at the next boundary between events: in a
/// run of the loop, the state that a handler leaves with a stop request is
/// the last one, and every state before it let the loop run on. When the
/// request came from a navigation handler, that handler ran to its end and
/// its answer is the one reported for the last iteration.
pub proof fn lemma_stop_ends_run<C: ViewDispatcherCallbacks>(
    states: Seq<DispatcherState>,
    handlers: Seq<C>,
    deliveries: Seq<Delivery>,
    k: int,
)
    requires
        run_trace(states, handlers, deliveries),
        0 <= k < states.len(),
        states[k].stop_requested,
    ensures
        k == states.len() - 1,
        forall|j: int| 0 <= j < k ==> (#[trigger] states[j]).runs_on(),
        k > 0 ==> (deliveries[k - 1] matches Delivery::Navigation { handled }
            ==> handlers[k - 1].navigation_event_step(
            states[k - 1].take(),
            &handlers[k],
            states[k],
            handled,
        )),
{
    if k < states.len() - 1 {
        assert(states[k].runs_on());
    }
    assert forall|j: int| 0 <= j < k implies (#[trigger] states[j]).runs_on() by {
        assert(j < states.len() - 1);
    }
    if k > 0 {
        assert(states[k - 1].runs_on());
    }
}

proof fn lemma_views_kept_prefix<C: ViewDispatcherCallbacks>(
    states: Seq<DispatcherState>,
    handlers: Seq<C>,
    deliveries: Seq<Delivery>,
    j: int,
)
    requires
        run_trace(states, handlers, deliveries),
        0 <= j < states.len(),
        forall|h: C, s: DispatcherState, h2: C, s2: DispatcherState, b: bool|
            #[trigger] h.navigation_event_step(s, &h2, s2, b) ==> s2.views == s.views,
        forall|h: C, s: DispatcherState, e: u32, h2: C, s2: DispatcherState, b: bool|
            #[trigger] h.custom_event_step(s, e, &h2, s2, b) ==> s2.views == s.views,
        forall|h: C, s: DispatcherState, h2: C, s2: DispatcherState|
            #[trigger] h.tick_event_step(s, &h2, s2) ==> s2.views == s.views,
    ensures
        states[j].views == states[0].views,
    decreases j,
{
    if j > 0 {
        lemma_views_kept_prefix(states, handlers, deliveries, j - 1);
        assert(states[j - 1].runs_on());
        let d = deliveries[j - 1];
        let s = states[j - 1].take();
        match d {
            Delivery::Navigation { handled } => {
                assert(handlers[j - 1].navigation_event_step(s, &handlers[j], states[j], handled));
            },
            Delivery::Custom { event, handled } => {
                assert(handlers[j - 1].custom_event_step(
                    s,
                    event,
                    &handlers[j],
                    states[j],
                    handled,
                ));
            },
            Delivery::Tick => {
                assert(handlers[j - 1].tick_event_step(s, &handlers[j], states[j]));
            },
            Delivery::Discarded { .. } => {},
        }
    }
}

/// One loop iteration that delivers a navigation event to
/// `StopOnNavigation` reports it handled, leaves a stop request, and keeps
/// the registry and the view on screen.
pub proof fn lemma_stop_on_navigation_step(
    before: DispatcherState,
    after: DispatcherState,
    d: Delivery,
)
    requires
        step(before, StopOnNavigation, after, StopOnNavigation, d),
        before.pending[0] == DispatcherEvent::Navigation,
        before.registered == StopOnNavigation::declared_capabilities(),
    ensures
        d == (Delivery::Navigation { handled: true }),
        after.stop_requested,
        !after.runs_on(),
        after.views == before.views,
        after.current == before.current,
{
}

/// The loop itself never touches the view registry: in a run with a handler
/// whose steps keep the registry, the last state has the registry of the
/// first.
pub proof fn lemma_run_keeps_views<C: ViewDispatcherCallbacks>(
    states: Seq<DispatcherState>,
    handlers: Seq<C>,
    deliveries: Seq<Delivery>,
)
    requires
        run_trace(states, handlers, deliveries),
        forall|h: C, s: DispatcherState, h2: C, s2: DispatcherState, b: bool|
            #[trigger] h.navigation_event_step(s, &h2, s2, b) ==> s2.views == s.views,
        forall|h: C, s: DispatcherState, e: u32, h2: C, s2: DispatcherState, b: bool|
            #[trigger] h.custom_event_step(s, e, &h2, s2, b) ==> s2.views == s.views,
        forall|h: C, s: DispatcherState, h2: C, s2: DispatcherState|
            #[trigger] h.tick_event_step(s, &h2, s2) ==> s2.views == s.views,
    ensures
        states.last().views == states[0].views,
{
    lemma_views_kept_prefix(states, handlers, deliveries, states.len() - 1);
}

/// On an empty queue, `send_custom_event(e)` followed by one loop iteration
/// runs the custom-event trampoline once, with `e`, when one is registered:
/// the handler's custom-event step with `e` relates the states before and
/// after. When none is registered no trampoline runs and nothing else
/// changes.
pub proof fn lemma_custom_event_one_iteration<C: ViewDispatcherCallbacks>(
    s: DispatcherState,
    e: u32,
    h: C,
    after: DispatcherState,
    h2: C,
    d: Delivery,
)
    requires
        s.pending.len() == 0,
        s.can_post(),
        step(s.post(DispatcherEvent::Custom(e)), h, after, h2, d),
    ensures
        s.post(DispatcherEvent::Custom(e)).pending == seq![DispatcherEvent::Custom(e)],
        invoked(d) == (if s.registered.custom_event {
            Some(DispatcherEvent::Custom(e))
        } else {
            None
        }),
        s.registered.custom_event ==> (d matches Delivery::Custom { event, handled } && event == e
            && h.custom_event_step(s.post(DispatcherEvent::Custom(e)).take(), e, &h2, after, handled)),
        !s.registered.custom_event ==> after == s.post(DispatcherEvent::Custom(e)).take() && h2
            == h,
{
    assert(s.post(DispatcherEvent::Custom(e)).pending =~= seq![DispatcherEvent::Custom(e)]);
}

} // verus!
