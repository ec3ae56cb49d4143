//! Events: a first-in first-out queue of events to handle now, a schedule
//! of events that fall due later, and a dispatcher that hands each event to
//! the handlers registered for its kind.
//!
//! Time is counted in nanoseconds since the queue was made.
use crate::entity::Entities;
use crate::schedule::{due_count, lemma_due_count, lemma_due_count_unique, lemma_skip_sorted, placed, sorted_by_time, Schedule};
use std::collections::VecDeque;
use vstd::prelude::*;

verus! {

/// A value that can travel as an event: it tells which kind of event it is.
pub trait EventTrait {
    /// The kind of event this value is.
    spec fn kind_of(&self) -> u64;

    /// Tells the kind of event this value is.
    fn kind(&self) -> (k: u64)
        ensures
            k == self.kind_of(),
    ;
}

/// An event: its kind and its payload.
pub struct Event<E> {
    kind: u64,
    payload: E,
}

impl<E> View for Event<E> {
    type V = (u64, E);

    closed spec fn view(&self) -> (u64, E) {
        (self.kind, self.payload)
    }
}

impl<E> Event<E> {
    /// Wraps a payload, tagged with the kind it reports.
    pub fn new(event: E) -> (r: Self)
        where
            E: EventTrait,
        ensures
            r@ == (event.kind_of(), event),
    {
        let kind = event.kind();
        Event { kind, payload: event }
    }

    /// Wraps a payload under the given kind.
    pub fn with_kind(kind: u64, event: E) -> (r: Self)
        ensures
            r@ == (kind, event),
    {
        Event { kind, payload: event }
    }

    /// The event's kind.
    pub fn kind(&self) -> (k: u64)
        ensures
            k == self@.0,
    {
        self.kind
    }

    /// The payload, if the event is of the given kind.
    pub fn unwrap(&self, kind: u64) -> (r: Option<&E>)
        ensures
            r == (if self@.0 == kind { Some(&self@.1) } else { None }),
    {
        if self.kind == kind {
            Some(&self.payload)
        } else {
            None
        }
    }

    /// Runs `f` on the payload if the event is of the given kind.
    pub fn apply<O, F: FnOnce(&E) -> O>(&self, kind: u64, f: F) -> (r: Option<O>)
        requires
            self@.0 == kind ==> call_requires(f, (&self@.1,)),
        ensures
            self@.0 != kind ==> r is None,
            self@.0 == kind ==> (r matches Some(o) && call_ensures(f, (&self@.1,), o)),
    {
        if self.kind == kind {
            Some(f(&self.payload))
        } else {
            None
        }
    }
}

/// Code that reacts to an event, given the world and the event queue.
pub trait EventHandler<V, E>: Sized {
    /// Whether handling `event` turns the world and queue `before` into
    /// `after`; a handler that does not say may change them in any way.
    open spec fn handled(
        &self,
        event: (u64, E),
        before: (crate::entity::EntitiesView<V>, EventsView<E>),
        after: (crate::entity::EntitiesView<V>, EventsView<E>),
    ) -> bool {
        true
    }

    fn handle(&self, event: &Event<E>, world: &mut Entities<V>, events: &mut Events<E>)
        ensures
            self.handled(event@, (old(world)@, old(events)@), (final(world)@, final(events)@)),
    ;
}

/// The handlers in `hs` registered for `kind`, in registration order.
pub open spec fn handlers_for<H>(hs: Seq<(u64, H)>, kind: u64) -> Seq<H>
    decreases hs.len(),
{
    if hs.len() == 0 {
        Seq::empty()
    } else {
        let prev = handlers_for(hs.drop_last(), kind);
        if hs.last().0 == kind {
            prev.push(hs.last().1)
        } else {
            prev
        }
    }
}

/// `states` lists the world and queue before each of `hs` handles `event`
/// and after the last.
pub open spec fn handler_steps<V, E, H: EventHandler<V, E>>(
    hs: Seq<H>,
    event: (u64, E),
    states: Seq<(crate::entity::EntitiesView<V>, EventsView<E>)>,
) -> bool {
    &&& states.len() == hs.len() + 1
    &&& forall|j: int| 0 <= j < hs.len() ==> hs[j].handled(event, states[j], #[trigger] states[j + 1])
}

/// Running `hs` in order on `event` turns the world and queue `before` into `after`.
pub open spec fn handled_by<V, E, H: EventHandler<V, E>>(
    hs: Seq<H>,
    event: (u64, E),
    before: (crate::entity::EntitiesView<V>, EventsView<E>),
    after: (crate::entity::EntitiesView<V>, EventsView<E>),
) -> bool {
    exists|states: Seq<(crate::entity::EntitiesView<V>, EventsView<E>)>|
        #[trigger] handler_steps(hs, event, states) && states[0] == before && states.last() == after
}

/// Handlers, each registered for one kind of event.
pub struct Dispatcher<H> {
    handlers: Vec<(u64, H)>,
}

impl<H> View for Dispatcher<H> {
    type V = Seq<(u64, H)>;

    closed spec fn view(&self) -> Seq<(u64, H)> {
        self.handlers@
    }
}

/// Whether some handler in `hs` is registered for `kind`.
pub open spec fn handles<H>(hs: Seq<(u64, H)>, kind: u64) -> bool {
    exists|i: int| 0 <= i < hs.len() && #[trigger] hs[i].0 == kind
}

impl<H> Dispatcher<H> {
    /// A dispatcher with no handlers.
    pub fn new() -> (d: Self)
        ensures
            d@ == Seq::<(u64, H)>::empty(),
    {
        Dispatcher { handlers: Vec::new() }
    }

    /// Registers a handler for the given kind; handlers of one kind run in
    /// the order they were registered.
    pub fn register(&mut self, kind: u64, handler: H)
        ensures
            final(self)@ == old(self)@.push((kind, handler)),
    {
        self.handlers.push((kind, handler));
    }

    /// Runs every handler registered for the event's kind, in registration
    /// order. An event that no handler is registered for changes nothing.
    pub fn dispatch<V, E>(&self, event: &Event<E>, world: &mut Entities<V>, events: &mut Events<E>)
        where
            H: EventHandler<V, E>,
        ensures
            handled_by(handlers_for(self@, event@.0), event@, (old(world)@, old(events)@), (final(world)@, final(events)@)),
            !handles(self@, event@.0) ==> final(world)@ == old(world)@ && final(events)@ == old(events)@,
    {
        let ghost hs = self@;
        let ghost kind = event@.0;
        let ghost mut states: Seq<(crate::entity::EntitiesView<V>, EventsView<E>)> = seq![(world@, events@)];
        let n = self.handlers.len();
        let mut i: usize = 0;
        while i < n
            invariant
                n == hs.len(),
                hs == self@,
                kind == event@.0,
                i <= n,
                handler_steps(handlers_for(hs.take(i as int), kind), event@, states),
                states[0] == (old(world)@, old(events)@),
                states.last() == (world@, events@),
                !handles(hs, kind) ==> world@ == old(world)@ && events@ == old(events)@,
            decreases n - i,
        {
            proof {
                assert(hs.take(i + 1).drop_last() =~= hs.take(i as int));
                assert(hs.take(i + 1).last() == hs[i as int]);
            }
            let ghost before = handlers_for(hs.take(i as int), kind);
            if self.handlers[i].0 == event.kind {
                assert(handles(hs, kind));
                let ghost prev = (world@, events@);
                self.handlers[i].1.handle(event, world, events);
                proof {
                    let h = hs[i as int].1;
                    let now = (world@, events@);
                    let hs2 = before.push(h);
                    let next = states.push(now);
                    assert(handlers_for(hs.take(i + 1), kind) == hs2);
                    assert forall|j: int| 0 <= j < hs2.len() implies hs2[j].handled(event@, next[j], #[trigger] next[j + 1]) by {
                        if j < before.len() {
                            assert(next[j] == states[j] && hs2[j] == before[j] && next[j + 1] == states[j + 1]);
                        } else {
                            assert(next[j] == prev && hs2[j] == h && next[j + 1] == now);
                        }
                    }
                    states = next;
                }
            } else {
                assert(handlers_for(hs.take(i + 1), kind) == before);
            }
            i = i + 1;
        }
        assert(hs.take(n as int) =~= hs);
    }
}

/// The abstract state of an event queue.
pub ghost struct EventsView<E> {
    /// The current time, in nanoseconds since the queue was made.
    pub now: u64,
    /// Events waiting to be handled, oldest first, as (kind, payload).
    pub queue: Seq<(u64, E)>,
    /// Events that fall due later, as (due time, (kind, payload)), earliest first.
    pub scheduled: Seq<(u64, (u64, E))>,
}

/// The events of a schedule, without their times.
pub open spec fn untimed<E>(s: Seq<(u64, (u64, E))>) -> Seq<(u64, E)> {
    s.map_values(|x: (u64, (u64, E))| x.1)
}

/// What letting time pass does to an event queue: time moves on to
/// `after.now`; the scheduled events due strictly before it move, earliest
/// first, to the back of the queue; the rest stay scheduled, in order, none
/// of them due before the new time.
pub open spec fn elapsed<E>(before: EventsView<E>, after: EventsView<E>) -> bool {
    let k = due_count(before.scheduled, after.now) as int;
    &&& before.now <= after.now
    &&& after.queue == before.queue + untimed(before.scheduled.take(k))
    &&& after.scheduled == before.scheduled.skip(k)
    &&& sorted_by_time(after.scheduled)
    &&& forall|j: int| 0 <= j < after.scheduled.len() ==> #[trigger] after.scheduled[j].0 >= after.now
}

/// The event queue of a game.
pub struct Events<E> {
    events: VecDeque<Event<E>>,
    current_time: u64,
    scheduled: Schedule<Event<E>>,
}

impl<E> View for Events<E> {
    type V = EventsView<E>;

    closed spec fn view(&self) -> EventsView<E> {
        EventsView {
            now: self.current_time,
            queue: self.events@.map_values(|e: Event<E>| e@),
            scheduled: self.scheduled@.map_values(|x: (u64, Event<E>)| (x.0, x.1@)),
        }
    }
}

impl<E> Events<E> {
    #[verifier::type_invariant]
    closed spec fn well_formed(&self) -> bool {
        sorted_by_time(self.scheduled@)
    }

    /// The schedule of the view is in time order when the stored one is.
    proof fn lemma_view_sorted(&self)
        requires
            sorted_by_time(self.scheduled@),
        ensures
            sorted_by_time(self@.scheduled),
    {
        assert forall|i: int, j: int| 0 <= i <= j < self@.scheduled.len() implies self@.scheduled[i].0 <= self@.scheduled[j].0 by {
            assert(self@.scheduled[i].0 == self.scheduled@[i].0);
            assert(self@.scheduled[j].0 == self.scheduled@[j].0);
        }
    }

    /// An empty queue at time zero.
    pub fn new() -> (s: Self)
        ensures
            s@.now == 0,
            s@.queue == Seq::<(u64, E)>::empty(),
            s@.scheduled == Seq::<(u64, (u64, E))>::empty(),
            sorted_by_time(s@.scheduled),
    {
        let s = Events { events: VecDeque::new(), current_time: 0, scheduled: Schedule::new() };
        assert(s@.queue =~= Seq::<(u64, E)>::empty());
        assert(s@.scheduled =~= Seq::<(u64, (u64, E))>::empty());
        s
    }

    /// Puts an event at the back of the queue.
    pub fn fire(&mut self, event: E)
        where
            E: EventTrait,
        ensures
            final(self)@.now == old(self)@.now,
            final(self)@.scheduled == old(self)@.scheduled,
            final(self)@.queue == old(self)@.queue.push((event.kind_of(), event)),
            sorted_by_time(final(self)@.scheduled),
    {
        let e = Event::new(event);
        self.push_event(e);
    }

    /// Puts an already wrapped event at the back of the queue.
    pub fn push_event(&mut self, event: Event<E>)
        ensures
            final(self)@.now == old(self)@.now,
            final(self)@.scheduled == old(self)@.scheduled,
            final(self)@.queue == old(self)@.queue.push(event@),
            sorted_by_time(final(self)@.scheduled),
    {
        proof {
            use_type_invariant(&*self);
        }
        let mut q: VecDeque<Event<E>> = VecDeque::new();
        std::mem::swap(&mut q, &mut self.events);
        q.push_back(event);
        self.events = q;
        assert(self@.queue =~= old(self)@.queue.push(event@));
        proof {
            use_type_invariant(&*self);
            self.lemma_view_sorted();
        }
    }

    /// The current time, in nanoseconds since the queue was made.
    pub fn now(&self) -> (t: u64)
        ensures
            t == self@.now,
    {
        self.current_time
    }

    /// Schedules an event to fall due `delay` nanoseconds from now.
    pub fn schedule(&mut self, delay: u64, event: E)
        where
            E: EventTrait,
        requires
            old(self)@.now + delay <= u64::MAX,
        ensures
            final(self)@.now == old(self)@.now,
            final(self)@.queue == old(self)@.queue,
            placed(old(self)@.scheduled, final(self)@.scheduled, (old(self)@.now + delay) as u64, (event.kind_of(), event)),
            sorted_by_time(final(self)@.scheduled),
    {
        let e = Event::new(event);
        self.schedule_event(delay, e);
    }

    /// Schedules an already wrapped event to fall due `delay` nanoseconds from now.
    pub fn schedule_event(&mut self, delay: u64, event: Event<E>)
        requires
            old(self)@.now + delay <= u64::MAX,
        ensures
            final(self)@.now == old(self)@.now,
            final(self)@.queue == old(self)@.queue,
            placed(old(self)@.scheduled, final(self)@.scheduled, (old(self)@.now + delay) as u64, event@),
            sorted_by_time(final(self)@.scheduled),
    {
        proof {
            use_type_invariant(&*self);
        }
        let at = self.current_time + delay;
        let mut s: Schedule<Event<E>> = Schedule::new();
        std::mem::swap(&mut s, &mut self.scheduled);
        let ghost before = s@;
        s.push(at, event);
        let ghost after = s@;
        self.scheduled = s;
        proof {
            let vb = before.map_values(|x: (u64, Event<E>)| (x.0, x.1@));
            let va = after.map_values(|x: (u64, Event<E>)| (x.0, x.1@));
            let p = choose|p: int|
                0 <= p <= before.len() && after == before.insert(p, (at, event)) && (forall|j: int|
                    0 <= j < p ==> #[trigger] before[j].0 <= at) && (forall|j: int|
                    p <= j < before.len() ==> #[trigger] before[j].0 > at);
            assert(va =~= vb.insert(p, (at, event@)));
            assert(forall|j: int| 0 <= j < p ==> #[trigger] vb[j].0 <= at);
            assert forall|j: int| p <= j < vb.len() implies #[trigger] vb[j].0 > at by {
                assert(vb[j].0 == before[j].0);
            }
            assert(placed(vb, va, at, event@));
        }
    }

    /// Forgets every scheduled event; the queue is left as it is.
    pub fn clear_schedule(&mut self)
        ensures
            final(self)@.now == old(self)@.now,
            final(self)@.queue == old(self)@.queue,
            final(self)@.scheduled == Seq::<(u64, (u64, E))>::empty(),
            sorted_by_time(final(self)@.scheduled),
    {
        self.scheduled = Schedule::new();
        assert(self@.scheduled =~= Seq::<(u64, (u64, E))>::empty());
    }

    /// Whether the earliest scheduled event falls due strictly before now.
    fn has_pending_events(&self) -> (r: bool)
        ensures
            r == (self@.scheduled.len() > 0 && self@.scheduled[0].0 < self@.now),
    {
        match self.scheduled.next_due() {
            Some(at) => at < self.current_time,
            None => false,
        }
    }

    /// Lets `dt` nanoseconds pass, then moves every scheduled event due
    /// strictly before the new time to the back of the queue, earliest first.
    pub fn elapse(&mut self, dt: u64)
        requires
            old(self)@.now + dt <= u64::MAX,
        ensures
            final(self)@.now == old(self)@.now + dt,
            ({
                let k = due_count(old(self)@.scheduled, final(self)@.now) as int;
                &&& final(self)@.queue == old(self)@.queue + untimed(old(self)@.scheduled.take(k))
                &&& final(self)@.scheduled == old(self)@.scheduled.skip(k)
            }),
            forall|j: int| 0 <= j < final(self)@.scheduled.len() ==> #[trigger] final(self)@.scheduled[j].0 >= final(self)@.now,
            sorted_by_time(final(self)@.scheduled),
            elapsed(old(self)@, final(self)@),
    {
        proof {
            use_type_invariant(&*self);
        }
        self.current_time = self.current_time + dt;
        let ghost now = self@.now;
        let ghost olds = old(self)@.scheduled;
        let ghost oldq = old(self)@.queue;
        proof {
            assert(sorted_by_time(olds)) by {
                assert forall|i: int, j: int| 0 <= i <= j < olds.len() implies olds[i].0 <= olds[j].0 by {
                    assert(olds[i].0 == self.scheduled@[i].0);
                    assert(olds[j].0 == self.scheduled@[j].0);
                }
            }
            lemma_due_count(olds, now);
        }
        let ghost k = due_count(olds, now) as int;
        let ghost mut moved: int = 0;
        while self.has_pending_events()
            invariant
                self@.now == now,
                sorted_by_time(self.scheduled@),
                0 <= moved <= k,
                k <= olds.len(),
                k == due_count(olds, now),
                forall|j: int| 0 <= j < k ==> #[trigger] olds[j].0 < now,
                forall|j: int| k <= j < olds.len() ==> #[trigger] olds[j].0 >= now,
                self@.scheduled == olds.skip(moved),
                self@.queue == oldq + untimed(olds.take(moved)),
            decreases self@.scheduled.len(),
        {
            proof {
                assert(self@.scheduled[0] == olds[moved]);
            }
            let ghost sv = self@.scheduled;
            let ghost qv = self@.queue;
            let mut s: Schedule<Event<E>> = Schedule::new();
            std::mem::swap(&mut s, &mut self.scheduled);
            let ghost raw = s@;
            let popped = s.pop();
            self.scheduled = s;
            proof {
                assert(self@.scheduled =~= sv.drop_first()) by {
                    assert(self.scheduled@ == raw.drop_first());
                }
                assert(sv.drop_first() =~= olds.skip(moved + 1));
            }
            match popped {
                Some((_, event)) => {
                    let mut q: VecDeque<Event<E>> = VecDeque::new();
                    std::mem::swap(&mut q, &mut self.events);
                    q.push_back(event);
                    self.events = q;
                    proof {
                        assert(event@ == sv[0].1);
                        assert(self@.queue =~= qv.push(event@));
                        assert(self@.scheduled =~= olds.skip(moved + 1));
                        assert(untimed(olds.take(moved + 1)) =~= untimed(olds.take(moved)).push(olds[moved].1));
                        assert(self@.queue =~= oldq + untimed(olds.take(moved + 1)));
                    }
                    proof {
                        moved = moved + 1;
                    }
                },
                None => {},
            }
        }
        proof {
            if moved < k {
                assert(self@.scheduled[0] == olds[moved]);
            }
            assert(moved == k);
            assert forall|j: int| 0 <= j < self@.scheduled.len() implies #[trigger] self@.scheduled[j].0 >= now by {
                assert(self@.scheduled[j] == olds[j + k]);
            }
        }
    }

    /// Takes the oldest event off the queue.
    pub fn pop(&mut self) -> (r: Option<Event<E>>)
        ensures
            final(self)@.now == old(self)@.now,
            final(self)@.scheduled == old(self)@.scheduled,
            old(self)@.queue.len() == 0 ==> r is None && final(self)@.queue == old(self)@.queue,
            old(self)@.queue.len() > 0 ==> (r matches Some(e) && e@ == old(self)@.queue[0]
                && final(self)@.queue == old(self)@.queue.drop_first()),
            sorted_by_time(final(self)@.scheduled),
    {
        proof {
            use_type_invariant(&*self);
        }
        let mut q: VecDeque<Event<E>> = VecDeque::new();
        std::mem::swap(&mut q, &mut self.events);
        let r = q.pop_front();
        self.events = q;
        proof {
            if old(self)@.queue.len() > 0 {
                assert(self@.queue =~= old(self)@.queue.drop_first());
            } else {
                assert(self@.queue =~= old(self)@.queue);
            }
            use_type_invariant(&*self);
            self.lemma_view_sorted();
        }
        r
    }

    /// The number of events waiting in the queue.
    pub fn len(&self) -> (n: usize)
        ensures
            n == self@.queue.len(),
    {
        self.events.len()
    }

    /// Hands queued events, oldest first, to the dispatcher until the queue
    /// is empty; events that handlers fire meanwhile are handled in turn.
    /// Each step takes the head of the queue off and runs the handlers
    /// registered for its kind on it. Returns whether the queue was left
    /// empty, which it is unless `u64::MAX` events were handled in this one
    /// call.
    pub fn dispatch<V, H: EventHandler<V, E>>(&mut self, dispatcher: &Dispatcher<H>, world: &mut Entities<V>) -> (drained: bool)
        ensures
            drained == (final(self)@.queue.len() == 0),
            exists|states: Seq<(crate::entity::EntitiesView<V>, EventsView<E>)>| #![trigger dispatch_steps(dispatcher@, states)]
                {
                    &&& dispatch_steps(dispatcher@, states)
                    &&& states[0] == (old(world)@, old(self)@)
                    &&& states.last() == (final(world)@, final(self)@)
                    &&& (final(self)@.queue.len() == 0 || states.len() - 1 == u64::MAX)
                },
            old(self)@.queue.len() == 0 ==> drained && final(self)@ == old(self)@ && final(world)@ == old(world)@,
            sorted_by_time(final(self)@.scheduled),
    {
        let ghost mut states: Seq<(crate::entity::EntitiesView<V>, EventsView<E>)> = seq![(world@, self@)];
        let mut budget: u64 = u64::MAX;
        while budget > 0 && self.len() > 0
            invariant
                old(self)@.queue.len() == 0 ==> self@ == old(self)@ && world@ == old(world)@,
                dispatch_steps(dispatcher@, states),
                states.len() >= 1,
                states[0] == (old(world)@, old(self)@),
                states.last() == (world@, self@),
                states.len() - 1 == u64::MAX - budget,
            decreases budget,
        {
            let ghost prev = (world@, self@);
            match self.pop() {
                Some(event) => {
                    let ghost popped = (world@, self@);
                    proof {
                        assert(popped.1 == EventsView { queue: prev.1.queue.drop_first(), ..prev.1 });
                        assert(event@ == prev.1.queue[0]);
                    }
                    dispatcher.dispatch(&event, world, self);
                    proof {
                        let next = states.push((world@, self@));
                        assert(dispatch_step(dispatcher@, prev, (world@, self@)));
                        assert forall|j: int| 0 <= j < next.len() - 1 implies dispatch_step(dispatcher@, next[j], #[trigger] next[j + 1]) by {
                            if j < states.len() - 1 {
                                assert(next[j] == states[j] && next[j + 1] == states[j + 1]);
                            } else {
                                assert(next[j] == prev && next[j + 1] == (world@, self@));
                            }
                        }
                        states = next;
                    }
                },
                None => {
                    assert(false);
                },
            }
            budget = budget - 1;
        }
        proof {
            use_type_invariant(&*self);
            self.lemma_view_sorted();
        }
        self.len() == 0
    }
}

/// One step of dispatching, from `before` to `after`: the head of the
/// queue is taken off, then the handlers registered for its kind run on it.
pub open spec fn dispatch_step<V, E, H: EventHandler<V, E>>(
    hs: Seq<(u64, H)>,
    before: (crate::entity::EntitiesView<V>, EventsView<E>),
    after: (crate::entity::EntitiesView<V>, EventsView<E>),
) -> bool {
    let head = before.1.queue[0];
    &&& before.1.queue.len() > 0
    &&& handled_by(handlers_for(hs, head.0), head, (before.0, EventsView { queue: before.1.queue.drop_first(), ..before.1 }), after)
}

/// `states` lists the world and queue before each step of dispatching and after the last.
pub open spec fn dispatch_steps<V, E, H: EventHandler<V, E>>(
    hs: Seq<(u64, H)>,
    states: Seq<(crate::entity::EntitiesView<V>, EventsView<E>)>,
) -> bool {
    forall|j: int| 0 <= j < states.len() - 1 ==> dispatch_step(hs, states[j], #[trigger] states[j + 1])
}

/// Law: letting time pass releases scheduled events earliest first. In a
/// schedule in time order, as every call keeps it, the events that `elapse`
/// moves to the queue are in time order and all due before the new time,
/// and those that stay are all due at it or later, still in order.
pub proof fn law_elapse_releases_in_time_order<E>(scheduled: Seq<(u64, (u64, E))>, now: u64)
    requires
        sorted_by_time(scheduled),
    ensures
        ({
            let k = due_count(scheduled, now) as int;
            &&& sorted_by_time(scheduled.take(k))
            &&& forall|j: int| 0 <= j < k ==> #[trigger] scheduled.take(k)[j].0 < now
            &&& sorted_by_time(scheduled.skip(k))
            &&& forall|j: int| 0 <= j < scheduled.skip(k).len() ==> #[trigger] scheduled.skip(k)[j].0 >= now
        }),
{
    lemma_due_count(scheduled, now);
    let k = due_count(scheduled, now) as int;
    let released = scheduled.take(k);
    let kept = scheduled.skip(k);
    assert forall|i: int, j: int| 0 <= i <= j < released.len() implies released[i].0 <= released[j].0 by {
        assert(released[i] == scheduled[i] && released[j] == scheduled[j]);
    }
    assert forall|j: int| 0 <= j < k implies #[trigger] released[j].0 < now by {
        assert(released[j] == scheduled[j]);
    }
    assert forall|i: int, j: int| 0 <= i <= j < kept.len() implies kept[i].0 <= kept[j].0 by {
        assert(kept[i] == scheduled[i + k] && kept[j] == scheduled[j + k]);
    }
    assert forall|j: int| 0 <= j < kept.len() implies #[trigger] kept[j].0 >= now by {
        assert(kept[j] == scheduled[j + k]);
    }
}

/// Law: an event scheduled to fall due at `at` is released by letting time
/// pass to `now` exactly when `at` is before `now`: scheduling it places it
/// in the schedule, and elapsing moves it across with the events due before
/// `now`, and only then.
pub proof fn law_scheduled_event_falls_due_after_its_delay<T>(
    before: Seq<(u64, T)>,
    after: Seq<(u64, T)>,
    at: u64,
    item: T,
    now: u64,
)
    requires
        sorted_by_time(before),
        placed(before, after, at, item),
    ensures
        sorted_by_time(after),
        exists|p: int|
            0 <= p < after.len() && #[trigger] after[p] == (at, item) && (p < due_count(after, now) <==> at < now),
{
    let p = choose|p: int|
        0 <= p <= before.len() && after == before.insert(p, (at, item)) && (forall|j: int|
            0 <= j < p ==> #[trigger] before[j].0 <= at) && (forall|j: int|
            p <= j < before.len() ==> #[trigger] before[j].0 > at);
    assert forall|i: int, j: int| 0 <= i <= j < after.len() implies after[i].0 <= after[j].0 by {
        if i < p {
            assert(after[i] == before[i]);
        } else if i > p {
            assert(after[i] == before[i - 1]);
        }
        if j < p {
            assert(after[j] == before[j]);
        } else if j > p {
            assert(after[j] == before[j - 1]);
        }
    }
    lemma_due_count(after, now);
    assert(after[p] == (at, item));
    if at < now {
        if p >= due_count(after, now) {
            assert(after[p].0 >= now);
        }
    }
}

/// Law: letting time pass never loses or duplicates an event. The queue
/// followed by the schedule holds the same events, in the same order,
/// before and after `elapse` moves the due ones across.
pub proof fn law_elapse_keeps_every_event<E>(queue: Seq<(u64, E)>, scheduled: Seq<(u64, (u64, E))>, now: u64)
    ensures
        ({
            let k = due_count(scheduled, now) as int;
            (queue + untimed(scheduled.take(k))) + untimed(scheduled.skip(k)) == queue + untimed(scheduled)
        }),
{
    let k = due_count(scheduled, now) as int;
    lemma_due_count_le(scheduled, now);
    assert(scheduled.take(k) + scheduled.skip(k) =~= scheduled);
    assert(untimed(scheduled.take(k)) + untimed(scheduled.skip(k)) =~= untimed(scheduled));
    assert((queue + untimed(scheduled.take(k))) + untimed(scheduled.skip(k)) =~= queue + untimed(scheduled));
}

/// An event scheduled at `at` is still scheduled at every step of a run of
/// elapses whose time has not passed `at`.
proof fn lemma_still_scheduled<E>(states: Seq<EventsView<E>>, at: u64, event: (u64, E), i: int)
    requires
        0 <= i < states.len(),
        sorted_by_time(states[0].scheduled),
        states[0].scheduled.contains((at, event)),
        forall|n: int| 0 < n < states.len() ==> #[trigger] elapsed(states[n - 1], states[n]),
        states[i].now <= at,
    ensures
        states[i].scheduled.contains((at, event)),
        sorted_by_time(states[i].scheduled),
    decreases i,
{
    if i > 0 {
        let before = states[i - 1];
        let after = states[i];
        assert(elapsed(before, after));
        lemma_still_scheduled(states, at, event, i - 1);
        lemma_due_count(before.scheduled, after.now);
        let k = due_count(before.scheduled, after.now) as int;
        let p = choose|p: int| 0 <= p < before.scheduled.len() && before.scheduled[p] == (at, event);
        assert(p >= k);
        assert(after.scheduled[p - k] == (at, event));
    }
}

/// Law: after an event is scheduled to fall due at `at`, a run of calls
/// that let time pass keeps it scheduled exactly while the time has not
/// passed `at`, and the call that carries the time past `at` appends it to
/// the queue. An event scheduled `delay` after `t` is thus released by the
/// first call that brings the total time passed strictly beyond `delay`,
/// and never earlier.
pub proof fn law_scheduled_event_waits_for_its_time<E>(states: Seq<EventsView<E>>, at: u64, event: (u64, E))
    requires
        states.len() > 0,
        sorted_by_time(states[0].scheduled),
        states[0].scheduled.contains((at, event)),
        states[0].now <= at,
        forall|n: int| 0 < n < states.len() ==> #[trigger] elapsed(states[n - 1], states[n]),
    ensures
        forall|i: int| 0 <= i < states.len() ==> (#[trigger] states[i].scheduled.contains((at, event)) <==> states[i].now <= at),
        forall|i: int|
            0 < i < states.len() && states[i - 1].now <= at < #[trigger] states[i].now ==> states[i].queue.skip(
                states[i - 1].queue.len() as int,
            ).contains(event),
{
    assert forall|i: int| 0 <= i < states.len() implies (#[trigger] states[i].scheduled.contains((at, event)) <==> states[i].now
        <= at) by {
        if states[i].now <= at {
            lemma_still_scheduled(states, at, event, i);
        } else if states[i].scheduled.contains((at, event)) {
            assert(i > 0);
            assert(elapsed(states[i - 1], states[i]));
            let p = choose|p: int| 0 <= p < states[i].scheduled.len() && states[i].scheduled[p] == (at, event);
            assert(states[i].scheduled[p].0 >= states[i].now);
        }
    }
    assert forall|i: int|
        0 < i < states.len() && states[i - 1].now <= at < #[trigger] states[i].now implies states[i].queue.skip(
            states[i - 1].queue.len() as int,
        ).contains(event) by {
        let before = states[i - 1];
        let after = states[i];
        assert(elapsed(before, after));
        lemma_still_scheduled(states, at, event, i - 1);
        lemma_due_count(before.scheduled, after.now);
        let k = due_count(before.scheduled, after.now) as int;
        let p = choose|p: int| 0 <= p < before.scheduled.len() && before.scheduled[p] == (at, event);
        assert(p < k);
        let released = untimed(before.scheduled.take(k));
        assert(after.queue.skip(before.queue.len() as int) =~= released);
        assert(released[p] == event);
    }
}

/// `due_count` never exceeds the length.
proof fn lemma_due_count_le<T>(s: Seq<(u64, T)>, now: u64)
    ensures
        due_count(s, now) <= s.len(),
    decreases s.len(),
{
    if s.len() > 0 && s[0].0 < now {
        lemma_due_count_le(s.drop_first(), now);
    }
}

/// Law: letting time pass in two steps, first to `t1` and then to `t2`,
/// moves the same events to the queue, in the same order, and leaves the
/// same schedule, as letting it pass to `t2` at once.
pub proof fn law_elapse_in_two_steps<E>(queue: Seq<(u64, E)>, scheduled: Seq<(u64, (u64, E))>, t1: u64, t2: u64)
    requires
        sorted_by_time(scheduled),
        t1 <= t2,
    ensures
        ({
            let k1 = due_count(scheduled, t1) as int;
            let rest = scheduled.skip(k1);
            let k2 = due_count(rest, t2) as int;
            let k = due_count(scheduled, t2) as int;
            &&& (queue + untimed(scheduled.take(k1))) + untimed(rest.take(k2)) == queue + untimed(scheduled.take(k))
            &&& rest.skip(k2) == scheduled.skip(k)
        }),
{
    let s = scheduled;
    lemma_due_count(s, t1);
    lemma_due_count(s, t2);
    let k1 = due_count(s, t1) as int;
    let k = due_count(s, t2) as int;
    assert(k1 <= k) by {
        if k1 > k {
            assert(s[k].0 < t1);
            assert(s[k].0 >= t2);
        }
    }
    let rest = s.skip(k1);
    lemma_skip_sorted(s, k1);
    assert forall|j: int| 0 <= j < k - k1 implies #[trigger] rest[j].0 < t2 by {
        assert(rest[j] == s[j + k1]);
    }
    assert forall|j: int| k - k1 <= j < rest.len() implies #[trigger] rest[j].0 >= t2 by {
        assert(rest[j] == s[j + k1]);
    }
    lemma_due_count_unique(rest, t2, k - k1);
    let k2 = k - k1;
    assert(s.take(k1) + rest.take(k2) =~= s.take(k));
    assert(untimed(s.take(k1)) + untimed(rest.take(k2)) =~= untimed(s.take(k)));
    assert((queue + untimed(s.take(k1))) + untimed(rest.take(k2)) =~= queue + untimed(s.take(k)));
    assert(rest.skip(k2) =~= s.skip(k));
}

/// Law: the event fired into an empty queue is the next one popped, and
/// popping it empties the queue again; in general events leave the queue in
/// the order they were fired.
pub proof fn law_first_in_first_out<E>(queue: Seq<(u64, E)>, first: (u64, E), second: (u64, E))
    ensures
        queue.len() == 0 ==> queue.push(first)[0] == first && queue.push(first).drop_first() == queue,
        queue.push(first).push(second).skip(queue.len() as int) == seq![first, second],
{
    assert(queue.push(first).push(second).skip(queue.len() as int) =~= seq![first, second]);
    if queue.len() == 0 {
        assert(queue.push(first).drop_first() =~= queue);
    }
}


/// Law: the handlers that run on an event of a kind are the ones
/// registered for that kind, in the order they were registered. Before any
/// registration none run; registering a handler for the kind adds it after
/// all earlier ones; registering one for another kind changes nothing; and
/// the handlers of two runs of registrations, one after the other, are
/// those of the first run followed by those of the second.
pub proof fn law_handlers_run_in_registration_order<H>(
    hs: Seq<(u64, H)>,
    more: Seq<(u64, H)>,
    kind: u64,
    other: u64,
    h: H,
)
    requires
        other != kind,
    ensures
        handlers_for(Seq::<(u64, H)>::empty(), kind) == Seq::<H>::empty(),
        handlers_for(hs.push((kind, h)), kind) == handlers_for(hs, kind).push(h),
        handlers_for(hs.push((other, h)), kind) == handlers_for(hs, kind),
        handlers_for(hs + more, kind) == handlers_for(hs, kind) + handlers_for(more, kind),
    decreases more.len(),
{
    assert(hs.push((kind, h)).drop_last() =~= hs);
    assert(hs.push((other, h)).drop_last() =~= hs);
    if more.len() == 0 {
        assert(hs + more =~= hs);
        assert(handlers_for(hs, kind) + handlers_for(more, kind) =~= handlers_for(hs, kind));
    } else {
        law_handlers_run_in_registration_order(hs, more.drop_last(), kind, other, h);
        assert((hs + more).drop_last() =~= hs + more.drop_last());
        assert((hs + more).last() == more.last());
        let a = handlers_for(hs, kind);
        let b = handlers_for(more.drop_last(), kind);
        if more.last().0 == kind {
            assert(a + b.push(more.last().1) =~= (a + b).push(more.last().1));
        }
    }
}

} // verus!
