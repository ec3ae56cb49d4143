use pandamonium::entity::{entity, Entities};
use pandamonium::events::{Dispatcher, Event, EventHandler, EventTrait, Events};

const POINTS: u64 = 1;
const DOUBLE_POINTS: u64 = 2;
const NO_HANDLER: u64 = 3;

#[derive(Debug, Clone, PartialEq, Eq)]
enum Ev {
    Points(u32),
    DoublePoints(u32),
    NoHandler,
}

impl EventTrait for Ev {
    fn kind_of(&self) -> u64 {
        self.kind()
    }

    fn kind(&self) -> u64 {
        match self {
            Ev::Points(_) => POINTS,
            Ev::DoublePoints(_) => DOUBLE_POINTS,
            Ev::NoHandler => NO_HANDLER,
        }
    }
}

const SCORE: u64 = 10;
const EVENT_COUNT: u64 = 11;

#[derive(Debug, Clone, PartialEq, Eq)]
enum C {
    Score(u32),
    EventCount(u32),
}

type HandlerFn = fn(&Event<Ev>, &mut Entities<C>, &mut Events<Ev>);

struct Handler(HandlerFn);

impl EventHandler<C, Ev> for Handler {
    fn handle(&self, event: &Event<Ev>, world: &mut Entities<C>, events: &mut Events<Ev>) {
        (self.0)(event, world, events)
    }
}

fn add_points(event: &Event<Ev>, entities: &mut Entities<C>, _events: &mut Events<Ev>) {
    if let Some(Ev::Points(p)) = event.unwrap(POINTS) {
        let p = *p;
        entities.apply(SCORE, SCORE, move |s| match s {
            C::Score(s) => C::Score(p + s),
            other => other.clone(),
        });
    }
}

fn count_event(_event: &Event<Ev>, entities: &mut Entities<C>, _events: &mut Events<Ev>) {
    entities.apply(EVENT_COUNT, EVENT_COUNT, |c| match c {
        C::EventCount(c) => C::EventCount(c + 1),
        other => other.clone(),
    });
}

fn double_points(event: &Event<Ev>, entities: &mut Entities<C>, events: &mut Events<Ev>) {
    if let Some(Ev::DoublePoints(d)) = event.unwrap(DOUBLE_POINTS) {
        let d = *d;
        for _ in entities.collect(SCORE) {
            events.fire(Ev::Points(d));
        }
        entities.apply(SCORE, SCORE, move |s| match s {
            C::Score(s) => C::Score(s + d),
            other => other.clone(),
        });
    }
}

#[test]
fn handle_events_via_dispatcher() {
    let mut entities = Entities::new();
    let mut dispatcher = Dispatcher::new();
    let mut events = Events::new();

    dispatcher.register(POINTS, Handler(add_points));
    dispatcher.register(POINTS, Handler(count_event));

    dispatcher.register(DOUBLE_POINTS, Handler(double_points));
    dispatcher.register(DOUBLE_POINTS, Handler(count_event));

    entities.spawn(entity().with(SCORE, C::Score(0)).with(EVENT_COUNT, C::EventCount(0)));

    events.fire(Ev::Points(20));
    events.fire(Ev::DoublePoints(13));
    events.fire(Ev::NoHandler);

    events.dispatch(&dispatcher, &mut entities);

    assert_eq!(entities.collect(SCORE), vec!(C::Score(46)));
    assert_eq!(entities.collect(EVENT_COUNT), vec!(C::EventCount(3)));
}

#[test]
fn handle_events_via_application() {
    let mut total_score = 0;

    let event_1 = Event::new(Ev::Points(20));
    let event_2 = Event::new(Ev::DoublePoints(30));

    event_1.apply(POINTS, |e| if let Ev::Points(s) = e { total_score += s });
    assert_eq!(total_score, 20);

    event_2.apply(POINTS, |e| if let Ev::Points(s) = e { total_score += s });
    assert_eq!(total_score, 20);

    event_1.apply(DOUBLE_POINTS, |e| if let Ev::DoublePoints(s) = e { total_score += 2 * s });
    assert_eq!(total_score, 20);

    event_2.apply(DOUBLE_POINTS, |e| if let Ev::DoublePoints(s) = e { total_score += 2 * s });
    assert_eq!(total_score, 80);
}

#[test]
fn events_come_out_in_the_order_they_were_fired() {
    let mut events: Events<Ev> = Events::new();
    events.fire(Ev::Points(1));
    events.fire(Ev::Points(2));
    events.fire(Ev::NoHandler);
    assert_eq!(3, events.len());
    assert_eq!(Some(&Ev::Points(1)), events.pop().unwrap().unwrap(POINTS));
    assert_eq!(Some(&Ev::Points(2)), events.pop().unwrap().unwrap(POINTS));
    assert_eq!(NO_HANDLER, events.pop().unwrap().kind());
    assert!(events.pop().is_none());
}

#[test]
fn scheduled_events_fire_once_their_time_has_passed() {
    let mut events: Events<Ev> = Events::new();
    events.schedule(300, Ev::Points(3));
    events.schedule(100, Ev::Points(1));
    events.schedule(200, Ev::Points(2));
    events.elapse(100);
    // Due at 100, but only events due strictly before now move.
    assert_eq!(0, events.len());
    events.elapse(150);
    assert_eq!(2, events.len());
    assert_eq!(Some(&Ev::Points(1)), events.pop().unwrap().unwrap(POINTS));
    assert_eq!(Some(&Ev::Points(2)), events.pop().unwrap().unwrap(POINTS));
    events.elapse(1000);
    assert_eq!(Some(&Ev::Points(3)), events.pop().unwrap().unwrap(POINTS));
    assert!(events.pop().is_none());
}

#[test]
fn events_scheduled_for_the_same_time_keep_their_order() {
    let mut events: Events<Ev> = Events::new();
    events.schedule(50, Ev::Points(1));
    events.schedule(50, Ev::Points(2));
    events.schedule(50, Ev::NoHandler);
    events.elapse(51);
    assert_eq!(Some(&Ev::Points(1)), events.pop().unwrap().unwrap(POINTS));
    assert_eq!(Some(&Ev::Points(2)), events.pop().unwrap().unwrap(POINTS));
    assert_eq!(NO_HANDLER, events.pop().unwrap().kind());
}

#[test]
fn clearing_the_schedule_keeps_the_queue() {
    let mut events: Events<Ev> = Events::new();
    events.fire(Ev::Points(1));
    events.schedule(10, Ev::Points(2));
    events.clear_schedule();
    events.elapse(100);
    assert_eq!(1, events.len());
    assert_eq!(Some(&Ev::Points(1)), events.pop().unwrap().unwrap(POINTS));
}

#[test]
fn dispatching_an_empty_queue_changes_nothing() {
    let mut entities: Entities<C> = Entities::new();
    let dispatcher: Dispatcher<Handler> = Dispatcher::new();
    let mut events: Events<Ev> = Events::new();
    assert!(events.dispatch(&dispatcher, &mut entities));
    assert_eq!(0, entities.len());
}

#[test]
fn unwrap_and_apply_check_the_kind() {
    let event = Event::with_kind(7, 42u32);
    assert_eq!(7, event.kind());
    assert_eq!(Some(&42), event.unwrap(7));
    assert_eq!(None, event.unwrap(8));
    assert_eq!(Some(43), event.apply(7, |v| v + 1));
    assert_eq!(None, event.apply(8, |v| v + 1));
}

#[test]
fn a_scheduled_event_waits_until_its_delay_has_passed_in_total() {
    let mut events: Events<Ev> = Events::new();
    events.schedule(100, Ev::Points(7));
    events.elapse(60);
    assert_eq!(0, events.len());
    events.elapse(40);
    // Exactly the delay has passed: still waiting.
    assert_eq!(0, events.len());
    events.elapse(1);
    assert_eq!(1, events.len());
    assert_eq!(Some(&Ev::Points(7)), events.pop().unwrap().unwrap(POINTS));
    events.elapse(500);
    assert!(events.pop().is_none());
}
