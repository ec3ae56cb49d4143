use pandamonium::audio::{partial_reversed, reversed, CueQueue, NoiseClock};
use rand::rngs::SmallRng;
use rand::SeedableRng;
use std::cmp::Ordering;

#[test]
fn should_iterate_over_cues_in_increasing_time_order() {
    let mut queue = CueQueue::new();

    queue.cue(1, 0, 1u64);
    queue.cue(2, 0, 2u64);
    queue.cue(3, 0, 3u64);
    queue.cue(4, 0, 4u64);

    assert_eq!(queue.due(u64::MAX), Some((0, 1)));
    assert_eq!(queue.due(u64::MAX), Some((0, 2)));
    assert_eq!(queue.due(u64::MAX), Some((0, 3)));
    assert_eq!(queue.due(u64::MAX), Some((0, 4)));
    assert_eq!(queue.due(u64::MAX), None);
}

#[test]
fn cues_cued_out_of_order_come_out_in_time_order() {
    let mut queue = CueQueue::new();

    queue.cue(3, 0, "c");
    queue.cue(1, 0, "a");
    queue.cue(4, 0, "d");
    queue.cue(2, 0, "b");

    assert_eq!(queue.due(u64::MAX), Some((0, "a")));
    assert_eq!(queue.due(u64::MAX), Some((0, "b")));
    assert_eq!(queue.due(u64::MAX), Some((0, "c")));
    assert_eq!(queue.due(u64::MAX), Some((0, "d")));
    assert_eq!(queue.due(u64::MAX), None);
}

#[test]
fn cues_wait_until_their_sample() {
    let mut queue = CueQueue::new();
    queue.cue(100, 2, 'x');
    queue.cue(100, 1, 'y');
    assert_eq!(queue.due(99), None);
    assert_eq!(queue.due(100), Some((2, 'x')));
    assert_eq!(queue.due(100), Some((1, 'y')));
    assert_eq!(0, queue.len());
}

#[test]
fn clearing_drops_every_cue() {
    let mut queue = CueQueue::new();
    queue.cue(1, 0, ());
    queue.cue(2, 0, ());
    queue.clear();
    assert_eq!(queue.due(u64::MAX), None);
}

#[test]
fn reversed_compares_backwards() {
    assert_eq!(Ordering::Greater, reversed(&1, &2));
    assert_eq!(Ordering::Less, reversed(&2, &1));
    assert_eq!(Ordering::Equal, reversed(&5, &5));
    assert_eq!(Some(Ordering::Greater), partial_reversed(&1u64, &2u64));
}

#[test]
fn noise_flips_after_waits_drawn_from_its_range() {
    let mut rng = SmallRng::seed_from_u64(7);
    let mut clock = NoiseClock::new(3, 5);
    assert!(!clock.up());
    clock.next_cycle(&mut rng);
    assert!(clock.up());
    assert_eq!(1, clock.cycle());
    let mut waited = 0;
    while clock.up() {
        clock.next_cycle(&mut rng);
        waited += 1;
    }
    assert!((4..=5).contains(&waited), "waited {waited} samples");
    for _ in 0..100 {
        let before = clock.up();
        let mut samples = 0;
        while clock.up() == before {
            clock.next_cycle(&mut rng);
            samples += 1;
        }
        assert!((4..=5).contains(&samples), "waited {samples} samples");
    }
}
