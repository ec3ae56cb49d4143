use pandamonium::entity::{entity, Entities, Entity, Id, PairVisitor, Visitor};
use std::collections::HashSet;
use std::hash::Hash;

const COUNT: u64 = 1;
const SCORE: u64 = 2;
const NAME: u64 = 3;

#[derive(Debug, PartialEq, Eq, Clone, Hash)]
enum C {
    Count(u64),
    Score(u64),
    Name(&'static str),
}

fn set<T: Hash + Eq, const N: usize>(arr: [T; N]) -> HashSet<T> {
    HashSet::from(arr)
}

fn set_<T: Hash + Eq>(vec: Vec<T>) -> HashSet<T> {
    HashSet::from_iter(vec)
}

fn three_entities() -> Entities<C> {
    let mut entities = Entities::new();
    entities.spawn(entity().with(COUNT, C::Count(123)));
    entities.spawn(entity().with(COUNT, C::Count(456)).with(SCORE, C::Score(123)));
    entities.spawn(entity().with(SCORE, C::Score(456)));
    entities
}

#[test]
pub fn fetches_value_by_type() {
    let mut entity = Entity::new(1);
    entity.set(COUNT, C::Count(123));
    entity.set(NAME, C::Name("Hello"));

    assert_eq!(Some(&C::Count(123)), entity.get(COUNT));
    assert_eq!(Some(&C::Name("Hello")), entity.get(NAME));
}

#[test]
pub fn returns_empty_when_no_value_provided() {
    let mut entity = Entity::new(1);
    entity.set(SCORE, C::Score(123));
    let count: Option<&C> = entity.get(COUNT);
    assert_eq!(None, count)
}

#[test]
pub fn can_remove_values_from_entity() {
    let mut entity = Entity::new(1);
    entity.set(COUNT, C::Count(123));
    assert_eq!(Some(&C::Count(123)), entity.get(COUNT));
    entity.remove(COUNT);
    assert_eq!(None, entity.get(COUNT));
}

#[test]
pub fn can_spawn_entities() {
    let entities = three_entities();

    assert_eq!(set([C::Count(123), C::Count(456)]), set_(entities.collect(COUNT)));
    assert_eq!(set([C::Score(123), C::Score(456)]), set_(entities.collect(SCORE)));
}

#[test]
pub fn can_fold_entities() {
    let entities = three_entities();

    assert_eq!(
        C::Score(579),
        entities.fold(SCORE, C::Score(0), |acc, v| match (acc, v) {
            (C::Score(a), C::Score(b)) => C::Score(a + b),
            (acc, _) => acc,
        })
    );
}

#[test]
pub fn can_modify_entities() {
    let mut entities = three_entities();

    entities.apply(COUNT, COUNT, |v| match v {
        C::Count(c) => C::Count(c + 1),
        other => other.clone(),
    });

    assert_eq!(set([C::Count(124), C::Count(457)]), set_(entities.collect(COUNT)));
}

#[test]
pub fn can_modify_entities_with_multiple_args() {
    let mut entities = three_entities();

    entities.apply_2(COUNT, SCORE, COUNT, |count, score| match (count, score) {
        (C::Count(c), C::Score(s)) => C::Count(c + s),
        (other, _) => other.clone(),
    });

    assert_eq!(set([C::Count(123), C::Count(579)]), set_(entities.collect(COUNT)));
}

#[test]
pub fn can_modify_entities_with_arbitrary_complexity() {
    let mut entities = three_entities();

    entities.for_each_mut(|entity| {
        if let (Some(C::Count(c)), Some(C::Score(s))) = (entity.get(COUNT), entity.get(SCORE)) {
            let new_count = C::Count(c + s);
            let new_score = C::Score(c - s);
            vec![(COUNT, new_count), (SCORE, new_score)]
        } else {
            vec![]
        }
    });

    assert_eq!(set([C::Count(123), C::Count(579)]), set_(entities.collect(COUNT)));
    assert_eq!(set([C::Score(333), C::Score(456)]), set_(entities.collect(SCORE)));
}

#[test]
fn spawned_ids_count_up_from_zero() {
    let mut entities: Entities<C> = Entities::new();
    assert_eq!(0, entities.spawn(entity()));
    assert_eq!(1, entities.spawn(entity().with(COUNT, C::Count(1))));
    assert_eq!(2, entities.spawn(entity()));
    assert_eq!(3, entities.len());
    assert_eq!(Id(1), entities.get(1).unwrap().id());
}

#[test]
fn ids_are_not_reused_after_delete() {
    let mut entities: Entities<C> = Entities::new();
    let first = entities.spawn(entity().with(COUNT, C::Count(7)));
    let deleted = entities.delete(&first).unwrap();
    assert_eq!(Some(&C::Count(7)), deleted.get(COUNT));
    assert!(entities.get(first).is_none());
    let second = entities.spawn(entity());
    assert_eq!(1, second);
    assert!(entities.delete(&first).is_none());
}

#[test]
fn collect_is_in_id_order() {
    let mut entities: Entities<C> = Entities::new();
    for i in 0..5 {
        entities.spawn(entity().with(COUNT, C::Count(10 - i)));
    }
    entities.delete(&2);
    assert_eq!(vec![C::Count(10), C::Count(9), C::Count(7), C::Count(6)], entities.collect(COUNT));
    assert_eq!(vec![0, 1, 3, 4], entities.ids_with(COUNT));
}

#[test]
fn later_updates_win() {
    let mut entity = Entity::new(3);
    entity.set_all(vec![(COUNT, C::Count(1)), (SCORE, C::Score(2)), (COUNT, C::Count(3))]);
    assert_eq!(Some(&C::Count(3)), entity.get(COUNT));
    assert_eq!(Some(&C::Score(2)), entity.get(SCORE));
    assert!(entity.has(SCORE));
    assert!(!entity.has(NAME));
}

#[test]
fn apply_to_touches_only_that_entity() {
    let mut entities = three_entities();
    assert!(entities.apply_to(1, |_| vec![(NAME, C::Name("one"))]));
    assert!(!entities.apply_to(9, |_| vec![(NAME, C::Name("nine"))]));
    assert_eq!(vec![C::Name("one")], entities.collect(NAME));
    assert_eq!(vec![1], entities.ids_with(NAME));
}

struct Sum(u64);

impl Visitor<C> for Sum {
    fn visit(&mut self, value: &C) {
        if let C::Count(c) = value {
            self.0 += c;
        }
    }
}

struct Pairs(Vec<(C, C)>);

impl PairVisitor<C> for Pairs {
    fn visit_pair(&mut self, first: &C, second: &C) {
        self.0.push((first.clone(), second.clone()));
    }
}

#[test]
fn for_each_visits_every_component_of_the_kind() {
    let entities = three_entities();
    let mut sum = Sum(0);
    entities.for_each(COUNT, &mut sum);
    assert_eq!(579, sum.0);
}

#[test]
fn for_each_pair_visits_every_pair() {
    let entities = three_entities();
    let mut pairs = Pairs(Vec::new());
    entities.for_each_pair(COUNT, SCORE, &mut pairs);
    assert_eq!(
        vec![
            (C::Count(123), C::Score(123)),
            (C::Count(123), C::Score(456)),
            (C::Count(456), C::Score(123)),
            (C::Count(456), C::Score(456)),
        ],
        pairs.0
    );
}
