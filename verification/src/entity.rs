//! Entities and their components.
//!
//! An entity is a bag of components, at most one per component *kind*.
//! A kind is a number that the game assigns to each sort of component
//! (a position, a velocity, a marker such as "this is a chest"); every
//! component is stored as a value of one game-wide type `V`.
//! Entities live in an [`Entities`] store that hands out fresh ids in
//! increasing order and keeps its entities sorted by id.
use std::collections::HashMap;
use vstd::prelude::*;

verus! {

broadcast use vstd::std_specs::hash::group_hash_axioms;

/// The id an entity was spawned with.
#[derive(Clone, Copy, PartialEq, Eq, Debug)]
pub struct Id(pub u64);

/// The components of an entity that is about to be spawned.
pub struct EntityBuilder<V> {
    data: HashMap<u64, V>,
}

/// Starts an entity with no components.
pub fn entity<V>() -> (b: EntityBuilder<V>)
    ensures
        b@ == Map::<u64, V>::empty(),
{
    EntityBuilder { data: HashMap::new() }
}

impl<V> View for EntityBuilder<V> {
    type V = Map<u64, V>;

    closed spec fn view(&self) -> Map<u64, V> {
        self.data@
    }
}

impl<V> EntityBuilder<V> {
    /// Adds (or replaces) the component of the given kind.
    pub fn with(self, kind: u64, value: V) -> (b: Self)
        ensures
            b@ == self@.insert(kind, value),
    {
        let mut data = self.data;
        data.insert(kind, value);
        EntityBuilder { data }
    }
}

/// One entity: its id and its components, keyed by kind.
pub struct Entity<V> {
    id: u64,
    data: HashMap<u64, V>,
}

impl<V> View for Entity<V> {
    type V = (u64, Map<u64, V>);

    closed spec fn view(&self) -> (u64, Map<u64, V>) {
        (self.id, self.data@)
    }
}

impl<V> Entity<V> {
    /// An entity with the given id and no components.
    pub fn new(id: u64) -> (e: Self)
        ensures
            e@ == (id, Map::<u64, V>::empty()),
    {
        Entity { id, data: HashMap::new() }
    }

    /// The entity's id.
    pub fn id(&self) -> (r: Id)
        ensures
            r.0 == self@.0,
    {
        Id(self.id)
    }

    /// The component of the given kind, if the entity has one.
    pub fn get(&self, kind: u64) -> (r: Option<&V>)
        ensures
            r == (if self@.1.contains_key(kind) { Some(&self@.1[kind]) } else { None }),
    {
        self.data.get(&kind)
    }

    /// Whether the entity has a component of the given kind.
    pub fn has(&self, kind: u64) -> (r: bool)
        ensures
            r == self@.1.contains_key(kind),
    {
        self.data.contains_key(&kind)
    }

    /// Sets the component of the given kind, replacing any earlier one.
    pub fn set(&mut self, kind: u64, value: V)
        ensures
            final(self)@ == (old(self)@.0, old(self)@.1.insert(kind, value)),
    {
        self.data.insert(kind, value);
    }

    /// Removes the component of the given kind and hands it back.
    pub fn remove(&mut self, kind: u64) -> (r: Option<V>)
        ensures
            final(self)@ == (old(self)@.0, old(self)@.1.remove(kind)),
            r == (if old(self)@.1.contains_key(kind) { Some(old(self)@.1[kind]) } else { None }),
    {
        self.data.remove(&kind)
    }

    /// Applies a list of component updates in order; a later update of a
    /// kind wins over an earlier one.
    pub fn set_all(&mut self, updates: Vec<(u64, V)>)
        ensures
            final(self)@ == (old(self)@.0, with_updates(old(self)@.1, updates@)),
    {
        let mut updates = updates;
        let ghost all = updates@;
        let mut rest: Vec<(u64, V)> = Vec::new();
        // Move the updates out front to back.
        let n = updates.len();
        let mut i: usize = 0;
        while i < n
            invariant
                n == all.len(),
                i <= n,
                updates@ == all.subrange(0, n - i),
                rest@ == all.subrange(n - i, n as int).reverse(),
            decreases n - i,
        {
            let u = updates.pop().unwrap();
            rest.push(u);
            i = i + 1;
            assert(rest@ =~= all.subrange(n - i, n as int).reverse());
            assert(updates@ =~= all.subrange(0, n - i));
        }
        assert(rest@ =~= all.reverse());
        let ghost start = self@.1;
        let mut j: usize = 0;
        while j < n
            invariant
                n == all.len(),
                j <= n,
                rest@ == all.subrange(j as int, n as int).reverse(),
                self@.0 == old(self)@.0,
                start == old(self)@.1,
                self@.1 == with_updates(start, all.take(j as int)),
            decreases n - j,
        {
            let (k, v) = rest.pop().unwrap();
            proof {
                assert(all.take(j + 1).drop_last() =~= all.take(j as int));
                assert(all.take(j + 1).last() == all[j as int]);
            }
            self.data.insert(k, v);
            j = j + 1;
            assert(rest@ =~= all.subrange(j as int, n as int).reverse());
        }
        assert(all.take(n as int) =~= all);
    }
}

/// The components of `m` after applying `updates` in order.
pub open spec fn with_updates<V>(m: Map<u64, V>, updates: Seq<(u64, V)>) -> Map<u64, V>
    decreases updates.len(),
{
    if updates.len() == 0 {
        m
    } else {
        let (k, v) = updates.last();
        with_updates(m, updates.drop_last()).insert(k, v)
    }
}

/// The values of the given kind, in the order of the entities that have one.
pub open spec fn values_of<V>(es: Seq<(u64, Map<u64, V>)>, kind: u64) -> Seq<V>
    decreases es.len(),
{
    if es.len() == 0 {
        Seq::empty()
    } else {
        let prev = values_of(es.drop_last(), kind);
        if es.last().1.contains_key(kind) {
            prev.push(es.last().1[kind])
        } else {
            prev
        }
    }
}

/// The ids of the entities that have a component of the given kind, in order.
pub open spec fn ids_of<V>(es: Seq<(u64, Map<u64, V>)>, kind: u64) -> Seq<u64>
    decreases es.len(),
{
    if es.len() == 0 {
        Seq::empty()
    } else {
        let prev = ids_of(es.drop_last(), kind);
        if es.last().1.contains_key(kind) {
            prev.push(es.last().0)
        } else {
            prev
        }
    }
}

/// The ids of the entities that have components of both given kinds, in order.
pub open spec fn ids_of_both<V>(es: Seq<(u64, Map<u64, V>)>, first: u64, second: u64) -> Seq<u64>
    decreases es.len(),
{
    if es.len() == 0 {
        Seq::empty()
    } else {
        let prev = ids_of_both(es.drop_last(), first, second);
        if es.last().1.contains_key(first) && es.last().1.contains_key(second) {
            prev.push(es.last().0)
        } else {
            prev
        }
    }
}

/// The ids in `es`, in order.
pub open spec fn ids<V>(es: Seq<(u64, Map<u64, V>)>) -> Seq<u64> {
    es.map_values(|e: (u64, Map<u64, V>)| e.0)
}

/// Ids strictly increase along the sequence and all lie below `next_id`.
pub open spec fn ordered_below<V>(es: Seq<(u64, Map<u64, V>)>, next_id: u64) -> bool {
    &&& forall|i: int, j: int| 0 <= i < j < es.len() ==> es[i].0 < es[j].0
    &&& forall|i: int| 0 <= i < es.len() ==> es[i].0 < next_id
}

/// The abstract state of an [`Entities`] store.
pub ghost struct EntitiesView<V> {
    /// The id the next spawned entity gets.
    pub next_id: u64,
    /// The live entities, as (id, components), in increasing id order.
    pub entities: Seq<(u64, Map<u64, V>)>,
}

/// Something that is shown each component that a query selects.
pub trait Visitor<V>: Sized {
    /// Whether being shown `value` turns the visitor `before` into `after`;
    /// a visitor that does not say may change in any way.
    open spec fn visits(before: Self, value: V, after: Self) -> bool {
        true
    }

    fn visit(&mut self, value: &V)
        ensures
            Self::visits(*old(self), *value, *final(self)),
    ;
}

/// Something that is shown each pair of components that a query selects.
pub trait PairVisitor<V>: Sized {
    /// Whether being shown `first` and `second` turns the visitor `before`
    /// into `after`; a visitor that does not say may change in any way.
    open spec fn visits_pair(before: Self, first: V, second: V, after: Self) -> bool {
        true
    }

    fn visit_pair(&mut self, first: &V, second: &V)
        ensures
            Self::visits_pair(*old(self), *first, *second, *final(self)),
    ;
}

/// `states` lists a visitor before each of `values` is shown and after the last.
pub open spec fn visit_steps<V, W: Visitor<V>>(values: Seq<V>, states: Seq<W>) -> bool {
    &&& states.len() == values.len() + 1
    &&& forall|j: int| 0 <= j < values.len() ==> W::visits(states[j], values[j], #[trigger] states[j + 1])
}

/// Showing `values` one after another, in order, turns `before` into `after`.
pub open spec fn visited_all<V, W: Visitor<V>>(before: W, values: Seq<V>, after: W) -> bool {
    exists|states: Seq<W>| #[trigger] visit_steps(values, states) && states[0] == before && states.last() == after
}

/// Every pair of a value of `firsts` and a value of `seconds`: the first
/// value in the outer order, the second in the inner.
pub open spec fn pairs_of<V>(firsts: Seq<V>, seconds: Seq<V>) -> Seq<(V, V)>
    decreases firsts.len(),
{
    if firsts.len() == 0 {
        Seq::empty()
    } else {
        let x = firsts.last();
        pairs_of(firsts.drop_last(), seconds) + seconds.map_values(|y: V| (x, y))
    }
}

/// `states` lists a pair visitor before each of `pairs` is shown and after the last.
pub open spec fn pair_steps<V, W: PairVisitor<V>>(pairs: Seq<(V, V)>, states: Seq<W>) -> bool {
    &&& states.len() == pairs.len() + 1
    &&& forall|j: int| 0 <= j < pairs.len() ==> W::visits_pair(states[j], pairs[j].0, pairs[j].1, #[trigger] states[j + 1])
}

/// Showing `pairs` one after another, in order, turns `before` into `after`.
pub open spec fn visited_pairs<V, W: PairVisitor<V>>(before: W, pairs: Seq<(V, V)>, after: W) -> bool {
    exists|states: Seq<W>| #[trigger] pair_steps(pairs, states) && states[0] == before && states.last() == after
}

/// All the entities of a world.
pub struct Entities<V> {
    next_id: u64,
    entities: Vec<Entity<V>>,
}

impl<V> View for Entities<V> {
    type V = EntitiesView<V>;

    closed spec fn view(&self) -> EntitiesView<V> {
        EntitiesView {
            next_id: self.next_id,
            entities: self.entities@.map_values(|e: Entity<V>| e@),
        }
    }
}

impl<V> Entities<V> {
    #[verifier::type_invariant]
    closed spec fn well_formed(&self) -> bool {
        ordered_below(self@.entities, self.next_id)
    }

    /// An empty store whose first entity gets id 0.
    pub fn new() -> (s: Self)
        ensures
            s@.next_id == 0,
            s@.entities == Seq::<(u64, Map<u64, V>)>::empty(),
            ordered_below(s@.entities, s@.next_id),
    {
        let s = Entities { next_id: 0, entities: Vec::new() };
        assert(s@.entities =~= Seq::<(u64, Map<u64, V>)>::empty());
        s
    }

    /// The id that the next spawned entity gets.
    pub fn next_id(&self) -> (n: u64)
        ensures
            n == self@.next_id,
    {
        self.next_id
    }

    /// The number of live entities.
    pub fn len(&self) -> (n: usize)
        ensures
            n == self@.entities.len(),
    {
        self.entities.len()
    }

    /// Adds an entity with the builder's components and a fresh id, and
    /// returns that id. Ids are handed out in increasing order.
    pub fn spawn(&mut self, builder: EntityBuilder<V>) -> (id: u64)
        requires
            old(self)@.next_id < u64::MAX,
        ensures
            id == old(self)@.next_id,
            final(self)@.next_id == old(self)@.next_id + 1,
            final(self)@.entities == old(self)@.entities.push((id, builder@)),
            ordered_below(final(self)@.entities, final(self)@.next_id),
    {
        proof {
            use_type_invariant(&*self);
        }
        let id = self.next_id;
        self.next_id = id + 1;
        let e = Entity { id, data: builder.data };
        let mut es: Vec<Entity<V>> = Vec::new();
        std::mem::swap(&mut es, &mut self.entities);
        es.push(e);
        proof {
            let olds = old(self)@.entities;
            let news = es@.map_values(|e: Entity<V>| e@);
            assert(news =~= olds.push((id, builder@)));
            assert(ordered_below(news, (id + 1) as u64));
        }
        self.entities = es;
        assert(self@.entities =~= old(self)@.entities.push((id, builder@)));
        proof {
            use_type_invariant(&*self);
        }
        id
    }

    /// The position of the entity with the given id, if it is live.
    fn index_of(&self, id: u64) -> (r: Option<usize>)
        ensures
            match r {
                Some(i) => i < self@.entities.len() && self@.entities[i as int].0 == id,
                None => forall|i: int| 0 <= i < self@.entities.len() ==> self@.entities[i].0 != id,
            },
    {
        let n = self.entities.len();
        let mut i: usize = 0;
        while i < n
            invariant
                n == self@.entities.len(),
                i <= n,
                forall|j: int| 0 <= j < i ==> self@.entities[j].0 != id,
            decreases n - i,
        {
            if self.entities[i].id == id {
                return Some(i);
            }
            i = i + 1;
        }
        None
    }

    /// The entity with the given id, if it is live.
    pub fn get(&self, id: u64) -> (r: Option<&Entity<V>>)
        ensures
            match r {
                Some(e) => self@.entities.contains(e@) && e@.0 == id,
                None => !ids(self@.entities).contains(id),
            },
    {
        match self.index_of(id) {
            Some(i) => {
                assert(self@.entities[i as int] == self.entities@[i as int]@);
                Some(&self.entities[i])
            },
            None => {
                assert(!ids(self@.entities).contains(id)) by {
                    if ids(self@.entities).contains(id) {
                        let k = choose|k: int| 0 <= k < ids(self@.entities).len() && ids(self@.entities)[k] == id;
                        assert(self@.entities[k].0 == id);
                    }
                }
                None
            },
        }
    }

    /// Removes the entity with the given id and hands it back; a store
    /// without that id is left as it is.
    pub fn delete(&mut self, id: &u64) -> (r: Option<Entity<V>>)
        ensures
            final(self)@.next_id == old(self)@.next_id,
            match r {
                Some(e) => exists|i: int|
                    0 <= i < old(self)@.entities.len() && old(self)@.entities[i] == e@
                        && e@.0 == *id && final(self)@.entities == old(self)@.entities.remove(i),
                None => !ids(old(self)@.entities).contains(*id) && final(self)@ == old(self)@,
            },
            ordered_below(final(self)@.entities, final(self)@.next_id),
    {
        proof {
            use_type_invariant(&*self);
        }
        match self.index_of(*id) {
            Some(i) => {
                let mut es: Vec<Entity<V>> = Vec::new();
                std::mem::swap(&mut es, &mut self.entities);
                let e = es.remove(i);
                proof {
                    let olds = old(self)@.entities;
                    let news = es@.map_values(|e: Entity<V>| e@);
                    assert(news =~= olds.remove(i as int));
                    assert forall|a: int, b: int| 0 <= a < b < news.len() implies news[a].0 < news[b].0 by {
                        let oa = if a < i { a } else { a + 1 };
                        let ob = if b < i { b } else { b + 1 };
                        assert(news[a] == olds[oa]);
                        assert(news[b] == olds[ob]);
                    }
                    assert forall|a: int| 0 <= a < news.len() implies news[a].0 < self.next_id by {
                        let oa = if a < i { a } else { a + 1 };
                        assert(news[a] == olds[oa]);
                    }
                }
                self.entities = es;
                assert(self@.entities =~= old(self)@.entities.remove(i as int));
                proof {
                    use_type_invariant(&*self);
                }
                Some(e)
            },
            None => {
                assert(!ids(old(self)@.entities).contains(*id)) by {
                    if ids(old(self)@.entities).contains(*id) {
                        let k = choose|k: int|
                            0 <= k < ids(old(self)@.entities).len() && ids(old(self)@.entities)[k] == *id;
                        assert(old(self)@.entities[k].0 == *id);
                    }
                }
                None
            },
        }
    }

    /// Copies of the components of the given kind, in id order.
    pub fn collect(&self, kind: u64) -> (r: Vec<V>)
        where
            V: Clone,
        ensures
            r@.len() == values_of(self@.entities, kind).len(),
            forall|i: int| 0 <= i < r@.len() ==> cloned(values_of(self@.entities, kind)[i], #[trigger] r@[i]),
    {
        let ghost es = self@.entities;
        let mut r: Vec<V> = Vec::new();
        let n = self.entities.len();
        let mut i: usize = 0;
        while i < n
            invariant
                n == es.len(),
                es == self@.entities,
                i <= n,
                r@.len() == values_of(es.take(i as int), kind).len(),
                forall|j: int| 0 <= j < r@.len() ==> cloned(values_of(es.take(i as int), kind)[j], #[trigger] r@[j]),
            decreases n - i,
        {
            proof {
                assert(es.take(i + 1).drop_last() =~= es.take(i as int));
                assert(es.take(i + 1).last() == es[i as int]);
                assert(es[i as int] == self.entities@[i as int]@);
            }
            match self.entities[i].data.get(&kind) {
                Some(v) => {
                    let c = v.clone();
                    r.push(c);
                },
                None => {},
            }
            i = i + 1;
        }
        assert(es.take(n as int) =~= es);
        r
    }

    /// The ids of the entities that have a component of the given kind, in order.
    pub fn ids_with(&self, kind: u64) -> (r: Vec<u64>)
        ensures
            r@ == ids_of(self@.entities, kind),
    {
        let ghost es = self@.entities;
        let mut r: Vec<u64> = Vec::new();
        let n = self.entities.len();
        let mut i: usize = 0;
        while i < n
            invariant
                n == es.len(),
                es == self@.entities,
                i <= n,
                r@ == ids_of(es.take(i as int), kind),
            decreases n - i,
        {
            proof {
                assert(es.take(i + 1).drop_last() =~= es.take(i as int));
                assert(es.take(i + 1).last() == es[i as int]);
                assert(es[i as int] == self.entities@[i as int]@);
            }
            if self.entities[i].data.contains_key(&kind) {
                r.push(self.entities[i].id);
            }
            i = i + 1;
        }
        assert(es.take(n as int) =~= es);
        r
    }

    /// The ids of the entities that have components of both given kinds, in order.
    pub fn ids_with_both(&self, first: u64, second: u64) -> (r: Vec<u64>)
        ensures
            r@ == ids_of_both(self@.entities, first, second),
    {
        let ghost es = self@.entities;
        let mut r: Vec<u64> = Vec::new();
        let n = self.entities.len();
        let mut i: usize = 0;
        while i < n
            invariant
                n == es.len(),
                es == self@.entities,
                i <= n,
                r@ == ids_of_both(es.take(i as int), first, second),
            decreases n - i,
        {
            proof {
                assert(es.take(i + 1).drop_last() =~= es.take(i as int));
                assert(es.take(i + 1).last() == es[i as int]);
                assert(es[i as int] == self.entities@[i as int]@);
            }
            if self.entities[i].data.contains_key(&first) && self.entities[i].data.contains_key(&second) {
                r.push(self.entities[i].id);
            }
            i = i + 1;
        }
        assert(es.take(n as int) =~= es);
        r
    }

    /// Shows the visitor each component of the given kind, in id order.
    pub fn for_each<W: Visitor<V>>(&self, kind: u64, visitor: &mut W)
        ensures
            visited_all(*old(visitor), values_of(self@.entities, kind), *final(visitor)),
    {
        let ghost es = self@.entities;
        let ghost mut states: Seq<W> = seq![*visitor];
        let n = self.entities.len();
        let mut i: usize = 0;
        while i < n
            invariant
                n == es.len(),
                es == self@.entities,
                i <= n,
                visit_steps(values_of(es.take(i as int), kind), states),
                states[0] == *old(visitor),
                states.last() == *visitor,
            decreases n - i,
        {
            proof {
                assert(es.take(i + 1).drop_last() =~= es.take(i as int));
                assert(es.take(i + 1).last() == es[i as int]);
                assert(es[i as int] == self.entities@[i as int]@);
            }
            let ghost before = values_of(es.take(i as int), kind);
            match self.entities[i].data.get(&kind) {
                Some(v) => {
                    let ghost prev = *visitor;
                    visitor.visit(v);
                    proof {
                        let vals = before.push(*v);
                        let next = states.push(*visitor);
                        assert(values_of(es.take(i + 1), kind) == vals);
                        assert forall|j: int| 0 <= j < vals.len() implies W::visits(next[j], vals[j], #[trigger] next[j + 1]) by {
                            if j < before.len() {
                                assert(next[j] == states[j] && vals[j] == before[j] && next[j + 1] == states[j + 1]);
                            } else {
                                assert(next[j] == prev && vals[j] == *v && next[j + 1] == *visitor);
                            }
                        }
                        states = next;
                    }
                },
                None => {
                    assert(values_of(es.take(i + 1), kind) == before);
                },
            }
            i = i + 1;
        }
        assert(es.take(n as int) =~= es);
    }

    /// Shows the visitor every pair of a component of kind `first` and a
    /// component of kind `second` (an entity with both is paired with itself
    /// too), the first components in the outer order.
    pub fn for_each_pair<W: PairVisitor<V>>(&self, first: u64, second: u64, visitor: &mut W)
        ensures
            visited_pairs(
                *old(visitor),
                pairs_of(values_of(self@.entities, first), values_of(self@.entities, second)),
                *final(visitor),
            ),
    {
        let ghost es = self@.entities;
        let ghost seconds = values_of(es, second);
        let ghost mut states: Seq<W> = seq![*visitor];
        let n = self.entities.len();
        let mut i: usize = 0;
        while i < n
            invariant
                n == es.len(),
                es == self@.entities,
                seconds == values_of(es, second),
                i <= n,
                pair_steps(pairs_of(values_of(es.take(i as int), first), seconds), states),
                states[0] == *old(visitor),
                states.last() == *visitor,
            decreases n - i,
        {
            proof {
                assert(es.take(i + 1).drop_last() =~= es.take(i as int));
                assert(es.take(i + 1).last() == es[i as int]);
                assert(es[i as int] == self.entities@[i as int]@);
            }
            let ghost done = pairs_of(values_of(es.take(i as int), first), seconds);
            match self.entities[i].data.get(&first) {
                Some(x) => {
                    let mut j: usize = 0;
                    while j < n
                        invariant
                            n == es.len(),
                            es == self@.entities,
                            i < n,
                            j <= n,
                            pair_steps(done + values_of(es.take(j as int), second).map_values(|y: V| (*x, y)), states),
                            states[0] == *old(visitor),
                            states.last() == *visitor,
                        decreases n - j,
                    {
                        proof {
                            assert(es.take(j + 1).drop_last() =~= es.take(j as int));
                            assert(es.take(j + 1).last() == es[j as int]);
                            assert(es[j as int] == self.entities@[j as int]@);
                        }
                        let ghost sofar = done + values_of(es.take(j as int), second).map_values(|y: V| (*x, y));
                        match self.entities[j].data.get(&second) {
                            Some(y) => {
                                let ghost prev = *visitor;
                                visitor.visit_pair(x, y);
                                proof {
                                    let ps = sofar.push((*x, *y));
                                    let next = states.push(*visitor);
                                    assert(values_of(es.take(j + 1), second) == values_of(es.take(j as int), second).push(*y));
                                    assert(done + values_of(es.take(j + 1), second).map_values(|y: V| (*x, y)) =~= ps);
                                    assert forall|k: int| 0 <= k < ps.len() implies W::visits_pair(next[k], ps[k].0, ps[k].1, #[trigger] next[k + 1]) by {
                                        if k < sofar.len() {
                                            assert(next[k] == states[k] && ps[k] == sofar[k] && next[k + 1] == states[k + 1]);
                                        } else {
                                            assert(next[k] == prev && ps[k] == (*x, *y) && next[k + 1] == *visitor);
                                        }
                                    }
                                    states = next;
                                }
                            },
                            None => {
                                assert(values_of(es.take(j + 1), second) == values_of(es.take(j as int), second));
                            },
                        }
                        j = j + 1;
                    }
                    proof {
                        assert(es.take(n as int) =~= es);
                        assert(values_of(es.take(i + 1), first) == values_of(es.take(i as int), first).push(*x));
                        assert(values_of(es.take(i + 1), first).drop_last() =~= values_of(es.take(i as int), first));
                    }
                },
                None => {
                    assert(values_of(es.take(i + 1), first) == values_of(es.take(i as int), first));
                },
            }
            i = i + 1;
        }
        assert(es.take(n as int) =~= es);
    }
}


/// `r` is what folding `f` over `vals`, starting from `init`, may give.
pub open spec fn folds_to<A, V, F: Fn(A, &V) -> A>(f: F, init: A, vals: Seq<V>, r: A) -> bool {
    exists|accs: Seq<A>| #[trigger] fold_steps(f, init, vals, accs) && accs.last() == r
}

/// `accs` lists the accumulators of a fold of `f` over `vals` from `init`.
pub open spec fn fold_steps<A, V, F: Fn(A, &V) -> A>(f: F, init: A, vals: Seq<V>, accs: Seq<A>) -> bool {
    &&& accs.len() == vals.len() + 1
    &&& accs[0] == init
    &&& forall|j: int| 0 <= j < vals.len() ==> call_ensures(f, (accs[j], &vals[j]), #[trigger] accs[j + 1])
}

/// Sets a component of the `i`-th entity of `es`.
fn set_in<V>(es: &mut Vec<Entity<V>>, i: usize, kind: u64, value: V)
    requires
        i < old(es)@.len(),
    ensures
        final(es)@.len() == old(es)@.len(),
        final(es)@[i as int]@ == (old(es)@[i as int]@.0, old(es)@[i as int]@.1.insert(kind, value)),
        forall|j: int| 0 <= j < old(es)@.len() && j != i ==> final(es)@[j] == old(es)@[j],
{
    let e = &mut es[i];
    e.data.insert(kind, value);
}

/// Applies component updates to the `i`-th entity of `es`.
fn set_all_in<V>(es: &mut Vec<Entity<V>>, i: usize, updates: Vec<(u64, V)>)
    requires
        i < old(es)@.len(),
    ensures
        final(es)@.len() == old(es)@.len(),
        final(es)@[i as int]@ == (old(es)@[i as int]@.0, with_updates(old(es)@[i as int]@.1, updates@)),
        forall|j: int| 0 <= j < old(es)@.len() && j != i ==> final(es)@[j] == old(es)@[j],
{
    let e = &mut es[i];
    e.set_all(updates);
}

/// What `apply` does to one entity: if it has an `input` component, its
/// `output` component becomes a result of `f` on that input.
pub open spec fn applied<V, F: Fn(&V) -> V>(
    f: F,
    input: u64,
    output: u64,
    before: (u64, Map<u64, V>),
    after: (u64, Map<u64, V>),
) -> bool {
    &&& after.0 == before.0
    &&& if before.1.contains_key(input) {
        &&& after.1 == before.1.insert(output, after.1[output])
        &&& call_ensures(f, (&before.1[input],), after.1[output])
    } else {
        after.1 == before.1
    }
}

/// What `apply_2` does to one entity: if it has both an `a` and a `b`
/// component, its `output` component becomes a result of `f` on them.
pub open spec fn applied_2<V, F: Fn(&V, &V) -> V>(
    f: F,
    a: u64,
    b: u64,
    output: u64,
    before: (u64, Map<u64, V>),
    after: (u64, Map<u64, V>),
) -> bool {
    &&& after.0 == before.0
    &&& if before.1.contains_key(a) && before.1.contains_key(b) {
        &&& after.1 == before.1.insert(output, after.1[output])
        &&& call_ensures(f, (&before.1[a], &before.1[b]), after.1[output])
    } else {
        after.1 == before.1
    }
}

/// What `for_each_mut` does to one entity: `f` is shown the entity and
/// the updates it returns are applied in order.
pub open spec fn updated<V, F: Fn(&Entity<V>) -> Vec<(u64, V)>>(
    f: F,
    before: (u64, Map<u64, V>),
    after: (u64, Map<u64, V>),
) -> bool {
    exists|e: Entity<V>, u: Vec<(u64, V)>|
        e@ == before && #[trigger] call_ensures(f, (&e,), u) && after == (before.0, with_updates(before.1, u@))
}

impl<V> Entities<V> {
    /// Folds `f` over the components of the given kind, in id order.
    pub fn fold<A, F: Fn(A, &V) -> A>(&self, kind: u64, init: A, f: F) -> (r: A)
        requires
            forall|a: A, v: V| call_requires(f, (a, &v)),
        ensures
            folds_to(f, init, values_of(self@.entities, kind), r),
    {
        let ghost es = self@.entities;
        let mut acc = init;
        let ghost mut accs: Seq<A> = seq![acc];
        let n = self.entities.len();
        let mut i: usize = 0;
        while i < n
            invariant
                n == es.len(),
                es == self@.entities,
                i <= n,
                fold_steps(f, init, values_of(es.take(i as int), kind), accs),
                accs.last() == acc,
                forall|a: A, v: V| call_requires(f, (a, &v)),
            decreases n - i,
        {
            proof {
                assert(es.take(i + 1).drop_last() =~= es.take(i as int));
                assert(es.take(i + 1).last() == es[i as int]);
                assert(es[i as int] == self.entities@[i as int]@);
            }
            match self.entities[i].data.get(&kind) {
                Some(v) => {
                    let ghost before = acc;
                    acc = f(acc, v);
                    proof {
                        let vals = values_of(es.take(i as int), kind);
                        let vals2 = values_of(es.take(i + 1), kind);
                        assert(vals2 == vals.push(*v));
                        let accs2 = accs.push(acc);
                        assert forall|j: int| 0 <= j < vals2.len() implies call_ensures(f, (accs2[j], &vals2[j]), #[trigger] accs2[j + 1]) by {
                            if j < vals.len() {
                                assert(accs2[j] == accs[j]);
                                assert(accs2[j + 1] == accs[j + 1]);
                                assert(vals2[j] == vals[j]);
                            } else {
                                assert(accs2[j] == before);
                            }
                        }
                        accs = accs2;
                    }
                },
                None => {},
            }
            i = i + 1;
        }
        assert(es.take(n as int) =~= es);
        assert(fold_steps(f, init, values_of(es, kind), accs));
        acc
    }

    /// For each entity with an `input` component (in id order), sets its
    /// `output` component to `f` of that input.
    pub fn apply<F: Fn(&V) -> V>(&mut self, input: u64, output: u64, f: F)
        requires
            forall|v: V| call_requires(f, (&v,)),
        ensures
            final(self)@.next_id == old(self)@.next_id,
            final(self)@.entities.len() == old(self)@.entities.len(),
            forall|i: int| 0 <= i < old(self)@.entities.len() ==>
                applied(f, input, output, old(self)@.entities[i], #[trigger] final(self)@.entities[i]),
            ordered_below(final(self)@.entities, final(self)@.next_id),
    {
        proof {
            use_type_invariant(&*self);
        }
        let mut es: Vec<Entity<V>> = Vec::new();
        std::mem::swap(&mut es, &mut self.entities);
        let ghost olds = old(self)@.entities;
        let n = es.len();
        let mut i: usize = 0;
        while i < n
            invariant
                n == es@.len(),
                n == olds.len(),
                i <= n,
                olds == old(self)@.entities,
                forall|j: int| 0 <= j < i ==> applied(f, input, output, olds[j], #[trigger] es@[j]@),
                forall|j: int| i <= j < n ==> #[trigger] es@[j]@ == olds[j],
                forall|v: V| call_requires(f, (&v,)),
            decreases n - i,
        {
            let nv = match es[i].data.get(&input) {
                Some(v) => Some(f(v)),
                None => None,
            };
            let ghost prev = es@;
            match nv {
                Some(x) => {
                    set_in(&mut es, i, output, x);
                },
                None => {},
            }
            assert(applied(f, input, output, olds[i as int], es@[i as int]@));
            assert forall|j: int| 0 <= j < i implies applied(f, input, output, olds[j], #[trigger] es@[j]@) by {
                assert(es@[j] == prev[j]);
            }
            i = i + 1;
        }
        proof {
            let news = es@.map_values(|e: Entity<V>| e@);
            assert forall|j: int| 0 <= j < n implies news[j].0 == olds[j].0 by {
                assert(applied(f, input, output, olds[j], es@[j]@));
            }
            assert(ordered_below(news, self.next_id));
        }
        self.entities = es;
        proof {
            use_type_invariant(&*self);
        }
    }

    /// For each entity with both an `a` and a `b` component (in id order),
    /// sets its `output` component to `f` of those two.
    pub fn apply_2<F: Fn(&V, &V) -> V>(&mut self, a: u64, b: u64, output: u64, f: F)
        requires
            forall|x: V, y: V| call_requires(f, (&x, &y)),
        ensures
            final(self)@.next_id == old(self)@.next_id,
            final(self)@.entities.len() == old(self)@.entities.len(),
            forall|i: int| 0 <= i < old(self)@.entities.len() ==>
                applied_2(f, a, b, output, old(self)@.entities[i], #[trigger] final(self)@.entities[i]),
            ordered_below(final(self)@.entities, final(self)@.next_id),
    {
        proof {
            use_type_invariant(&*self);
        }
        let mut es: Vec<Entity<V>> = Vec::new();
        std::mem::swap(&mut es, &mut self.entities);
        let ghost olds = old(self)@.entities;
        let n = es.len();
        let mut i: usize = 0;
        while i < n
            invariant
                n == es@.len(),
                n == olds.len(),
                i <= n,
                olds == old(self)@.entities,
                forall|j: int| 0 <= j < i ==> applied_2(f, a, b, output, olds[j], #[trigger] es@[j]@),
                forall|j: int| i <= j < n ==> #[trigger] es@[j]@ == olds[j],
                forall|x: V, y: V| call_requires(f, (&x, &y)),
            decreases n - i,
        {
            let nv = match (es[i].data.get(&a), es[i].data.get(&b)) {
                (Some(x), Some(y)) => Some(f(x, y)),
                _ => None,
            };
            let ghost prev = es@;
            match nv {
                Some(x) => {
                    set_in(&mut es, i, output, x);
                },
                None => {},
            }
            assert(applied_2(f, a, b, output, olds[i as int], es@[i as int]@));
            assert forall|j: int| 0 <= j < i implies applied_2(f, a, b, output, olds[j], #[trigger] es@[j]@) by {
                assert(es@[j] == prev[j]);
            }
            i = i + 1;
        }
        proof {
            let news = es@.map_values(|e: Entity<V>| e@);
            assert forall|j: int| 0 <= j < n implies news[j].0 == olds[j].0 by {
                assert(applied_2(f, a, b, output, olds[j], es@[j]@));
            }
            assert(ordered_below(news, self.next_id));
        }
        self.entities = es;
        proof {
            use_type_invariant(&*self);
        }
    }

    /// Shows `f` each entity in id order and applies the component updates
    /// it returns to that entity.
    pub fn for_each_mut<F: Fn(&Entity<V>) -> Vec<(u64, V)>>(&mut self, f: F)
        requires
            forall|e: Entity<V>| call_requires(f, (&e,)),
        ensures
            final(self)@.next_id == old(self)@.next_id,
            final(self)@.entities.len() == old(self)@.entities.len(),
            forall|i: int| 0 <= i < old(self)@.entities.len() ==>
                updated(f, old(self)@.entities[i], #[trigger] final(self)@.entities[i]),
            ordered_below(final(self)@.entities, final(self)@.next_id),
    {
        proof {
            use_type_invariant(&*self);
        }
        let mut es: Vec<Entity<V>> = Vec::new();
        std::mem::swap(&mut es, &mut self.entities);
        let ghost olds = old(self)@.entities;
        let n = es.len();
        let mut i: usize = 0;
        while i < n
            invariant
                n == es@.len(),
                n == olds.len(),
                i <= n,
                olds == old(self)@.entities,
                forall|j: int| 0 <= j < i ==> updated(f, olds[j], #[trigger] es@[j]@),
                forall|j: int| i <= j < n ==> #[trigger] es@[j]@ == olds[j],
                forall|e: Entity<V>| call_requires(f, (&e,)),
            decreases n - i,
        {
            let u = f(&es[i]);
            let ghost before = es@[i as int];
            set_all_in(&mut es, i, u);
            assert(updated(f, olds[i as int], es@[i as int]@));
            i = i + 1;
        }
        proof {
            let news = es@.map_values(|e: Entity<V>| e@);
            assert forall|j: int| 0 <= j < n implies news[j].0 == olds[j].0 by {
                assert(updated(f, olds[j], es@[j]@));
            }
            assert(ordered_below(news, self.next_id));
        }
        self.entities = es;
        proof {
            use_type_invariant(&*self);
        }
    }

    /// Shows `f` the entity with the given id, if it is live, and applies
    /// the component updates it returns; tells whether the entity was found.
    pub fn apply_to<F: Fn(&Entity<V>) -> Vec<(u64, V)>>(&mut self, id: u64, f: F) -> (found: bool)
        requires
            forall|e: Entity<V>| call_requires(f, (&e,)),
        ensures
            found == ids(old(self)@.entities).contains(id),
            final(self)@.next_id == old(self)@.next_id,
            final(self)@.entities.len() == old(self)@.entities.len(),
            forall|i: int| 0 <= i < old(self)@.entities.len() ==>
                if old(self)@.entities[i].0 == id {
                    updated(f, old(self)@.entities[i], #[trigger] final(self)@.entities[i])
                } else {
                    final(self)@.entities[i] == old(self)@.entities[i]
                },
            ordered_below(final(self)@.entities, final(self)@.next_id),
    {
        proof {
            use_type_invariant(&*self);
        }
        match self.index_of(id) {
            None => {
                assert(!ids(old(self)@.entities).contains(id)) by {
                    if ids(old(self)@.entities).contains(id) {
                        let k = choose|k: int|
                            0 <= k < ids(old(self)@.entities).len() && ids(old(self)@.entities)[k] == id;
                        assert(old(self)@.entities[k].0 == id);
                    }
                }
                false
            },
            Some(i) => {
                let mut es: Vec<Entity<V>> = Vec::new();
                std::mem::swap(&mut es, &mut self.entities);
                let ghost olds = old(self)@.entities;
                let u = f(&es[i]);
                set_all_in(&mut es, i, u);
                proof {
                    let news = es@.map_values(|e: Entity<V>| e@);
                    assert(updated(f, olds[i as int], news[i as int]));
                    assert forall|j: int| 0 <= j < news.len() && j != i implies news[j] == olds[j] by {}
                    assert forall|j: int| 0 <= j < news.len() implies news[j].0 == olds[j].0 by {}
                    assert(ordered_below(news, self.next_id));
                    assert forall|j: int| 0 <= j < olds.len() && olds[j].0 == id implies j == i by {
                        if j < i { assert(olds[j].0 < olds[i as int].0); }
                        if j > i { assert(olds[i as int].0 < olds[j].0); }
                    }
                    assert(ids(olds)[i as int] == id);
                }
                self.entities = es;
                proof {
                    use_type_invariant(&*self);
                }
                true
            },
        }
    }
}

/// Law: a spawned entity gets an id that no live entity has, and the ids
/// of the store stay increasing and below the next id.
pub proof fn law_spawned_id_is_fresh<V>(es: Seq<(u64, Map<u64, V>)>, next_id: u64, components: Map<u64, V>)
    requires
        ordered_below(es, next_id),
        next_id < u64::MAX,
    ensures
        !ids(es).contains(next_id),
        ordered_below(es.push((next_id, components)), (next_id + 1) as u64),
{
    if ids(es).contains(next_id) {
        let k = choose|k: int| 0 <= k < ids(es).len() && ids(es)[k] == next_id;
        assert(es[k].0 == next_id);
    }
}

/// Law: after spawning, `collect` gives back what it gave before followed
/// by the new entity's component of that kind, if it has one; `ids_with`
/// likewise gains the new id.
pub proof fn law_collect_after_spawn<V>(es: Seq<(u64, Map<u64, V>)>, id: u64, components: Map<u64, V>, kind: u64)
    ensures
        values_of(es.push((id, components)), kind) == if components.contains_key(kind) {
            values_of(es, kind).push(components[kind])
        } else {
            values_of(es, kind)
        },
        ids_of(es.push((id, components)), kind) == if components.contains_key(kind) {
            ids_of(es, kind).push(id)
        } else {
            ids_of(es, kind)
        },
{
    assert(es.push((id, components)).drop_last() =~= es);
}

/// Law: deleting the entity that was just spawned gives back its
/// components and leaves the other entities as they were.
pub proof fn law_delete_undoes_spawn<V>(es: Seq<(u64, Map<u64, V>)>, id: u64, components: Map<u64, V>)
    ensures
        es.push((id, components))[es.len() as int] == (id, components),
        es.push((id, components)).remove(es.len() as int) == es,
{
    assert(es.push((id, components)).remove(es.len() as int) =~= es);
}

/// Law: a component reads back as it was last set, and setting one kind
/// leaves the other kinds as they were.
pub proof fn law_get_after_set<V>(components: Map<u64, V>, kind: u64, value: V, other: u64)
    requires
        other != kind,
    ensures
        components.insert(kind, value).contains_key(kind),
        components.insert(kind, value)[kind] == value,
        components.insert(kind, value).contains_key(other) == components.contains_key(other),
        components.contains_key(other) ==> components.insert(kind, value)[other] == components[other],
        !components.remove(kind).contains_key(kind),
{
}

} // verus!
