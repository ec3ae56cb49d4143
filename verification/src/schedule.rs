//! A queue of items that fall due at given times, earliest first.
//!
//! Items with the same time come out in the order they were added.
use vstd::prelude::*;

verus! {

/// Times never decrease along the sequence.
pub open spec fn sorted_by_time<T>(s: Seq<(u64, T)>) -> bool {
    forall|i: int, j: int| 0 <= i <= j < s.len() ==> s[i].0 <= s[j].0
}

/// `after` is `before` with `(at, item)` inserted behind every entry due
/// no later than `at` and before every entry due later.
pub open spec fn placed<T>(before: Seq<(u64, T)>, after: Seq<(u64, T)>, at: u64, item: T) -> bool {
    exists|p: int|
        0 <= p <= before.len() && after == before.insert(p, (at, item)) && (forall|j: int|
            0 <= j < p ==> #[trigger] before[j].0 <= at) && (forall|j: int|
            p <= j < before.len() ==> #[trigger] before[j].0 > at)
}

/// How many entries at the front of `s` are due strictly before `now`.
pub open spec fn due_count<T>(s: Seq<(u64, T)>, now: u64) -> nat
    decreases s.len(),
{
    if s.len() == 0 || s[0].0 >= now {
        0
    } else {
        1 + due_count(s.drop_first(), now)
    }
}

/// In a sorted sequence, the entries due before `now` are exactly the first
/// `due_count` ones.
pub proof fn lemma_due_count<T>(s: Seq<(u64, T)>, now: u64)
    requires
        sorted_by_time(s),
    ensures
        due_count(s, now) <= s.len(),
        forall|j: int| 0 <= j < due_count(s, now) ==> #[trigger] s[j].0 < now,
        forall|j: int| due_count(s, now) <= j < s.len() ==> #[trigger] s[j].0 >= now,
    decreases s.len(),
{
    if s.len() > 0 && s[0].0 < now {
        let t = s.drop_first();
        assert(sorted_by_time(t)) by {
            assert forall|i: int, j: int| 0 <= i <= j < t.len() implies t[i].0 <= t[j].0 by {
                assert(t[i] == s[i + 1]);
                assert(t[j] == s[j + 1]);
            }
        }
        lemma_due_count(t, now);
        assert forall|j: int| 0 <= j < due_count(s, now) implies #[trigger] s[j].0 < now by {
            if j > 0 {
                assert(s[j] == t[j - 1]);
            }
        }
        assert forall|j: int| due_count(s, now) <= j < s.len() implies #[trigger] s[j].0 >= now by {
            assert(s[j] == t[j - 1]);
        }
    }
}

/// In a sorted sequence only one count splits the entries due before
/// `now` from the rest.
pub proof fn lemma_due_count_unique<T>(s: Seq<(u64, T)>, now: u64, k: int)
    requires
        sorted_by_time(s),
        0 <= k <= s.len(),
        forall|j: int| 0 <= j < k ==> #[trigger] s[j].0 < now,
        forall|j: int| k <= j < s.len() ==> #[trigger] s[j].0 >= now,
    ensures
        due_count(s, now) == k,
{
    lemma_due_count(s, now);
    let d = due_count(s, now) as int;
    if d < k {
        assert(s[d].0 >= now);
        assert(s[d].0 < now);
    }
    if d > k {
        assert(s[k].0 < now);
        assert(s[k].0 >= now);
    }
}

/// Dropping sorted entries from the front keeps the rest sorted.
pub proof fn lemma_skip_sorted<T>(s: Seq<(u64, T)>, k: int)
    requires
        sorted_by_time(s),
        0 <= k <= s.len(),
    ensures
        sorted_by_time(s.skip(k)),
{
    assert forall|i: int, j: int| 0 <= i <= j < s.skip(k).len() implies s.skip(k)[i].0 <= s.skip(k)[j].0 by {
        assert(s.skip(k)[i] == s[i + k]);
        assert(s.skip(k)[j] == s[j + k]);
    }
}

/// Items ordered by the time they fall due.
pub struct Schedule<T> {
    items: Vec<(u64, T)>,
}

impl<T> View for Schedule<T> {
    type V = Seq<(u64, T)>;

    closed spec fn view(&self) -> Seq<(u64, T)> {
        self.items@
    }
}

impl<T> Schedule<T> {
    #[verifier::type_invariant]
    closed spec fn well_formed(&self) -> bool {
        sorted_by_time(self.items@)
    }

    /// An empty schedule.
    pub fn new() -> (s: Self)
        ensures
            s@ == Seq::<(u64, T)>::empty(),
            sorted_by_time(s@),
    {
        Schedule { items: Vec::new() }
    }

    /// The number of waiting items.
    pub fn len(&self) -> (n: usize)
        ensures
            n == self@.len(),
    {
        self.items.len()
    }

    /// Adds an item due at `at`, behind the items due no later.
    pub fn push(&mut self, at: u64, item: T)
        ensures
            placed(old(self)@, final(self)@, at, item),
            sorted_by_time(final(self)@),
    {
        proof {
            use_type_invariant(&*self);
        }
        let n = self.items.len();
        let mut p: usize = 0;
        while p < n && self.items[p].0 <= at
            invariant
                n == self@.len(),
                p <= n,
                self@ == old(self)@,
                forall|j: int| 0 <= j < p ==> #[trigger] self@[j].0 <= at,
            decreases n - p,
        {
            p = p + 1;
        }
        let ghost before = self@;
        proof {
            assert forall|j: int| p <= j < n implies #[trigger] before[j].0 > at by {
                assert(before[p as int].0 > at);
                assert(before[p as int].0 <= before[j].0);
            }
        }
        let mut items: Vec<(u64, T)> = Vec::new();
        std::mem::swap(&mut items, &mut self.items);
        items.insert(p, (at, item));
        proof {
            let s = items@;
            assert(s == before.insert(p as int, (at, item)));
            assert forall|i: int, j: int| 0 <= i <= j < s.len() implies s[i].0 <= s[j].0 by {
                if i < p && j < p {
                    assert(s[i] == before[i] && s[j] == before[j]);
                } else if i < p && j == p {
                    assert(s[i] == before[i]);
                } else if i < p {
                    assert(s[i] == before[i] && s[j] == before[j - 1]);
                } else if i == p && j > p {
                    assert(s[j] == before[j - 1]);
                } else if i > p {
                    assert(s[i] == before[i - 1] && s[j] == before[j - 1]);
                }
            }
            assert(placed(before, s, at, item));
        }
        self.items = items;
    }

    /// The time the earliest item falls due, if there is one.
    pub fn next_due(&self) -> (r: Option<u64>)
        ensures
            r == (if self@.len() == 0 { None } else { Some(self@[0].0) }),
    {
        if self.items.len() == 0 {
            None
        } else {
            Some(self.items[0].0)
        }
    }

    /// Removes and returns the earliest item with its time; no remaining
    /// item is due earlier.
    pub fn pop(&mut self) -> (r: Option<(u64, T)>)
        ensures
            old(self)@.len() == 0 ==> r is None && final(self)@ == old(self)@,
            old(self)@.len() > 0 ==> r == Some(old(self)@[0]) && final(self)@ == old(self)@.drop_first(),
            r matches Some(x) ==> forall|j: int| 0 <= j < final(self)@.len() ==> x.0 <= #[trigger] final(self)@[j].0,
            sorted_by_time(final(self)@),
    {
        proof {
            use_type_invariant(&*self);
        }
        if self.items.len() == 0 {
            None
        } else {
            let mut items: Vec<(u64, T)> = Vec::new();
            std::mem::swap(&mut items, &mut self.items);
            let x = items.remove(0);
            proof {
                let s = items@;
                assert(s =~= old(self)@.drop_first());
                assert forall|i: int, j: int| 0 <= i <= j < s.len() implies s[i].0 <= s[j].0 by {
                    assert(s[i] == old(self)@[i + 1] && s[j] == old(self)@[j + 1]);
                }
                assert forall|j: int| 0 <= j < s.len() implies x.0 <= #[trigger] s[j].0 by {
                    assert(s[j] == old(self)@[j + 1]);
                }
            }
            self.items = items;
            Some(x)
        }
    }

    /// Drops every waiting item.
    pub fn clear(&mut self)
        ensures
            final(self)@ == Seq::<(u64, T)>::empty(),
            sorted_by_time(final(self)@),
    {
        self.items = Vec::new();
    }
}

} // verus!
