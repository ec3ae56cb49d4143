//! Cues of an audio player: notes waiting to start on a channel once the
//! player has produced enough samples.
use crate::schedule::{sorted_by_time, Schedule};
use rand::rngs::SmallRng;
use rand::Rng;
use std::cmp::Ord;
use std::cmp::Ordering;
use vstd::std_specs::cmp::OrdSpec;
use vstd::prelude::*;

verus! {

/// Compares in the opposite order: `second` against `first`.
pub fn reversed<T: Ord>(first: &T, second: &T) -> (r: Ordering)
    ensures
        T::obeys_cmp_spec() ==> r == second.cmp_spec(first),
{
    second.cmp(first)
}

/// [`reversed`], as a partial comparison that always succeeds.
pub fn partial_reversed<T: Ord>(first: &T, second: &T) -> (r: Option<Ordering>)
    ensures
        T::obeys_cmp_spec() ==> r == Some(second.cmp_spec(first)),
        r is Some,
{
    Some(reversed(first, second))
}

/// Notes waiting to start, each with the sample count at which it starts
/// and the channel it plays on. Notes come out earliest first; notes that
/// start together come out in the order they were cued.
pub struct CueQueue<N> {
    cues: Schedule<(usize, N)>,
}

impl<N> View for CueQueue<N> {
    type V = Seq<(u64, (usize, N))>;

    closed spec fn view(&self) -> Seq<(u64, (usize, N))> {
        self.cues@
    }
}

impl<N> CueQueue<N> {
    /// An empty queue.
    pub fn new() -> (q: Self)
        ensures
            q@ == Seq::<(u64, (usize, N))>::empty(),
    {
        CueQueue { cues: Schedule::new() }
    }

    /// The number of waiting notes.
    pub fn len(&self) -> (n: usize)
        ensures
            n == self@.len(),
    {
        self.cues.len()
    }

    /// Cues a note to start on `channel` once `start_at` samples have played.
    pub fn cue(&mut self, start_at: u64, channel: usize, note: N)
        ensures
            crate::schedule::placed(old(self)@, final(self)@, start_at, (channel, note)),
            sorted_by_time(final(self)@),
    {
        self.cues.push(start_at, (channel, note));
    }

    /// Takes the earliest note off the queue if it starts at or before
    /// sample `cycles`, with its channel.
    pub fn due(&mut self, cycles: u64) -> (r: Option<(usize, N)>)
        ensures
            old(self)@.len() > 0 && old(self)@[0].0 <= cycles ==> r == Some(old(self)@[0].1)
                && final(self)@ == old(self)@.drop_first(),
            !(old(self)@.len() > 0 && old(self)@[0].0 <= cycles) ==> r is None && final(self)@ == old(self)@,
    {
        match self.cues.next_due() {
            Some(at) => {
                if at <= cycles {
                    match self.cues.pop() {
                        Some((_, cue)) => Some(cue),
                        None => None,
                    }
                } else {
                    None
                }
            },
            None => None,
        }
    }

    /// Drops every waiting note.
    pub fn clear(&mut self)
        ensures
            final(self)@ == Seq::<(u64, (usize, N))>::empty(),
    {
        self.cues.clear();
    }
}

/// The generator of a noise channel's randomness.
#[verifier::external_type_specification]
#[verifier::external_body]
pub struct ExSmallRng(SmallRng);

/// Calls `Rng::gen_range` on the half-open range `low..high`, which returns
/// a number in that range (and panics on an empty range).
#[verifier::external_body]
fn gen_range(rng: &mut SmallRng, low: u32, high: u32) -> (r: u32)
    requires
        low < high,
    ensures
        low <= r < high,
{
    rng.gen_range(low..high)
}

/// The square wave behind a noise channel: it flips between up and down
/// after a random number of samples, drawn afresh at every flip from
/// `low..high`.
pub struct NoiseClock {
    up: bool,
    next_flip: u32,
    cycle: u32,
    low: u32,
    high: u32,
}

/// The abstract state of a noise clock.
pub ghost struct NoiseView {
    pub up: bool,
    /// Samples left before the next flip.
    pub next_flip: u32,
    /// Samples played so far.
    pub cycle: u32,
    pub low: u32,
    pub high: u32,
}

impl View for NoiseClock {
    type V = NoiseView;

    closed spec fn view(&self) -> NoiseView {
        NoiseView { up: self.up, next_flip: self.next_flip, cycle: self.cycle, low: self.low, high: self.high }
    }
}

/// One sample of a noise clock, from `before` to `after`: the count of
/// samples goes up by one; at a flip the wave changes side and the next
/// wait is some number in `low..high`; otherwise the wait shortens by one.
pub open spec fn noise_step(before: NoiseView, after: NoiseView) -> bool {
    &&& after.low == before.low
    &&& after.high == before.high
    &&& after.cycle == before.cycle + 1
    &&& after.up == (if before.next_flip == 0 { !before.up } else { before.up })
    &&& before.next_flip == 0 ==> before.low <= after.next_flip < before.high
    &&& before.next_flip != 0 ==> after.next_flip == before.next_flip - 1
}

impl NoiseClock {
    #[verifier::type_invariant]
    closed spec fn well_formed(&self) -> bool {
        self.low < self.high
    }

    /// A clock that starts down and flips at the first sample; flips come
    /// every `low` to `high - 1` samples after that.
    pub fn new(low: u32, high: u32) -> (c: Self)
        requires
            low < high,
        ensures
            c@ == (NoiseView { up: false, next_flip: 0, cycle: 0, low, high }),
    {
        NoiseClock { up: false, next_flip: 0, cycle: 0, low, high }
    }

    /// Whether the wave is up.
    pub fn up(&self) -> (b: bool)
        ensures
            b == self@.up,
    {
        self.up
    }

    /// Samples played so far.
    pub fn cycle(&self) -> (n: u32)
        ensures
            n == self@.cycle,
    {
        self.cycle
    }

    /// Moves on one sample: at a flip the wave changes side and the wait
    /// for the next flip is drawn from `low..high`; otherwise the wait
    /// shortens by one.
    pub fn next_cycle(&mut self, rng: &mut SmallRng)
        requires
            old(self)@.cycle < u32::MAX,
        ensures
            noise_step(old(self)@, final(self)@),
    {
        proof {
            use_type_invariant(&*self);
        }
        if self.next_flip == 0 {
            self.up = !self.up;
            self.next_flip = gen_range(rng, self.low, self.high);
        } else {
            self.next_flip = self.next_flip - 1;
        }
        self.cycle = self.cycle + 1;
    }
}

/// Law: every wait of a noise clock is shorter than `high` samples, and
/// the wave flips exactly when a wait runs out.
pub proof fn law_noise_waits_stay_short(before: NoiseView, after: NoiseView)
    requires
        noise_step(before, after),
        before.next_flip < before.high,
    ensures
        after.next_flip < after.high,
        (after.up != before.up) == (before.next_flip == 0),
{
}

/// Law: notes come out of the queue in order of their start. In a queue
/// sorted by start, as cueing keeps it, the note that comes out first starts
/// no later than any other, and the rest stays sorted.
pub proof fn law_cues_come_out_in_time_order<N>(s: Seq<(u64, (usize, N))>)
    requires
        sorted_by_time(s),
        s.len() > 0,
    ensures
        forall|j: int| 0 <= j < s.len() ==> s[0].0 <= #[trigger] s[j].0,
        sorted_by_time(s.drop_first()),
{
    assert forall|i: int, j: int| 0 <= i <= j < s.drop_first().len() implies s.drop_first()[i].0 <= s.drop_first()[j].0 by {
        assert(s.drop_first()[i] == s[i + 1]);
        assert(s.drop_first()[j] == s[j + 1]);
    }
}

} // verus!
