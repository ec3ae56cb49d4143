//! The rules of a game in progress: the score, the score multiplier, the
//! fruit collected on this level, and what happens on failing or reaching
//! a door.
use vstd::prelude::*;

verus! {

/// Nanoseconds in a second.
pub const SECOND: u64 = 1_000_000_000;

/// The short pause before the next level, or a retry.
pub const SHORT_PAUSE: u64 = 500_000_000;

/// The long pause before the game is over.
pub const LONG_PAUSE: u64 = 2 * SECOND;

/// The highest multiplier.
pub const MAX_MULTIPLIER: u32 = 5;

/// How many fruit make a fruit salad, which raises the multiplier.
pub const FRUIT_SALAD: u32 = 5;

/// Points scored.
#[derive(Clone, Copy, Debug, PartialEq, Eq, Structural)]
pub enum Score {
    /// Plain points, times the multiplier.
    Points(u32),
    /// Points for a fruit, times the multiplier; the fruit counts towards a salad.
    Fruit(u32),
    /// The score doubles.
    Double,
}

/// The game ended with this score.
#[derive(Clone, Copy, Debug, PartialEq, Eq)]
pub struct GameOver(pub u32);

/// The hero reached the door to the named level.
#[derive(Clone, Debug, PartialEq, Eq)]
pub struct ReachedDoor(pub String);

/// The hero failed the level.
#[derive(Clone, Copy, Debug, PartialEq, Eq)]
pub struct Fail;

/// The flagpole with this entity id was collected.
#[derive(Clone, Copy, Debug, PartialEq, Eq)]
pub struct FlagpoleCollected {
    pub id: u64,
}

/// The time for the level ran out.
#[derive(Clone, Copy, Debug, PartialEq, Eq)]
pub struct TimeLimitExpired;

/// Every sound that is playing or due stops.
#[derive(Clone, Copy, Debug, PartialEq, Eq)]
pub struct ClearAudio();

/// What the rules react to.
#[derive(Clone, Debug)]
pub enum GameInput {
    Score(Score),
    Fail,
    /// A door to the named level was reached; `exists` tells whether the
    /// game has a level of that name.
    ReachedDoor { next_level: String, exists: bool },
    IncreaseMultiplier,
    /// The named level starts.
    NewLevel(String),
}

/// What the rules ask of the game.
#[derive(Clone, Debug)]
pub enum GameAction {
    /// Raise the multiplier (as an event of its own).
    IncreaseMultiplier,
    /// Show that a fruit salad was made.
    FruitSalad,
    /// Pause the world for this many nanoseconds.
    Pause(u64),
    /// After `delay` nanoseconds, start the named level.
    NewLevel { delay: u64, level: String },
    /// After `delay` nanoseconds, end the game.
    GameOver { delay: u64, over: GameOver },
    /// Build the world of the named level now.
    BuildLevel(String),
}

/// Score, multiplier, fruit collected on this level, and the level's name.
pub struct Scoreboard {
    score: u32,
    multiplier: u32,
    fruit_collected: u32,
    current_level: String,
}

/// The abstract state of a scoreboard.
pub ghost struct ScoreboardView {
    pub score: u32,
    pub multiplier: u32,
    pub fruit_collected: u32,
    pub current_level: Seq<char>,
}

impl View for Scoreboard {
    type V = ScoreboardView;

    closed spec fn view(&self) -> ScoreboardView {
        ScoreboardView {
            score: self.score,
            multiplier: self.multiplier,
            fruit_collected: self.fruit_collected,
            current_level: self.current_level@,
        }
    }
}

/// The multiplier after a raise: one more, at most [`MAX_MULTIPLIER`].
pub open spec fn raised(m: u32) -> u32 {
    if m + 1 > MAX_MULTIPLIER {
        MAX_MULTIPLIER
    } else {
        (m + 1) as u32
    }
}

/// Whether the rules can take this input without a number overflowing.
pub open spec fn fits(s: ScoreboardView, input: GameInput) -> bool {
    match input {
        GameInput::Score(Score::Points(p)) => s.score + p * s.multiplier <= u32::MAX,
        GameInput::Score(Score::Fruit(p)) => s.score + p * s.multiplier <= u32::MAX && s.fruit_collected < u32::MAX,
        GameInput::Score(Score::Double) => s.score * 2 <= u32::MAX,
        _ => true,
    }
}

/// The scoreboard after an input.
pub open spec fn after(s: ScoreboardView, input: GameInput) -> ScoreboardView {
    match input {
        GameInput::Score(Score::Points(p)) => ScoreboardView { score: (s.score + p * s.multiplier) as u32, ..s },
        GameInput::Score(Score::Fruit(p)) => ScoreboardView {
            score: (s.score + p * s.multiplier) as u32,
            fruit_collected: (s.fruit_collected + 1) as u32,
            ..s
        },
        GameInput::Score(Score::Double) => ScoreboardView { score: (s.score * 2) as u32, ..s },
        GameInput::Fail => if s.multiplier > 1 {
            ScoreboardView { multiplier: 1, ..s }
        } else {
            s
        },
        GameInput::ReachedDoor { .. } => s,
        GameInput::IncreaseMultiplier => ScoreboardView { multiplier: raised(s.multiplier), ..s },
        GameInput::NewLevel(level) => ScoreboardView { current_level: level@, fruit_collected: 0, ..s },
    }
}

/// Whether `r` is what the rules ask for on an input, given the state
/// before it: a salad on the fifth fruit; after a failure with a raised
/// multiplier a short pause and a retry of the level, otherwise a long
/// pause and the end of the game; at a door to a level that exists a raise,
/// a short pause and that level, at any other door a long pause and the
/// end; a level's world built when it starts.
pub open spec fn asks(s: ScoreboardView, input: GameInput, r: Seq<GameAction>) -> bool {
    match input {
        GameInput::Score(Score::Fruit(_)) => if s.fruit_collected + 1 == FRUIT_SALAD {
            r.len() == 2 && r[0] is IncreaseMultiplier && r[1] is FruitSalad
        } else {
            r.len() == 0
        },
        GameInput::Score(_) => r.len() == 0,
        GameInput::Fail => if s.multiplier > 1 {
            &&& r.len() == 2
            &&& r[0] == GameAction::Pause(SHORT_PAUSE)
            &&& r[1] matches GameAction::NewLevel { delay, level } && delay == SHORT_PAUSE && level@ == s.current_level
        } else {
            &&& r.len() == 2
            &&& r[0] == GameAction::Pause(LONG_PAUSE)
            &&& r[1] matches GameAction::GameOver { delay, over } && delay == LONG_PAUSE && over == GameOver(s.score)
        },
        GameInput::ReachedDoor { next_level, exists } => if exists {
            &&& r.len() == 3
            &&& r[0] is IncreaseMultiplier
            &&& r[1] == GameAction::Pause(SHORT_PAUSE)
            &&& r[2] matches GameAction::NewLevel { delay, level } && delay == SHORT_PAUSE && level@ == next_level@
        } else {
            &&& r.len() == 2
            &&& r[0] == GameAction::Pause(LONG_PAUSE)
            &&& r[1] matches GameAction::GameOver { delay, over } && delay == LONG_PAUSE && over == GameOver(s.score)
        },
        GameInput::IncreaseMultiplier => r.len() == 0,
        GameInput::NewLevel(level) => r.len() == 1 && (r[0] matches GameAction::BuildLevel(l) && l@ == level@),
    }
}

impl Scoreboard {
    #[verifier::type_invariant]
    closed spec fn well_formed(&self) -> bool {
        1 <= self.multiplier <= MAX_MULTIPLIER
    }

    /// The multiplier stays between 1 and [`MAX_MULTIPLIER`].
    pub fn multiplier(&self) -> (m: u32)
        ensures
            m == self@.multiplier,
            1 <= m <= MAX_MULTIPLIER,
    {
        proof {
            use_type_invariant(self);
        }
        self.multiplier
    }

    /// The score.
    pub fn score(&self) -> (s: u32)
        ensures
            s == self@.score,
    {
        self.score
    }

    /// The fruit collected on this level.
    pub fn fruit_collected(&self) -> (n: u32)
        ensures
            n == self@.fruit_collected,
    {
        self.fruit_collected
    }

    /// The name of the level being played.
    pub fn current_level(&self) -> (l: &String)
        ensures
            l@ == self@.current_level,
    {
        &self.current_level
    }

    /// A new game starting on the named level: no score, multiplier 1.
    pub fn new(level: String) -> (b: Self)
        ensures
            b@ == (ScoreboardView { score: 0, multiplier: 1, fruit_collected: 0, current_level: level@ }),
    {
        Scoreboard { score: 0, multiplier: 1, fruit_collected: 0, current_level: level }
    }

    /// Applies the rules to an input and returns what they ask for.
    pub fn on_event(&mut self, input: GameInput) -> (r: Vec<GameAction>)
        requires
            fits(old(self)@, input),
        ensures
            final(self)@ == after(old(self)@, input),
            asks(old(self)@, input, r@),
    {
        proof {
            use_type_invariant(&*self);
        }
        let mut r: Vec<GameAction> = Vec::new();
        match input {
            GameInput::Score(Score::Points(p)) => {
                self.score = self.score + p * self.multiplier;
            },
            GameInput::Score(Score::Fruit(p)) => {
                self.score = self.score + p * self.multiplier;
                self.fruit_collected = self.fruit_collected + 1;
                if self.fruit_collected == FRUIT_SALAD {
                    r.push(GameAction::IncreaseMultiplier);
                    r.push(GameAction::FruitSalad);
                }
            },
            GameInput::Score(Score::Double) => {
                self.score = self.score * 2;
            },
            GameInput::Fail => {
                if self.multiplier > 1 {
                    self.multiplier = 1;
                    r.push(GameAction::Pause(SHORT_PAUSE));
                    r.push(GameAction::NewLevel { delay: SHORT_PAUSE, level: self.current_level.clone() });
                } else {
                    r.push(GameAction::Pause(LONG_PAUSE));
                    r.push(GameAction::GameOver { delay: LONG_PAUSE, over: GameOver(self.score) });
                }
            },
            GameInput::ReachedDoor { next_level, exists } => {
                if exists {
                    r.push(GameAction::IncreaseMultiplier);
                    r.push(GameAction::Pause(SHORT_PAUSE));
                    r.push(GameAction::NewLevel { delay: SHORT_PAUSE, level: next_level });
                } else {
                    r.push(GameAction::Pause(LONG_PAUSE));
                    r.push(GameAction::GameOver { delay: LONG_PAUSE, over: GameOver(self.score) });
                }
            },
            GameInput::IncreaseMultiplier => {
                let m = if self.multiplier + 1 > MAX_MULTIPLIER {
                    MAX_MULTIPLIER
                } else {
                    self.multiplier + 1
                };
                self.multiplier = m;
            },
            GameInput::NewLevel(level) => {
                let copy = level.clone();
                self.current_level = level;
                self.fruit_collected = 0;
                r.push(GameAction::BuildLevel(copy));
            },
        }
        r
    }
}

/// Law: whatever the input, the multiplier stays between 1 and
/// [`MAX_MULTIPLIER`]: a raise adds one up to that bound, a failure with a
/// raised multiplier sets it back to 1, and nothing else changes it. The
/// score never goes down on an input whose sums fit.
pub proof fn law_multiplier_bounded_score_monotone(s: ScoreboardView, input: GameInput)
    requires
        1 <= s.multiplier <= MAX_MULTIPLIER,
    ensures
        1 <= after(s, input).multiplier <= MAX_MULTIPLIER,
        input is IncreaseMultiplier ==> after(s, input).multiplier == (if s.multiplier + 1 > MAX_MULTIPLIER {
            MAX_MULTIPLIER as int
        } else {
            s.multiplier + 1
        }),
        input is Fail && s.multiplier > 1 ==> after(s, input).multiplier == 1,
        !(input is IncreaseMultiplier) && !(input is Fail) ==> after(s, input).multiplier == s.multiplier,
        fits(s, input) ==> after(s, input).score >= s.score,
{
    match input {
        GameInput::Score(Score::Points(p)) => {
            assert(p * s.multiplier >= 0) by (nonlinear_arith)
                requires
                    s.multiplier >= 1,
            ;
        },
        GameInput::Score(Score::Fruit(p)) => {
            assert(p * s.multiplier >= 0) by (nonlinear_arith)
                requires
                    s.multiplier >= 1,
            ;
        },
        _ => {},
    }
}

/// Law: collecting fruit raises the multiplier exactly when the fifth fruit
/// of a level is collected.
pub proof fn law_fifth_fruit_makes_a_salad(s: ScoreboardView, points: u32, r: Seq<GameAction>)
    requires
        fits(s, GameInput::Score(Score::Fruit(points))),
        asks(s, GameInput::Score(Score::Fruit(points)), r),
    ensures
        (exists|i: int| 0 <= i < r.len() && #[trigger] r[i] is IncreaseMultiplier) <==> after(
            s,
            GameInput::Score(Score::Fruit(points)),
        ).fruit_collected == FRUIT_SALAD,
{
    if s.fruit_collected + 1 == FRUIT_SALAD {
        assert(r[0] is IncreaseMultiplier);
    }
}

} // verus!
