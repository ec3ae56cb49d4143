//! The high-score table, and the screen on which a new high score is named.
use crate::controller::{Input, KEY_BACKSPACE, KEY_NUM1, KEY_NUM2, KEY_RETURN};
use crate::hero::PandaType;
use crate::strings::{push_str, truncate};
use vstd::prelude::*;
use vstd::utf8::{
    decode_utf8, decode_utf8_split, encode_utf8, encode_utf8_decode_utf8, encode_utf8_first_scalar,
    encode_utf8_valid_utf8, decode_utf8_encode_utf8, is_char_boundary, is_char_boundary_iff_not_is_continuation_byte,
    is_char_boundary_start_end_of_seq, valid_utf8_split,
};

verus! {

/// How many scores the table keeps.
pub const TABLE_SIZE: usize = 10;

/// The index that says the latest score did not make the table.
pub const NOT_PLACED: usize = 99;

/// The longest name, in characters.
pub const NAME_LENGTH: usize = 4;

/// One line of the table.
#[derive(Clone, Debug, PartialEq, Eq)]
pub struct HiScore {
    pub name: String,
    pub score: u32,
}

impl View for HiScore {
    type V = (Seq<char>, u32);

    open spec fn view(&self) -> (Seq<char>, u32) {
        (self.name@, self.score)
    }
}

/// The views of a list of scores.
pub open spec fn table_view(s: Seq<HiScore>) -> Seq<(Seq<char>, u32)> {
    s.map_values(|h: HiScore| h@)
}

/// The first position whose score `latest` beats, if any.
pub open spec fn first_beaten(latest: u32, s: Seq<(Seq<char>, u32)>) -> Option<nat>
    decreases s.len(),
{
    if s.len() == 0 {
        None
    } else if latest > s[0].1 {
        Some(0)
    } else {
        match first_beaten(latest, s.drop_first()) {
            Some(i) => Some(i + 1),
            None => None,
        }
    }
}

/// Where the latest score goes in the table: the first position whose score
/// it beats, or [`NOT_PLACED`].
pub open spec fn placement(latest: u32, s: Seq<(Seq<char>, u32)>) -> int {
    match first_beaten(latest, s) {
        Some(i) => i as int,
        None => NOT_PLACED as int,
    }
}

/// `first_beaten` finds the first position whose score is beaten.
pub proof fn lemma_first_beaten(latest: u32, s: Seq<(Seq<char>, u32)>)
    ensures
        match first_beaten(latest, s) {
            Some(i) => i < s.len() && latest > s[i as int].1 && forall|j: int| 0 <= j < i ==> latest <= #[trigger] s[j].1,
            None => forall|j: int| 0 <= j < s.len() ==> latest <= #[trigger] s[j].1,
        },
    decreases s.len(),
{
    if s.len() > 0 && !(latest > s[0].1) {
        lemma_first_beaten(latest, s.drop_first());
        match first_beaten(latest, s.drop_first()) {
            Some(i) => {
                assert forall|j: int| 0 <= j < i + 1 implies latest <= #[trigger] s[j].1 by {
                    if j > 0 {
                        assert(s[j] == s.drop_first()[j - 1]);
                    }
                }
            },
            None => {
                assert forall|j: int| 0 <= j < s.len() implies latest <= #[trigger] s[j].1 by {
                    if j > 0 {
                        assert(s[j] == s.drop_first()[j - 1]);
                    }
                }
            },
        }
    }
}

/// The position in the table that a new score takes: the first one whose
/// score it beats, or [`NOT_PLACED`] if it beats none.
pub fn new_hiscore_index(latest_score: u32, scores: &Vec<HiScore>) -> (r: usize)
    ensures
        r == placement(latest_score, table_view(scores@)),
{
    let ghost s = table_view(scores@);
    proof {
        lemma_first_beaten(latest_score, s);
    }
    let n = scores.len();
    let mut i: usize = 0;
    while i < n
        invariant
            n == scores@.len(),
            s == table_view(scores@),
            i <= n,
            forall|j: int| 0 <= j < i ==> latest_score <= #[trigger] s[j].1,
        decreases n - i,
    {
        if latest_score > scores[i].score {
            proof {
                lemma_first_beaten(latest_score, s);
                assert(s[i as int] == scores@[i as int]@);
                match first_beaten(latest_score, s) {
                    Some(k) => {
                        if k < i {
                            assert(latest_score <= s[k as int].1);
                        }
                        if k > i {
                            assert(latest_score <= s[i as int].1);
                        }
                    },
                    None => {
                        assert(latest_score <= s[i as int].1);
                    },
                }
            }
            return i;
        }
        i = i + 1;
    }
    proof {
        if let Some(k) = first_beaten(latest_score, s) {
            assert(latest_score <= s[k as int].1);
        }
    }
    NOT_PLACED
}

/// A copy of a table.
fn copy_table(scores: &Vec<HiScore>) -> (r: Vec<HiScore>)
    ensures
        table_view(r@) == table_view(scores@),
{
    let mut r: Vec<HiScore> = Vec::new();
    let n = scores.len();
    let mut i: usize = 0;
    while i < n
        invariant
            n == scores@.len(),
            i <= n,
            table_view(r@) == table_view(scores@).take(i as int),
        decreases n - i,
    {
        let line = HiScore { name: scores[i].name.clone(), score: scores[i].score };
        assert(line@ == scores@[i as int]@);
        r.push(line);
        assert(table_view(r@) =~= table_view(scores@).take(i as int).push(scores@[i as int]@));
        i = i + 1;
        assert(table_view(r@) =~= table_view(scores@).take(i as int));
    }
    assert(table_view(scores@).take(n as int) =~= table_view(scores@));
    r
}

/// The table after a game that scored `latest`: a new, unnamed line goes
/// in at its position and the table keeps its first [`TABLE_SIZE`] lines.
pub open spec fn table_after(latest: u32, s: Seq<(Seq<char>, u32)>) -> Seq<(Seq<char>, u32)> {
    let i = placement(latest, s);
    if i < TABLE_SIZE {
        let t = s.insert(i, (Seq::<char>::empty(), latest));
        if t.len() > TABLE_SIZE {
            t.take(TABLE_SIZE as int)
        } else {
            t
        }
    } else {
        s
    }
}

/// A new game was asked for, as the given panda.
#[derive(Clone, Copy, Debug, PartialEq, Eq)]
pub struct NewGame(pub PandaType);

/// The high scores were asked for.
#[derive(Clone, Copy, Debug, PartialEq, Eq)]
pub struct ShowHighScores();

/// The title screen was asked for.
#[derive(Clone, Copy, Debug, PartialEq, Eq)]
pub struct ShowTitleScreen();

/// The table to keep from now on.
#[derive(Clone, Debug, PartialEq, Eq)]
pub struct UpdateHiScores(pub Vec<HiScore>);

/// What a screen asks the game to do.
#[derive(Clone, Debug, PartialEq, Eq)]
pub enum ScreenEvent {
    NewGame(NewGame),
    ShowHighScores(ShowHighScores),
    ShowTitleScreen(ShowTitleScreen),
    UpdateHiScores(UpdateHiScores),
}

/// The high-score screen: the table and where the latest score went.
pub struct Scores {
    new_hiscore_index: usize,
    scores: Vec<HiScore>,
}

impl View for Scores {
    type V = (usize, Seq<(Seq<char>, u32)>);

    closed spec fn view(&self) -> (usize, Seq<(Seq<char>, u32)>) {
        (self.new_hiscore_index, table_view(self.scores@))
    }
}

/// What happens to a name when text is typed: the text is added and the
/// name keeps the characters of its first [`NAME_LENGTH`] bytes in UTF-8.
pub open spec fn typed(name: Seq<char>, text: Seq<char>) -> Seq<char> {
    let bytes = encode_utf8(name + text);
    if bytes.len() > NAME_LENGTH {
        decode_utf8(bytes.take(NAME_LENGTH as int))
    } else {
        name + text
    }
}

/// Whether the first [`NAME_LENGTH`] bytes of a name with text added end
/// between two characters, as they must for the name to be cut there.
pub open spec fn typing_fits(name: Seq<char>, text: Seq<char>) -> bool {
    let bytes = encode_utf8(name + text);
    bytes.len() <= NAME_LENGTH || is_char_boundary(bytes, NAME_LENGTH as int)
}

/// The UTF-8 encoding of two pieces of text is the encoding of the first
/// followed by that of the second.
proof fn lemma_encode_concat(a: Seq<char>, b: Seq<char>)
    ensures
        encode_utf8(a + b) == encode_utf8(a) + encode_utf8(b),
    decreases a.len(),
{
    if a.len() == 0 {
        assert(a + b =~= b);
        assert(encode_utf8(a) + encode_utf8(b) =~= encode_utf8(b));
    } else {
        lemma_encode_concat(a.drop_first(), b);
        assert((a + b).drop_first() =~= a.drop_first() + b);
        assert((a + b)[0] == a[0]);
        assert(encode_utf8(a + b) =~= encode_utf8(a) + encode_utf8(b));
    }
}

/// In the encoding of two pieces of text, the bytes of the second start a character.
proof fn lemma_prefix_boundary(a: Seq<char>, b: Seq<char>)
    ensures
        is_char_boundary(encode_utf8(a + b), encode_utf8(a).len() as int),
    decreases a.len(),
{
    broadcast use encode_utf8_valid_utf8;

    lemma_encode_concat(a, b);
    if a.len() > 0 {
        let bytes = encode_utf8(a + b);
        encode_utf8_first_scalar(a + b);
        assert((a + b).drop_first() =~= a.drop_first() + b);
        assert((a + b)[0] == a[0]);
        lemma_encode_concat(a.drop_first(), b);
        lemma_prefix_boundary(a.drop_first(), b);
        assert(vstd::utf8::pop_first_scalar(bytes) =~= encode_utf8(a.drop_first() + b));
    }
}

impl Scores {
    /// The line being named is in the table whenever the latest score made it.
    pub closed spec fn wf(&self) -> bool {
        self.new_hiscore_index < TABLE_SIZE ==> self.new_hiscore_index < self.scores@.len()
    }

    /// The screen after a game that scored `latest_score`, given the table.
    pub fn new(latest_score: u32, scores: Vec<HiScore>) -> (r: Self)
        ensures
            r.wf(),
            r@.0 == placement(latest_score, table_view(scores@)),
            r@.1 == table_after(latest_score, table_view(scores@)),
    {
        let mut scores = scores;
        let new_hiscore_index = new_hiscore_index(latest_score, &scores);
        let ghost s = table_view(scores@);
        proof {
            lemma_first_beaten(latest_score, s);
        }
        if new_hiscore_index < TABLE_SIZE {
            proof {
                assert(first_beaten(latest_score, s) is Some);
            }
            scores.insert(new_hiscore_index, HiScore { name: String::new(), score: latest_score });
            proof {
                assert(table_view(scores@) =~= s.insert(new_hiscore_index as int, (Seq::<char>::empty(), latest_score)));
            }
            scores.truncate(TABLE_SIZE);
            proof {
                let t = s.insert(new_hiscore_index as int, (Seq::<char>::empty(), latest_score));
                if t.len() > TABLE_SIZE {
                    assert(table_view(scores@) =~= t.take(TABLE_SIZE as int));
                } else {
                    assert(table_view(scores@) =~= t);
                }
                assert(scores@[new_hiscore_index as int].name@ == Seq::<char>::empty());
            }
        }
        Scores { new_hiscore_index, scores }
    }

    /// The table.
    pub fn scores(&self) -> (r: &Vec<HiScore>)
        ensures
            table_view(r@) == self@.1,
    {
        &self.scores
    }

    /// Where the latest score went, or [`NOT_PLACED`].
    pub fn new_hiscore_index(&self) -> (r: usize)
        ensures
            r == self@.0,
    {
        self.new_hiscore_index
    }

    /// Adds typed text to the name of the new line, which keeps its first
    /// [`NAME_LENGTH`] bytes; the cut must fall between characters.
    pub fn update_name(&mut self, text: &String)
        requires
            old(self).wf(),
            old(self)@.0 < old(self)@.1.len(),
            typing_fits(old(self)@.1[old(self)@.0 as int].0, text@),
        ensures
            final(self).wf(),
            final(self)@.0 == old(self)@.0,
            final(self)@.1 == old(self)@.1.update(
                old(self)@.0 as int,
                (typed(old(self)@.1[old(self)@.0 as int].0, text@), old(self)@.1[old(self)@.0 as int].1),
            ),
    {
        let i = self.new_hiscore_index;
        let ghost before = self.scores@[i as int];
        let mut line = HiScore { name: String::new(), score: 0 };
        std::mem::swap(&mut line, &mut self.scores[i]);
        push_str(&mut line.name, text.as_str());
        truncate(&mut line.name, NAME_LENGTH);
        std::mem::swap(&mut line, &mut self.scores[i]);
        proof {
            assert(table_view(self.scores@) =~= old(self)@.1.update(
                i as int,
                (typed(before.name@, text@), before.score),
            ));
        }
    }

    /// Removes the last character of the new line's name, which must be a
    /// single byte: the name loses its last byte.
    pub fn trim_name(&mut self)
        requires
            old(self).wf(),
            old(self)@.0 < old(self)@.1.len(),
            old(self)@.1[old(self)@.0 as int].0.len() > 0,
            (old(self)@.1[old(self)@.0 as int].0.last() as u32) < 0x80,
        ensures
            final(self).wf(),
            final(self)@.0 == old(self)@.0,
            final(self)@.1 == old(self)@.1.update(
                old(self)@.0 as int,
                (old(self)@.1[old(self)@.0 as int].0.drop_last(), old(self)@.1[old(self)@.0 as int].1),
            ),
    {
        broadcast use encode_utf8_valid_utf8, encode_utf8_decode_utf8;

        let i = self.new_hiscore_index;
        let ghost before = self.scores@[i as int];
        let ghost name = before.name@;
        let mut line = HiScore { name: String::new(), score: 0 };
        std::mem::swap(&mut line, &mut self.scores[i]);
        let len = line.name.as_str().as_bytes().len();
        proof {
            assert(line.name@ == name);
            assert(len == encode_utf8(name).len());
            let rest = name.drop_last();
            let last = seq![name.last()];
            assert(rest + last =~= name);
            lemma_encode_concat(rest, last);
            lemma_prefix_boundary(rest, last);
            assert(last.drop_first() =~= Seq::<char>::empty());
            assert(encode_utf8(last.drop_first()) =~= Seq::<u8>::empty());
            assert(encode_utf8(last) =~= vstd::utf8::encode_scalar(name.last() as u32));
            assert(encode_utf8(last).len() == 1);
            assert(encode_utf8(name).take(len - 1) =~= encode_utf8(rest));
        }
        truncate(&mut line.name, len - 1);
        std::mem::swap(&mut line, &mut self.scores[i]);
        proof {
            assert(table_view(self.scores@) =~= old(self)@.1.update(
                i as int,
                (before.name@.drop_last(), before.score),
            ));
        }
    }

    /// Reacts to the player's input. While the latest score has no line of
    /// its own, `1` and `2` start a new game as the giant or the red panda.
    /// Otherwise typed text names the new line, backspace removes the last
    /// character, and return keeps the table and goes back to the title.
    pub fn on_event(&mut self, input: &Input) -> (r: Vec<ScreenEvent>)
        requires
            old(self).wf(),
            old(self)@.0 <= TABLE_SIZE ==> (input matches Input::TextInput { text } ==> old(self)@.0 < old(self)@.1.len()
                && typing_fits(old(self)@.1[old(self)@.0 as int].0, text@)),
            old(self)@.0 <= TABLE_SIZE ==> (input matches Input::KeyDown { key, .. } ==> (key == KEY_BACKSPACE ==> old(self)@.0 < old(self)@.1.len()
                && old(self)@.1[old(self)@.0 as int].0.len() > 0
                && (old(self)@.1[old(self)@.0 as int].0.last() as u32) < 0x80)),
        ensures
            final(self).wf(),
            final(self)@.0 == old(self)@.0,
            raises(old(self)@, *input, r@),
            final(self)@.1 == table_after_input(old(self)@, *input),
    {
        let mut r: Vec<ScreenEvent> = Vec::new();
        if self.new_hiscore_index > TABLE_SIZE {
            match input {
                Input::KeyDown { key, .. } => {
                    if *key == KEY_NUM1 {
                        r.push(ScreenEvent::NewGame(NewGame(PandaType::GiantPanda)));
                    } else if *key == KEY_NUM2 {
                        r.push(ScreenEvent::NewGame(NewGame(PandaType::RedPanda)));
                    }
                },
                _ => {},
            }
        } else {
            match input {
                Input::TextInput { text } => {
                    self.update_name(text);
                },
                Input::KeyDown { key, .. } => {
                    if *key == KEY_BACKSPACE {
                        self.trim_name();
                    } else if *key == KEY_RETURN {
                        let table = copy_table(&self.scores);
                        r.push(ScreenEvent::UpdateHiScores(UpdateHiScores(table)));
                        r.push(ScreenEvent::ShowTitleScreen(ShowTitleScreen()));
                    }
                },
                _ => {},
            }
        }
        proof {
            if r@.len() == 1 {
                assert(r@ =~= seq![r@[0]]);
            }
        }
        r
    }
}

/// Whether `r` is what the screen raises for an input: a new game on `1`
/// or `2` while the latest score has no line; the table as it stands and
/// then the title screen on return while it has one; nothing otherwise.
pub open spec fn raises(s: (usize, Seq<(Seq<char>, u32)>), input: Input, r: Seq<ScreenEvent>) -> bool {
    if s.0 > TABLE_SIZE {
        r == match input {
            Input::KeyDown { key, .. } => if key == KEY_NUM1 {
                seq![ScreenEvent::NewGame(NewGame(PandaType::GiantPanda))]
            } else if key == KEY_NUM2 {
                seq![ScreenEvent::NewGame(NewGame(PandaType::RedPanda))]
            } else {
                Seq::<ScreenEvent>::empty()
            },
            _ => Seq::<ScreenEvent>::empty(),
        }
    } else {
        if input matches Input::KeyDown { key, .. } && key == KEY_RETURN {
            &&& r.len() == 2
            &&& r[0] matches ScreenEvent::UpdateHiScores(UpdateHiScores(t)) && table_view(t@) == s.1
            &&& r[1] == ScreenEvent::ShowTitleScreen(ShowTitleScreen())
        } else {
            r.len() == 0
        }
    }
}

/// The table after an input.
pub open spec fn table_after_input(s: (usize, Seq<(Seq<char>, u32)>), input: Input) -> Seq<(Seq<char>, u32)> {
    if s.0 > TABLE_SIZE {
        s.1
    } else {
        match input {
            Input::TextInput { text } => s.1.update(s.0 as int, (typed(s.1[s.0 as int].0, text@), s.1[s.0 as int].1)),
            Input::KeyDown { key, .. } => if key == KEY_BACKSPACE {
                s.1.update(s.0 as int, (s.1[s.0 as int].0.drop_last(), s.1[s.0 as int].1))
            } else {
                s.1
            },
            _ => s.1,
        }
    }
}

/// Scores never increase down the table.
pub open spec fn sorted_down(s: Seq<(Seq<char>, u32)>) -> bool {
    forall|i: int, j: int| 0 <= i <= j < s.len() ==> s[i].1 >= s[j].1
}

/// Law: a table ordered from the highest score down stays so when a new
/// score goes in, and a table of at most [`TABLE_SIZE`] lines never grows
/// beyond that; a new score goes in exactly when it beats a line.
pub proof fn law_table_stays_ordered_and_bounded(latest: u32, s: Seq<(Seq<char>, u32)>)
    ensures
        sorted_down(s) ==> sorted_down(table_after(latest, s)),
        s.len() <= TABLE_SIZE ==> table_after(latest, s).len() <= TABLE_SIZE,
        (placement(latest, s) < TABLE_SIZE) == (exists|j: int| 0 <= j < s.len() && j < TABLE_SIZE && latest > #[trigger] s[j].1),
{
    lemma_first_beaten(latest, s);
    let p = placement(latest, s);
    if p < TABLE_SIZE {
        let t = s.insert(p, (Seq::<char>::empty(), latest));
        if sorted_down(s) {
            assert forall|i: int, j: int| 0 <= i <= j < t.len() implies t[i].1 >= t[j].1 by {
                if i < p && j < p {
                    assert(t[i] == s[i] && t[j] == s[j]);
                } else if i < p && j == p {
                    assert(t[i] == s[i]);
                } else if i < p {
                    assert(t[i] == s[i] && t[j] == s[j - 1]);
                } else if i == p && j > p {
                    assert(t[j] == s[j - 1]);
                    assert(latest > s[p].1);
                } else if i > p {
                    assert(t[i] == s[i - 1] && t[j] == s[j - 1]);
                }
            }
            let r = table_after(latest, s);
            assert forall|i: int, j: int| 0 <= i <= j < r.len() implies r[i].1 >= r[j].1 by {
                assert(r[i] == t[i] && r[j] == t[j]);
            }
        }
    }
    if exists|j: int| 0 <= j < s.len() && j < TABLE_SIZE && latest > #[trigger] s[j].1 {
        let j = choose|j: int| 0 <= j < s.len() && j < TABLE_SIZE && latest > #[trigger] s[j].1;
        match first_beaten(latest, s) {
            Some(i) => {
                assert(i <= j);
            },
            None => {
                assert(latest <= s[j].1);
            },
        }
    }
}

/// Law: typing never makes a name longer than [`NAME_LENGTH`] bytes, and a
/// name that fits keeps its characters, with the typed text after them as
/// far as there is room.
pub proof fn law_names_stay_short(name: Seq<char>, text: Seq<char>)
    requires
        typing_fits(name, text),
    ensures
        encode_utf8(typed(name, text)).len() <= NAME_LENGTH,
        encode_utf8(name).len() <= NAME_LENGTH ==> typed(name, text).take(name.len() as int) == name,
{
    broadcast use encode_utf8_valid_utf8, encode_utf8_decode_utf8;

    let t = name + text;
    let bytes = encode_utf8(t);
    lemma_encode_concat(name, text);
    if bytes.len() > NAME_LENGTH {
        let cut = bytes.take(NAME_LENGTH as int);
        valid_utf8_split(bytes, NAME_LENGTH as int);
        assert(cut =~= bytes.subrange(0, NAME_LENGTH as int));
        decode_utf8_encode_utf8(cut);
        if encode_utf8(name).len() <= NAME_LENGTH {
            let k = encode_utf8(name).len() as int;
            lemma_prefix_boundary(name, text);
            if k < NAME_LENGTH {
                is_char_boundary_iff_not_is_continuation_byte(bytes, k);
                is_char_boundary_iff_not_is_continuation_byte(cut, k);
                assert(cut[k] == bytes[k]);
            } else {
                is_char_boundary_start_end_of_seq(cut);
            }
            decode_utf8_split(cut, k);
            assert(cut.subrange(0, k) =~= encode_utf8(name));
            assert(decode_utf8(cut).take(name.len() as int) =~= name);
        }
    } else {
        assert(t.take(name.len() as int) =~= name);
    }
}

} // verus!
