//! A game: a hidden target, the lexicon, the guesses scored so far and the
//! status, with the rules that take a guess from submission to feedback.
use crate::feedback::{score, score_spec, Mark};
use crate::lexicon::{normalize, normalize_spec, Lexicon, SetupError, WORD_LEN};
use vstd::prelude::*;

verus! {

/// The number of guesses a game allows.
pub const MAX_GUESSES: usize = 6;

/// Why a guess was not scored.
#[derive(PartialEq, Eq, Structural, Clone, Copy, Debug)]
pub enum ErrorKind {
    /// The guess is not a word of the lexicon; no turn is used.
    WordNotInWordlist,
    /// The guess does not have five letters; no turn is used.
    WordNotFiveChars,
    /// The game was already won or lost.
    GameIsOver,
}

/// Where a game stands.
#[derive(PartialEq, Eq, Structural, Clone, Copy, Debug)]
pub enum Status {
    /// Guesses are still taken.
    InProgress,
    /// A guess was the target.
    Won,
    /// Six guesses missed the target.
    Lost,
}

/// A submitted word and, once scored, its feedback.
pub struct Guess {
    pub word: String,
    pub marks: Vec<Mark>,
}

impl Guess {
    /// A guess with an empty word and no feedback yet.
    pub fn new() -> (r: Guess)
        ensures
            r.word@.len() == 0,
            r.marks@.len() == 0,
    {
        Guess { word: String::new(), marks: Vec::new() }
    }
}

/// What a game is, as a value: the target, the lexicon's words, the words
/// scored so far in order, and the status.
pub struct GameView {
    pub word: Seq<char>,
    pub words: Seq<Seq<char>>,
    pub history: Seq<Seq<char>>,
    pub status: Status,
}

/// The answer to guess `g`, a word in normal form: the conditions in order, the
/// first that fails giving the error.
pub open spec fn outcome(v: GameView, g: Seq<char>) -> Result<(), ErrorKind> {
    if g.len() != WORD_LEN {
        Err(ErrorKind::WordNotFiveChars)
    } else if !v.words.contains(g) {
        Err(ErrorKind::WordNotInWordlist)
    } else if v.status != Status::InProgress {
        Err(ErrorKind::GameIsOver)
    } else {
        Ok(())
    }
}

/// The game after guess `g` is scored: `g` joins the history; the game is won
/// if `g` is the target, else lost if the history is now full.
pub open spec fn advance(v: GameView, g: Seq<char>) -> GameView {
    GameView {
        history: v.history.push(g),
        status: if g == v.word {
            Status::Won
        } else if v.history.len() + 1 == MAX_GUESSES {
            Status::Lost
        } else {
            Status::InProgress
        },
        ..v
    }
}

/// The game after the guesses `gs` are scored one after another.
pub open spec fn play(v: GameView, gs: Seq<Seq<char>>) -> GameView
    decreases gs.len(),
{
    if gs.len() == 0 {
        v
    } else {
        advance(play(v, gs.drop_last()), gs.last())
    }
}

/// Copies a list of marks.
fn copy_marks(m: &Vec<Mark>) -> (r: Vec<Mark>)
    ensures
        r@ == m@,
{
    let mut r: Vec<Mark> = Vec::new();
    let mut i: usize = 0;
    while i < m.len()
        invariant
            i <= m@.len(),
            r@ == m@.take(i as int),
        decreases m.len() - i,
    {
        r.push(m[i]);
        assert(m@.take(i as int + 1) =~= m@.take(i as int).push(m@[i as int]));
        i = i + 1;
    }
    assert(m@.take(m@.len() as int) =~= m@);
    r
}

/// A game of guessing a five-letter word. One game loop owns it and drives it
/// through `&mut self`; it holds no state shared with anything else.
pub struct Wordle {
    word: String,
    all_words: Lexicon,
    history: Vec<Guess>,
    status: Status,
}

impl View for Wordle {
    type V = GameView;

    closed spec fn view(&self) -> GameView {
        GameView {
            word: self.word@,
            words: self.all_words@,
            history: self.history@.map_values(|g: Guess| g.word@),
            status: self.status,
        }
    }
}

impl Wordle {
    /// The target has five letters, every word of the lexicon too; the history
    /// holds at most six guesses, fewer while the game goes on, and each was
    /// scored against the target.
    pub closed spec fn wf(&self) -> bool {
        &&& self.all_words.wf()
        &&& self.word@.len() == WORD_LEN
        &&& self.history@.len() <= MAX_GUESSES
        &&& self.status == Status::InProgress ==> self.history@.len() < MAX_GUESSES
        &&& forall|i: int|
            0 <= i < self.history@.len() ==> (#[trigger] self.history@[i]).marks@ == score_spec(
                self.word@,
                self.history@[i].word@,
            )
    }

    /// The feedback of the `i`-th guess of the history.
    pub closed spec fn marks_of(&self, i: int) -> Seq<Mark> {
        self.history@[i].marks@
    }

    /// A new game over `all_words` whose target is the normal form of `word`,
    /// which must be a word of the lexicon.
    pub fn new(all_words: Lexicon, word: &str) -> (r: Result<Wordle, ErrorKind>)
        requires
            all_words.wf(),
        ensures
            r is Ok <==> normalize_spec(word@).len() == WORD_LEN && all_words@.contains(
                normalize_spec(word@),
            ),
            r matches Err(e) ==> e == if normalize_spec(word@).len() != WORD_LEN {
                ErrorKind::WordNotFiveChars
            } else {
                ErrorKind::WordNotInWordlist
            },
            r matches Ok(w) ==> w.wf() && w@ == (GameView {
                word: normalize_spec(word@),
                words: all_words@,
                history: Seq::empty(),
                status: Status::InProgress,
            }),
    {
        let w = normalize(word);
        if w.unicode_len() != WORD_LEN {
            return Err(ErrorKind::WordNotFiveChars);
        }
        if !all_words.has(&w) {
            return Err(ErrorKind::WordNotInWordlist);
        }
        let r = Wordle { word: w, all_words, history: Vec::new(), status: Status::InProgress };
        assert(r@.history =~= Seq::<Seq<char>>::empty());
        Ok(r)
    }

    /// A new game over `all_words` whose target is drawn from it at random;
    /// an empty lexicon is an error.
    pub fn pick_random_word(all_words: Lexicon) -> (r: Result<Wordle, SetupError>)
        requires
            all_words.wf(),
        ensures
            r is Err <==> all_words@.len() == 0,
            r matches Err(e) ==> e == SetupError::EmptyLexiconError,
            r matches Ok(w) ==> {
                &&& w.wf()
                &&& all_words@.contains(w@.word)
                &&& w@.words == all_words@
                &&& w@.history.len() == 0
                &&& w@.status == Status::InProgress
            },
    {
        match all_words.random_member() {
            Err(e) => Err(e),
            Ok(word) => {
                let r = Wordle { word, all_words, history: Vec::new(), status: Status::InProgress };
                assert(r@.history =~= Seq::<Seq<char>>::empty());
                Ok(r)
            },
        }
    }

    /// Submits `guess`. Its word is put in normal form and then validated: it
    /// must have five letters, be a word of the lexicon, and the game must still
    /// be going on; the first condition that fails is the error, and nothing
    /// changes. Otherwise the guess gets its feedback against the target, joins
    /// the history, and the game is won if it is the target, lost if the
    /// history is now full.
    pub fn try_guess_word(&mut self, guess: &mut Guess) -> (r: Result<(), ErrorKind>)
        requires
            old(self).wf(),
        ensures
            final(self).wf(),
            r == outcome(old(self)@, normalize_spec(old(guess).word@)),
            r is Ok ==> {
                let g = normalize_spec(old(guess).word@);
                &&& final(self)@ == advance(old(self)@, g)
                &&& final(self).marks_of(old(self)@.history.len() as int) == score_spec(
                    old(self)@.word,
                    g,
                )
                &&& final(guess).word@ == g
                &&& final(guess).marks@ == score_spec(old(self)@.word, g)
            },
            r is Err ==> final(self)@ == old(self)@ && *final(guess) == *old(guess),
    {
        let w = normalize(guess.word.as_str());
        if w.unicode_len() != WORD_LEN {
            return Err(ErrorKind::WordNotFiveChars);
        }
        if !self.all_words.has(&w) {
            return Err(ErrorKind::WordNotInWordlist);
        }
        if !matches!(self.status, Status::InProgress) {
            return Err(ErrorKind::GameIsOver);
        }
        let marks = score(self.word.as_str(), w.as_str());
        let won = w == self.word;
        let ghost before = self.history@;
        self.history.push(Guess { word: w.clone(), marks: copy_marks(&marks) });
        assert(self.history@.map_values(|g: Guess| g.word@) =~= before.map_values(
            |g: Guess| g.word@,
        ).push(w@));
        self.status = if won {
            Status::Won
        } else if self.history.len() == MAX_GUESSES {
            Status::Lost
        } else {
            Status::InProgress
        };
        guess.word = w;
        guess.marks = marks;
        Ok(())
    }

    /// Where the game stands.
    pub fn status(&self) -> (r: Status)
        ensures
            r == self@.status,
    {
        self.status
    }

    /// The target.
    pub fn word(&self) -> (r: &String)
        ensures
            r@ == self@.word,
    {
        &self.word
    }

    /// The number of guesses scored so far.
    pub fn history_len(&self) -> (r: usize)
        ensures
            r == self@.history.len(),
    {
        self.history.len()
    }

    /// The number of guesses still allowed.
    pub fn guesses_left(&self) -> (r: usize)
        requires
            self.wf(),
        ensures
            r == MAX_GUESSES - self@.history.len(),
    {
        MAX_GUESSES - self.history.len()
    }
}

/// The history of a well-formed game never holds more than six guesses.
pub proof fn lemma_history_bounded(w: &Wordle)
    requires
        w.wf(),
    ensures
        w@.history.len() <= MAX_GUESSES,
        w@.status == Status::InProgress ==> w@.history.len() < MAX_GUESSES,
{
}

/// Scoring the first `k` of a run of guesses that are legal words and miss the
/// target leaves them as the history, with the game lost once there are six.
proof fn lemma_misses(v: GameView, gs: Seq<Seq<char>>, k: int)
    requires
        v.history.len() == 0,
        v.status == Status::InProgress,
        gs.len() == MAX_GUESSES,
        forall|i: int| 0 <= i < gs.len() ==> #[trigger] gs[i] != v.word,
        0 <= k <= gs.len(),
    ensures
        play(v, gs.take(k)) == (GameView {
            history: gs.take(k),
            status: if k == MAX_GUESSES {
                Status::Lost
            } else {
                Status::InProgress
            },
            ..v
        }),
    decreases k,
{
    if k == 0 {
        assert(gs.take(0) =~= v.history);
    } else {
        lemma_misses(v, gs, k - 1);
        assert(gs.take(k).drop_last() =~= gs.take(k - 1));
        assert(gs.take(k - 1).push(gs[k - 1]) =~= gs.take(k));
    }
}

/// After six guesses that are legal words and miss the target, each of them
/// scored, the game is lost, and a further legal guess fails as the game is over.
pub proof fn lemma_six_misses_lose(v: GameView, gs: Seq<Seq<char>>, next: Seq<char>)
    requires
        v.history.len() == 0,
        v.status == Status::InProgress,
        gs.len() == MAX_GUESSES,
        forall|i: int|
            0 <= i < gs.len() ==> (#[trigger] gs[i]).len() == WORD_LEN && v.words.contains(gs[i])
                && gs[i] != v.word,
        next.len() == WORD_LEN,
        v.words.contains(next),
    ensures
        forall|k: int| 0 <= k < gs.len() ==> #[trigger] outcome(play(v, gs.take(k)), gs[k]) is Ok,
        play(v, gs).history == gs,
        play(v, gs).status == Status::Lost,
        outcome(play(v, gs), next) == Err::<(), ErrorKind>(ErrorKind::GameIsOver),
{
    assert forall|k: int| 0 <= k < gs.len() implies #[trigger] outcome(
        play(v, gs.take(k)),
        gs[k],
    ) is Ok by {
        lemma_misses(v, gs, k);
    }
    lemma_misses(v, gs, gs.len() as int);
    assert(gs.take(gs.len() as int) =~= gs);
}

/// A guess that is the target wins at once, whatever number of turns is left,
/// and every one of its letters is marked exact.
pub proof fn lemma_target_wins(v: GameView, g: Seq<char>)
    requires
        v.status == Status::InProgress,
        v.word.len() == WORD_LEN,
        v.words.contains(v.word),
        g == v.word,
    ensures
        outcome(v, g) is Ok,
        advance(v, g).status == Status::Won,
        score_spec(v.word, g) == Seq::new(WORD_LEN as nat, |i: int| Mark::Exact),
{
    assert(score_spec(v.word, g) =~= Seq::new(WORD_LEN as nat, |i: int| Mark::Exact));
}

} // verus!
