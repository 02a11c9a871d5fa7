//! The lexicon: the words that may be guessed and from which a target is drawn.
use rand::seq::SliceRandom;
use vstd::prelude::*;

verus! {

/// The number of letters of every word of the game.
pub const WORD_LEN: usize = 5;

/// Why a game could not be set up.
#[derive(PartialEq, Eq, Structural, Clone, Copy, Debug)]
pub enum SetupError {
    /// The source of the word list could not be read.
    LoadError,
    /// The lexicon holds no word to draw a target from.
    EmptyLexiconError,
}

/// Whether `c` is ASCII white space: space, tab, line feed, form feed or carriage return.
pub open spec fn is_blank(c: char) -> bool {
    c == ' ' || c == '\t' || c == '\n' || c == '\x0C' || c == '\r'
}

/// `c` with an ASCII capital replaced by its small letter.
pub open spec fn ascii_lower(c: char) -> char {
    if 'A' <= c && c <= 'Z' {
        ((c as u32) + 32) as char
    } else {
        c
    }
}

/// `s` with every ASCII capital replaced by its small letter.
pub open spec fn lower_seq(s: Seq<char>) -> Seq<char> {
    s.map_values(|c: char| ascii_lower(c))
}

/// `s` without its leading white space.
pub open spec fn trim_start(s: Seq<char>) -> Seq<char>
    decreases s.len(),
{
    if s.len() > 0 && is_blank(s[0]) {
        trim_start(s.drop_first())
    } else {
        s
    }
}

/// `s` without its trailing white space.
pub open spec fn trim_end(s: Seq<char>) -> Seq<char>
    decreases s.len(),
{
    if s.len() > 0 && is_blank(s.last()) {
        trim_end(s.drop_last())
    } else {
        s
    }
}

/// The form in which words are compared: trimmed of white space, in small letters.
pub open spec fn normalize_spec(s: Seq<char>) -> Seq<char> {
    lower_seq(trim_end(trim_start(s)))
}

/// Relies on str::to_ascii_lowercase: each ASCII capital becomes its small
/// letter and every other character stays as it is.
#[verifier::external_body]
fn ascii_lowercase(s: &str) -> (r: String)
    ensures
        r@ == lower_seq(s@),
{
    s.to_ascii_lowercase()
}

/// Whether `c` is ASCII white space.
fn blank(c: char) -> (r: bool)
    ensures
        r == is_blank(c),
{
    c == ' ' || c == '\t' || c == '\n' || c == '\x0C' || c == '\r'
}

/// The normal form of `s`: surrounding white space removed, ASCII capitals made small.
pub fn normalize(s: &str) -> (r: String)
    ensures
        r@ == normalize_spec(s@),
{
    let n = s.unicode_len();
    let mut a: usize = 0;
    assert(s@.subrange(0, n as int) =~= s@);
    while a < n && blank(s.get_char(a))
        invariant
            n == s@.len(),
            a <= n,
            trim_start(s@) == trim_start(s@.subrange(a as int, n as int)),
        decreases n - a,
    {
        assert(s@.subrange(a as int, n as int).drop_first() =~= s@.subrange(
            a as int + 1,
            n as int,
        ));
        a = a + 1;
    }
    assert(trim_start(s@) == s@.subrange(a as int, n as int));
    let mut b: usize = n;
    while b > a && blank(s.get_char(b - 1))
        invariant
            n == s@.len(),
            a <= b <= n,
            trim_end(s@.subrange(a as int, n as int)) == trim_end(
                s@.subrange(a as int, b as int),
            ),
        decreases b - a,
    {
        assert(s@.subrange(a as int, b as int).drop_last() =~= s@.subrange(
            a as int,
            b as int - 1,
        ));
        b = b - 1;
    }
    let t = s.substring_char(a, b);
    ascii_lowercase(t)
}

/// The words that a list of lines yields: each line in normal form, kept where
/// it has exactly five letters, in the order of the lines.
pub open spec fn lexicon_of(lines: Seq<Seq<char>>) -> Seq<Seq<char>>
    decreases lines.len(),
{
    if lines.len() == 0 {
        Seq::empty()
    } else {
        let w = normalize_spec(lines.last());
        if w.len() == WORD_LEN {
            lexicon_of(lines.drop_last()).push(w)
        } else {
            lexicon_of(lines.drop_last())
        }
    }
}

/// Relies on rand's `SliceRandom::choose` with the thread-local generator:
/// nothing exactly when the list is empty, else a copy of one of its words.
#[verifier::external_body]
fn choose_word(words: &Vec<String>) -> (r: Option<String>)
    ensures
        r is None <==> words@.len() == 0,
        r matches Some(w) ==> exists|i: int| 0 <= i < words@.len() && words@[i]@ == w@,
{
    words.choose(&mut rand::thread_rng()).cloned()
}

/// An immutable set of legal words, each of five letters and in normal form.
pub struct Lexicon {
    words: Vec<String>,
}

impl View for Lexicon {
    type V = Seq<Seq<char>>;

    closed spec fn view(&self) -> Seq<Seq<char>> {
        self.words@.map_values(|w: String| w@)
    }
}

impl Lexicon {
    /// Every word of the lexicon has five letters.
    pub open spec fn wf(&self) -> bool {
        forall|i: int| 0 <= i < self@.len() ==> (#[trigger] self@[i]).len() == WORD_LEN
    }

    /// Builds the lexicon of a list of lines, one word per line: each line is
    /// put in normal form, and kept only where it then has five letters.
    pub fn from_lines(lines: &Vec<String>) -> (r: Lexicon)
        ensures
            r.wf(),
            r@ == lexicon_of(lines@.map_values(|l: String| l@)),
    {
        let ghost ls = lines@.map_values(|l: String| l@);
        let mut words: Vec<String> = Vec::new();
        let mut i: usize = 0;
        while i < lines.len()
            invariant
                i <= lines@.len(),
                ls == lines@.map_values(|l: String| l@),
                words@.map_values(|w: String| w@) == lexicon_of(ls.take(i as int)),
                forall|k: int| 0 <= k < words@.len() ==> (#[trigger] words@[k])@.len() == WORD_LEN,
            decreases lines.len() - i,
        {
            let w = normalize(lines[i].as_str());
            assert(ls.take(i as int + 1).drop_last() =~= ls.take(i as int));
            if w.unicode_len() == WORD_LEN {
                words.push(w);
                assert(words@.map_values(|w: String| w@) =~= lexicon_of(ls.take(i as int)).push(
                    w@,
                ));
            }
            i = i + 1;
        }
        assert(ls.take(lines@.len() as int) =~= ls);
        Lexicon { words }
    }

    /// The number of words.
    pub fn len(&self) -> (r: usize)
        ensures
            r == self@.len(),
    {
        self.words.len()
    }

    /// Whether the normal form of `word` is a word of the lexicon.
    pub fn contains(&self, word: &str) -> (r: bool)
        ensures
            r == self@.contains(normalize_spec(word@)),
    {
        let w = normalize(word);
        self.has(&w)
    }

    /// Whether `w`, as it stands, is a word of the lexicon.
    pub(crate) fn has(&self, w: &String) -> (r: bool)
        ensures
            r == self@.contains(w@),
    {
        let mut i: usize = 0;
        while i < self.words.len()
            invariant
                i <= self@.len(),
                forall|k: int| 0 <= k < i ==> self@[k] != w@,
            decreases self.words.len() - i,
        {
            if self.words[i] == *w {
                assert(self@[i as int] == w@);
                return true;
            }
            i = i + 1;
        }
        false
    }

    /// Draws a word of the lexicon at random; an empty lexicon is an error.
    pub fn random_member(&self) -> (r: Result<String, SetupError>)
        ensures
            r is Err <==> self@.len() == 0,
            r matches Err(e) ==> e == SetupError::EmptyLexiconError,
            r matches Ok(w) ==> self@.contains(w@),
    {
        if self.words.len() == 0 {
            return Err(SetupError::EmptyLexiconError);
        }
        match choose_word(&self.words) {
            Some(w) => {
                let ghost i = choose|i: int| 0 <= i < self.words@.len() && self.words@[i]@ == w@;
                assert(self@[i] == w@);
                Ok(w)
            },
            None => Err(SetupError::EmptyLexiconError),
        }
    }
}

} // verus!
