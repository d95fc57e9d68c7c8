//! Words and the word store.
//!
//! A word is exactly five lower-case ASCII letters. The store holds the
//! solution list (the words a session's hidden solution is drawn from) and
//! the larger accepted list (the words a player may submit as guesses);
//! every solution must also be an accepted word.

use vstd::prelude::*;

verus! {

/// The fixed length of every word.
pub const WORD_LEN: usize = 5;

/// A letter is a lower-case ASCII letter, stored as its byte value.
pub open spec fn is_letter(b: u8) -> bool {
    97 <= b <= 122
}

/// An upper-case ASCII letter, before case folding.
pub open spec fn is_upper(b: u8) -> bool {
    65 <= b <= 90
}

/// Case folding for a single byte: upper-case letters fold to lower case,
/// every other byte is unchanged.
pub open spec fn fold_byte(b: u8) -> u8 {
    if is_upper(b) {
        (b + 32) as u8
    } else {
        b
    }
}

/// Case folding for a whole text.
pub open spec fn folded(text: Seq<u8>) -> Seq<u8> {
    text.map_values(|b: u8| fold_byte(b))
}

/// A well-formed word: exactly five lower-case letters.
pub open spec fn is_word(s: Seq<u8>) -> bool {
    &&& s.len() == WORD_LEN
    &&& forall|i: int| 0 <= i < s.len() ==> is_letter(#[trigger] s[i])
}

/// A word of the game: five lower-case letters, normalized at construction.
pub struct Word {
    letters: Vec<u8>,
}

impl View for Word {
    type V = Seq<u8>;

    closed spec fn view(&self) -> Seq<u8> {
        self.letters@
    }
}

impl Word {
    /// Well-formedness: the stored letters form a word.
    pub open spec fn wf(self) -> bool {
        is_word(self@)
    }

    /// Build a word from raw text: the text must be five characters long and
    /// every character a letter of either case; case folds to lower.
    pub fn from_text(text: &Vec<u8>) -> (r: Option<Word>)
        ensures
            r is Some <==> is_word(folded(text@)),
            r matches Some(w) ==> w@ == folded(text@) && w.wf(),
    {
        let n = text.len();
        if n != WORD_LEN {
            assert(folded(text@).len() != WORD_LEN);
            return None;
        }
        let mut letters: Vec<u8> = Vec::new();
        let mut i: usize = 0;
        while i < n
            invariant
                i <= n,
                n == text@.len(),
                n == WORD_LEN,
                letters@ =~= folded(text@).subrange(0, i as int),
                forall|j: int| 0 <= j < i ==> is_letter(#[trigger] folded(text@)[j]),
            decreases n - i,
        {
            let b = text[i];
            let f = if 65 <= b && b <= 90 {
                b + 32
            } else {
                b
            };
            assert(f == fold_byte(text@[i as int]));
            if !(97 <= f && f <= 122) {
                assert(!is_letter(folded(text@)[i as int]));
                return None;
            }
            letters.push(f);
            assert(letters@ =~= folded(text@).subrange(0, i + 1));
            i += 1;
        }
        assert(letters@ =~= folded(text@));
        Some(Word { letters })
    }

    /// The letter at a position.
    pub fn letter(&self, i: usize) -> (b: u8)
        requires
            i < self@.len(),
        ensures
            b == self@[i as int],
    {
        self.letters[i]
    }

    /// Whether the word contains a letter anywhere.
    pub fn contains_letter(&self, b: u8) -> (r: bool)
        ensures
            r == self@.contains(b),
    {
        let n = self.letters.len();
        let mut i: usize = 0;
        while i < n
            invariant
                i <= n,
                n == self@.len(),
                forall|j: int| 0 <= j < i ==> self@[j] != b,
            decreases n - i,
        {
            if self.letters[i] == b {
                return true;
            }
            i += 1;
        }
        false
    }

    /// Whether two words hold the same letters.
    pub fn same_word(&self, other: &Word) -> (r: bool)
        ensures
            r == (self@ == other@),
    {
        let n = self.letters.len();
        if n != other.letters.len() {
            return false;
        }
        let mut i: usize = 0;
        while i < n
            invariant
                i <= n,
                n == self@.len(),
                n == other@.len(),
                forall|j: int| 0 <= j < i ==> self@[j] == other@[j],
            decreases n - i,
        {
            if self.letters[i] != other.letters[i] {
                return false;
            }
            i += 1;
        }
        proof {
            assert(self@ =~= other@);
        }
        true
    }

    /// The letters of the word, as raw text.
    pub fn text(&self) -> (r: Vec<u8>)
        ensures
            r@ == self@,
    {
        let w = self.duplicate();
        let Word { letters } = w;
        letters
    }

    /// A copy of the word.
    pub fn duplicate(&self) -> (r: Word)
        ensures
            r@ == self@,
    {
        let n = self.letters.len();
        let mut letters: Vec<u8> = Vec::new();
        let mut i: usize = 0;
        while i < n
            invariant
                i <= n,
                n == self@.len(),
                letters@ =~= self@.subrange(0, i as int),
            decreases n - i,
        {
            letters.push(self.letters[i]);
            i += 1;
        }
        proof {
            assert(letters@ =~= self@);
        }
        Word { letters }
    }
}

/// A fatal configuration error found while loading the word lists.
#[derive(Copy, Clone, Debug, PartialEq, Eq, Structural)]
pub enum ConfigError {
    /// The solution list is empty, so no challenge could ever be selected.
    EmptySolutionList,
    /// Some entry of a list is not a five-letter word.
    MalformedEntry,
    /// Some solution is missing from the accepted list.
    SolutionNotAccepted,
}

/// The mathematical content of a word store: the two lists of words,
/// case-folded, in their load order.
pub struct StoreView {
    pub solutions: Seq<Seq<u8>>,
    pub accepted: Seq<Seq<u8>>,
}

/// Whether every entry of a list of texts folds to a well-formed word.
pub open spec fn all_words(texts: Seq<Seq<u8>>) -> bool {
    forall|i: int| 0 <= i < texts.len() ==> is_word(folded(#[trigger] texts[i]))
}

/// The folded form of every entry of a list of texts.
pub open spec fn folded_all(texts: Seq<Seq<u8>>) -> Seq<Seq<u8>> {
    texts.map_values(|t: Seq<u8>| folded(t))
}

/// What loading the word lists yields: the first configuration error in
/// checking order, or the store's content.
pub open spec fn load_outcome(sols: Seq<Seq<u8>>, accs: Seq<Seq<u8>>) -> Result<
    StoreView,
    ConfigError,
> {
    if sols.len() == 0 {
        Err(ConfigError::EmptySolutionList)
    } else if !(all_words(sols) && all_words(accs)) {
        Err(ConfigError::MalformedEntry)
    } else if !(forall|i: int|
        0 <= i < sols.len() ==> folded_all(accs).contains(folded(#[trigger] sols[i]))) {
        Err(ConfigError::SolutionNotAccepted)
    } else {
        Ok(StoreView { solutions: folded_all(sols), accepted: folded_all(accs) })
    }
}

/// The immutable word store: the solution list and the larger accepted list.
pub struct WordStore {
    solutions: Vec<Word>,
    accepted: Vec<Word>,
}

impl View for WordStore {
    type V = StoreView;

    closed spec fn view(&self) -> StoreView {
        StoreView {
            solutions: self.solutions@.map_values(|w: Word| w@),
            accepted: self.accepted@.map_values(|w: Word| w@),
        }
    }
}

impl WordStore {
    /// Well-formedness: at least one solution, every entry a word, and every
    /// solution also an accepted word.
    pub open spec fn wf(self) -> bool {
        &&& self@.solutions.len() >= 1
        &&& forall|i: int| 0 <= i < self@.solutions.len() ==> is_word(#[trigger] self@.solutions[i])
        &&& forall|i: int| 0 <= i < self@.accepted.len() ==> is_word(#[trigger] self@.accepted[i])
        &&& forall|i: int|
            0 <= i < self@.solutions.len() ==> self@.accepted.contains(#[trigger] self@.solutions[i])
    }

    /// Load the store from the two raw lists. Every entry must fold to a
    /// five-letter word, the solution list must be non-empty, and every
    /// solution must appear in the accepted list; the first violation in
    /// that order is reported as a fatal configuration error.
    pub fn load(solution_texts: &Vec<Vec<u8>>, accepted_texts: &Vec<Vec<u8>>) -> (r: Result<
        WordStore,
        ConfigError,
    >)
        ensures
            ({
                let outcome = load_outcome(texts_view(solution_texts@), texts_view(accepted_texts@));
                match (r, outcome) {
                    (Ok(store), Ok(v)) => store@ == v && store.wf(),
                    (Err(e), Err(f)) => e == f,
                    _ => false,
                }
            }),
    {
        let ghost sols = texts_view(solution_texts@);
        let ghost accs = texts_view(accepted_texts@);
        if solution_texts.len() == 0 {
            return Err(ConfigError::EmptySolutionList);
        }
        let solutions = match build_words(solution_texts) {
            Some(ws) => ws,
            None => {
                return Err(ConfigError::MalformedEntry);
            },
        };
        let accepted = match build_words(accepted_texts) {
            Some(ws) => ws,
            None => {
                return Err(ConfigError::MalformedEntry);
            },
        };
        let store = WordStore { solutions, accepted };
        proof {
            assert(store@.solutions =~= folded_all(sols));
            assert(store@.accepted =~= folded_all(accs));
        }
        let n = store.solutions.len();
        let mut i: usize = 0;
        while i < n
            invariant
                i <= n,
                sols == texts_view(solution_texts@),
                accs == texts_view(accepted_texts@),
                n == store@.solutions.len(),
                store.wf_lists(),
                store@.solutions == folded_all(sols),
                store@.accepted == folded_all(accs),
                all_words(sols),
                all_words(accs),
                sols.len() == n,
                sols.len() >= 1,
                forall|j: int|
                    0 <= j < i ==> store@.accepted.contains(#[trigger] store@.solutions[j]),
            decreases n - i,
        {
            if !store.holds_accepted(&store.solutions[i]) {
                proof {
                    let k = i as int;
                    assert(store@.solutions[k] == folded(sols[k]));
                    assert(!folded_all(accs).contains(folded(sols[k])));
                    assert(load_outcome(sols, accs) == Err::<StoreView, ConfigError>(
                        ConfigError::SolutionNotAccepted,
                    ));
                }
                return Err(ConfigError::SolutionNotAccepted);
            }
            i += 1;
        }
        proof {
            assert forall|j: int| 0 <= j < sols.len() implies folded_all(accs).contains(
                folded(#[trigger] sols[j]),
            ) by {
                assert(store@.solutions[j] == folded(sols[j]));
                assert(store@.accepted.contains(store@.solutions[j]));
            }
            assert(load_outcome(sols, accs) == Ok::<StoreView, ConfigError>(
                StoreView { solutions: folded_all(sols), accepted: folded_all(accs) },
            ));
        }
        Ok(store)
    }

    /// Both lists hold only well-formed words.
    pub open spec fn wf_lists(self) -> bool {
        &&& forall|i: int| 0 <= i < self@.solutions.len() ==> is_word(#[trigger] self@.solutions[i])
        &&& forall|i: int| 0 <= i < self@.accepted.len() ==> is_word(#[trigger] self@.accepted[i])
    }

    /// How many solutions the store holds.
    pub fn solution_count(&self) -> (n: usize)
        ensures
            n == self@.solutions.len(),
    {
        self.solutions.len()
    }

    /// The solution word at an index known to be in range.
    pub fn solution_word(&self, i: usize) -> (w: Word)
        requires
            i < self@.solutions.len(),
        ensures
            w@ == self@.solutions[i as int],
    {
        self.solutions[i].duplicate()
    }

    /// The solution word at an index, or OutOfRange when the index is not
    /// below the solution count.
    pub fn solution_at(&self, i: usize) -> (r: Result<Word, SelectError>)
        ensures
            match r {
                Ok(w) => i < self@.solutions.len() && w@ == self@.solutions[i as int],
                Err(e) => i >= self@.solutions.len() && e == SelectError::OutOfRange,
            },
    {
        if i < self.solutions.len() {
            Ok(self.solution_word(i))
        } else {
            Err(SelectError::OutOfRange)
        }
    }

    /// Whether a word is in the accepted vocabulary.
    pub fn is_accepted_guess(&self, w: &Word) -> (r: bool)
        ensures
            r == self@.accepted.contains(w@),
    {
        self.holds_accepted(w)
    }

    /// Linear scan of the accepted list.
    fn holds_accepted(&self, w: &Word) -> (r: bool)
        ensures
            r == self@.accepted.contains(w@),
    {
        let n = self.accepted.len();
        let mut i: usize = 0;
        while i < n
            invariant
                i <= n,
                n == self@.accepted.len(),
                forall|j: int| 0 <= j < i ==> self@.accepted[j] != w@,
            decreases n - i,
        {
            if self.accepted[i].same_word(w) {
                assert(self@.accepted[i as int] == w@);
                return true;
            }
            i += 1;
        }
        false
    }
}

/// A failed challenge selection: the requested index is outside the store.
#[derive(Copy, Clone, Debug, PartialEq, Eq, Structural)]
pub enum SelectError {
    OutOfRange,
}

/// The view of a list of raw texts.
pub open spec fn texts_view(texts: Seq<Vec<u8>>) -> Seq<Seq<u8>> {
    texts.map_values(|t: Vec<u8>| t@)
}

/// Build words from every entry of a list, or report the first entry that is
/// not a word.
fn build_words(texts: &Vec<Vec<u8>>) -> (r: Option<Vec<Word>>)
    ensures
        r is Some <==> all_words(texts_view(texts@)),
        r matches Some(ws) ==> ws@.map_values(|w: Word| w@) =~= folded_all(texts_view(texts@)),
{
    let n = texts.len();
    let mut ws: Vec<Word> = Vec::new();
    let mut i: usize = 0;
    while i < n
        invariant
            i <= n,
            n == texts@.len(),
            ws@.len() == i,
            forall|j: int| 0 <= j < i ==> is_word(folded(#[trigger] texts_view(texts@)[j])),
            forall|j: int| 0 <= j < i ==> (#[trigger] ws@[j])@ == folded(texts_view(texts@)[j]),
        decreases n - i,
    {
        let w = match Word::from_text(&texts[i]) {
            Some(w) => w,
            None => {
                assert(!is_word(folded(texts_view(texts@)[i as int])));
                return None;
            },
        };
        ws.push(w);
        i += 1;
    }
    proof {
        assert(ws@.map_values(|w: Word| w@) =~= folded_all(texts_view(texts@)));
    }
    Some(ws)
}

} // verus!
