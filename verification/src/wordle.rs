//! The game session.
//!
//! A session owns the hidden solution and the ordered history of accepted
//! guesses. Submitting a guess validates it (length, vocabulary membership,
//! non-repetition), scores it, appends it to the history, and reports
//! whether it hit the solution; a validation failure is reported to the
//! caller and leaves the session unchanged.

use vstd::prelude::*;
use vstd::seq_lib::lemma_seq_contains_after_push;

use crate::feedback::GuessResult;
use crate::feedback::GuessView;
use crate::feedback::Hint;
use crate::feedback::history_wf;
use crate::feedback::infer_hint;
use crate::feedback::known_correct_at;
use crate::feedback::score_guess;
use crate::feedback::score_letter;
use crate::feedback::score_word;
use crate::feedback::seen;
use crate::feedback::lemma_seen_in_solution;
use crate::words::WORD_LEN;
use crate::words::Word;
use crate::words::WordStore;
use crate::words::folded;
use crate::words::is_word;

verus! {

/// A recoverable validation failure of one submitted guess.
#[derive(Copy, Clone, Debug, PartialEq, Eq, Structural)]
pub enum Status {
    /// The text is not in the accepted vocabulary.
    InvalidWord,
    /// The text is not exactly five characters long.
    InvalidLength,
    /// The same word was already accepted earlier in this session.
    AlreadyGuessed,
}

/// The message shown for each validation failure.
pub open spec fn status_text(s: Status) -> Seq<char> {
    match s {
        Status::InvalidWord => "✗ Invalid word"@,
        Status::InvalidLength => "✗ Must be 5 characters long"@,
        Status::AlreadyGuessed => "✗ Already guessed"@,
    }
}

impl Status {
    /// The message shown for this validation failure.
    pub fn msg(&self) -> (r: &'static str)
        ensures
            r@ == status_text(*self),
    {
        match self {
            Status::InvalidWord => "✗ Invalid word",
            Status::InvalidLength => "✗ Must be 5 characters long",
            Status::AlreadyGuessed => "✗ Already guessed",
        }
    }
}

/// The words of a history, in order.
pub open spec fn history_words(history: Seq<GuessView>) -> Seq<Seq<u8>> {
    history.map_values(|g: GuessView| g.word)
}

/// What submitting a text yields: the first validation failure in checking
/// order (length, vocabulary, repetition), or acceptance.
pub open spec fn guess_status(
    accepted: Seq<Seq<u8>>,
    history: Seq<GuessView>,
    text: Seq<u8>,
) -> Option<Status> {
    if text.len() != WORD_LEN {
        Some(Status::InvalidLength)
    } else if !accepted.contains(folded(text)) {
        Some(Status::InvalidWord)
    } else if history_words(history).contains(folded(text)) {
        Some(Status::AlreadyGuessed)
    } else {
        None
    }
}

/// The mathematical content of a session: the store's two lists, the
/// solution, the scored history, and whether the solution has been guessed.
pub struct SessionView {
    pub solutions: Seq<Seq<u8>>,
    pub accepted: Seq<Seq<u8>>,
    pub solution: Seq<u8>,
    pub history: Seq<GuessView>,
    pub won: bool,
}

/// Session well-formedness: the store's lists hold only words and every
/// solution is accepted; the solution is one of the store's solutions; every
/// recorded guess is an accepted word scored against the solution; no word
/// is recorded twice; and the session is won exactly when the solution is
/// recorded.
pub open spec fn session_wf(v: SessionView) -> bool {
    &&& v.solutions.len() >= 1
    &&& forall|i: int| 0 <= i < v.solutions.len() ==> is_word(#[trigger] v.solutions[i])
    &&& forall|i: int| 0 <= i < v.accepted.len() ==> is_word(#[trigger] v.accepted[i])
    &&& forall|i: int| 0 <= i < v.solutions.len() ==> v.accepted.contains(#[trigger] v.solutions[i])
    &&& is_word(v.solution)
    &&& v.solutions.contains(v.solution)
    &&& history_wf(v.history, v.solution)
    &&& forall|k: int|
        0 <= k < v.history.len() ==> v.accepted.contains((#[trigger] v.history[k]).word)
    &&& forall|k1: int, k2: int|
        0 <= k1 < k2 < v.history.len() ==> (#[trigger] v.history[k1]).word != (
        #[trigger] v.history[k2]).word
    &&& v.won == history_words(v.history).contains(v.solution)
}

/// One game session: the hidden solution, the word store it was drawn from,
/// and the append-only history of accepted guesses.
pub struct Wordle {
    store: WordStore,
    word: Word,
    history: Vec<GuessResult>,
    won: bool,
}

impl View for Wordle {
    type V = SessionView;

    closed spec fn view(&self) -> SessionView {
        SessionView {
            solutions: self.store@.solutions,
            accepted: self.store@.accepted,
            solution: self.word@,
            history: self.history@.map_values(|g: GuessResult| g@),
            won: self.won,
        }
    }
}

impl Wordle {
    /// Well-formedness of the session.
    pub open spec fn wf(self) -> bool {
        session_wf(self@)
    }

    /// Start a session: the solution is the store's solution at the
    /// challenge number, wrapped around the solution count.
    pub fn new(store: WordStore, challenge_number: usize) -> (w: Wordle)
        requires
            store.wf(),
        ensures
            w.wf(),
            w@.solutions == store@.solutions,
            w@.accepted == store@.accepted,
            w@.solution == store@.solutions[challenge_number as int % store@.solutions.len() as int],
            w@.history.len() == 0,
            !w@.won,
    {
        let count = store.solution_count();
        let idx = challenge_number % count;
        let word = store.solution_word(idx);
        let w = Wordle { store, word, history: Vec::new(), won: false };
        proof {
            assert(w@.history =~= Seq::<GuessView>::empty());
            assert(history_words(w@.history) =~= Seq::<Seq<u8>>::empty());
            assert(w@.solutions.contains(w@.solution)) by {
                assert(w@.solutions[idx as int] == w@.solution);
            }
        }
        w
    }

    /// Submit a guess. The text must be five characters, fold to a word of
    /// the accepted vocabulary, and not repeat an earlier accepted guess;
    /// the first violation in that order is reported and the session is
    /// unchanged. An accepted guess is scored against the solution and
    /// appended to the history; the result says whether it hit the
    /// solution, and the session is won from then on.
    pub fn guess(&mut self, text: &Vec<u8>) -> (r: Result<bool, Status>)
        requires
            old(self).wf(),
        ensures
            final(self).wf(),
            final(self)@.solutions == old(self)@.solutions,
            final(self)@.accepted == old(self)@.accepted,
            final(self)@.solution == old(self)@.solution,
            match r {
                Err(st) => final(self)@ == old(self)@ && guess_status(
                    old(self)@.accepted,
                    old(self)@.history,
                    text@,
                ) == Some(st),
                Ok(win) => {
                    &&& guess_status(old(self)@.accepted, old(self)@.history, text@) is None
                    &&& final(self)@.history == old(self)@.history.push(
                        GuessView {
                            word: folded(text@),
                            hints: score_word(old(self)@.solution, folded(text@)),
                        },
                    )
                    &&& win == (folded(text@) == old(self)@.solution)
                    &&& final(self)@.won == (old(self)@.won || win)
                },
            },
    {
        if text.len() != WORD_LEN {
            return Err(Status::InvalidLength);
        }
        let w = match Word::from_text(text) {
            Some(w) => w,
            None => {
                proof {
                    if self@.accepted.contains(folded(text@)) {
                        let i = choose|i: int|
                            0 <= i < self@.accepted.len() && self@.accepted[i] == folded(text@);
                        assert(is_word(self@.accepted[i]));
                    }
                }
                return Err(Status::InvalidWord);
            },
        };
        if !self.store.is_accepted_guess(&w) {
            return Err(Status::InvalidWord);
        }
        if self.holds_in_history(&w) {
            return Err(Status::AlreadyGuessed);
        }
        let win = self.word.same_word(&w);
        let gr = score_guess(&self.word, w);
        self.history.push(gr);
        if win {
            self.won = true;
        }
        proof {
            let old_h = old(self)@.history;
            let entry = GuessView {
                word: folded(text@),
                hints: score_word(old(self)@.solution, folded(text@)),
            };
            assert(self@.history =~= old_h.push(entry));
            assert(history_words(self@.history) =~= history_words(old_h).push(entry.word));
            lemma_seq_contains_after_push(history_words(old_h), entry.word, self@.solution);
            assert forall|k1: int, k2: int|
                0 <= k1 < k2 < self@.history.len() implies (#[trigger] self@.history[k1]).word != (
            #[trigger] self@.history[k2]).word by {
                if k2 == old_h.len() {
                    assert(history_words(old_h)[k1] == old_h[k1].word);
                }
            }
        }
        Ok(win)
    }

    /// The hint for a single letter at a position, scored directly against
    /// the solution.
    pub fn hint(&self, letter: u8, pos: usize) -> (h: Hint)
        requires
            self.wf(),
            pos < WORD_LEN,
        ensures
            h == score_letter(self@.solution, letter, pos as int),
    {
        if self.word.letter(pos) == letter {
            Hint::Correct
        } else if self.word.contains_letter(letter) {
            Hint::Present
        } else {
            Hint::Absent
        }
    }

    /// The best-known hint for a letter at a position, aggregated over all
    /// recorded guesses: none if the letter was never guessed.
    pub fn suggest(&self, letter: u8, pos: usize) -> (r: Option<Hint>)
        requires
            self.wf(),
            pos < WORD_LEN,
        ensures
            r == infer_hint(self@.history, letter, pos as int),
    {
        proof {
            lemma_seen_in_solution(self@.history, self@.solution, letter);
            let p = pos as int;
            if known_correct_at(self@.history, letter, p) {
                let k = choose|k: int|
                    0 <= k < self@.history.len() && 0 <= p < self@.history[k].word.len()
                        && #[trigger] self@.history[k].word[p] == letter
                        && self@.history[k].hints[p] == Hint::Correct;
                assert(self@.history[k].word.contains(letter));
            }
        }
        if self.is_known(letter, pos) {
            Some(Hint::Correct)
        } else if self.is_seen(letter) {
            if self.word.contains_letter(letter) {
                Some(Hint::Present)
            } else {
                Some(Hint::Absent)
            }
        } else {
            None
        }
    }

    /// Whether the letter occurs anywhere in some recorded guess.
    fn is_seen(&self, letter: u8) -> (r: bool)
        requires
            self.wf(),
        ensures
            r == seen(self@.history, letter),
    {
        let n = self.history.len();
        let mut i: usize = 0;
        while i < n
            invariant
                i <= n,
                n == self@.history.len(),
                forall|j: int| 0 <= j < i ==> !(#[trigger] self@.history[j].word).contains(letter),
            decreases n - i,
        {
            if self.history[i].word().contains_letter(letter) {
                assert(seen(self@.history, letter)) by {
                    assert((self@.history[i as int].word).contains(letter));
                }
                return true;
            }
            i += 1;
        }
        false
    }

    /// Whether some recorded guess put this letter at this position and it
    /// was scored correct there.
    fn is_known(&self, letter: u8, pos: usize) -> (r: bool)
        requires
            self.wf(),
            pos < WORD_LEN,
        ensures
            r == known_correct_at(self@.history, letter, pos as int),
    {
        let n = self.history.len();
        let mut i: usize = 0;
        while i < n
            invariant
                self.wf(),
                pos < WORD_LEN,
                i <= n,
                n == self@.history.len(),
                forall|j: int|
                    0 <= j < i ==> !(#[trigger] self@.history[j].word[pos as int] == letter
                        && self@.history[j].hints[pos as int] == Hint::Correct),
            decreases n - i,
        {
            let entry = &self.history[i];
            assert(is_word(entry@.word) && entry@.hints.len() == entry@.word.len());
            if entry.word().letter(pos) == letter && entry.hint_at(pos) == Hint::Correct {
                assert(known_correct_at(self@.history, letter, pos as int)) by {
                    assert(self@.history[i as int].word[pos as int] == letter
                        && self@.history[i as int].hints[pos as int] == Hint::Correct);
                }
                return true;
            }
            i += 1;
        }
        false
    }

    /// Whether a word equal to this one is already recorded.
    fn holds_in_history(&self, w: &Word) -> (r: bool)
        ensures
            r == history_words(self@.history).contains(w@),
    {
        let n = self.history.len();
        let mut i: usize = 0;
        while i < n
            invariant
                i <= n,
                n == self@.history.len(),
                forall|j: int| 0 <= j < i ==> (#[trigger] self@.history[j]).word != w@,
            decreases n - i,
        {
            if self.history[i].word().same_word(w) {
                assert(history_words(self@.history)[i as int] == w@);
                return true;
            }
            i += 1;
        }
        proof {
            if history_words(self@.history).contains(w@) {
                let j = choose|j: int|
                    0 <= j < history_words(self@.history).len() && history_words(self@.history)[j]
                        == w@;
                assert(self@.history[j].word == w@);
            }
        }
        false
    }

    /// Whether the solution has been guessed.
    pub fn is_won(&self) -> (r: bool)
        ensures
            r == self@.won,
    {
        self.won
    }

    /// The hidden solution, exposed for testing and debugging only.
    pub fn solution(&self) -> (w: &Word)
        ensures
            w@ == self@.solution,
    {
        &self.word
    }

    /// Read-only view of the history of accepted guesses.
    pub fn history(&self) -> (h: &Vec<GuessResult>)
        ensures
            h@.len() == self@.history.len(),
            forall|k: int| 0 <= k < h@.len() ==> (#[trigger] h@[k])@ == self@.history[k],
    {
        &self.history
    }

    /// How many guesses have been accepted.
    pub fn history_len(&self) -> (n: usize)
        ensures
            n == self@.history.len(),
    {
        self.history.len()
    }
}

/// Law: resubmission is rejected. If a text would be accepted against a
/// history, then against the history extended with that accepted guess the
/// same text fails as AlreadyGuessed; the session itself is unchanged by a
/// failed submission.
pub proof fn lemma_resubmit_rejected(
    accepted: Seq<Seq<u8>>,
    history: Seq<GuessView>,
    entry: GuessView,
    text: Seq<u8>,
)
    requires
        guess_status(accepted, history, text) is None,
        entry.word == folded(text),
    ensures
        guess_status(accepted, history.push(entry), text) == Some(Status::AlreadyGuessed),
{
    assert(history_words(history.push(entry)) =~= history_words(history).push(entry.word));
    assert(history_words(history.push(entry))[history.len() as int] == folded(text));
    assert(history_words(history.push(entry)).contains(folded(text)));
}

} // verus!
