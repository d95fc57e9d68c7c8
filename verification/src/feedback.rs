//! The feedback engine.
//!
//! Two related queries. Scoring: a single guess against the solution, one
//! hint per position. Inference: the best-known hint for a letter at a
//! position, aggregated over the whole guess history, for colorizing
//! not-yet-submitted input. Inference is a pure function of the history and
//! is re-derivable from it at any time.
//!
//! Scoring is deliberately simple: a letter that misses its position counts
//! as present whenever the solution contains it anywhere; there is no
//! per-letter count budget for repeated letters.

use vstd::prelude::*;

use crate::words::Word;
use crate::words::WORD_LEN;
use crate::words::is_word;

verus! {

/// The relationship of one guessed letter to the solution, from weakest to
/// strongest signal: absent, present elsewhere, correct in place.
#[derive(Copy, Clone, Debug, PartialEq, Eq, Structural)]
pub enum Hint {
    Absent,
    Present,
    Correct,
}

/// The tie-break order on hints: Absent < Present < Correct.
pub open spec fn hint_strength(h: Hint) -> int {
    match h {
        Hint::Absent => 0,
        Hint::Present => 1,
        Hint::Correct => 2,
    }
}

/// The hint for one letter of a guess: correct when it sits at its position
/// in the solution, present when the solution contains it anywhere else,
/// absent otherwise.
pub open spec fn score_letter(solution: Seq<u8>, letter: u8, pos: int) -> Hint {
    if 0 <= pos < solution.len() && solution[pos] == letter {
        Hint::Correct
    } else if solution.contains(letter) {
        Hint::Present
    } else {
        Hint::Absent
    }
}

/// The hints for a whole guess, one per position.
pub open spec fn score_word(solution: Seq<u8>, guess: Seq<u8>) -> Seq<Hint> {
    Seq::new(guess.len(), |i: int| score_letter(solution, guess[i], i))
}

/// The scored record of one accepted guess: the guessed word and its hints.
pub struct GuessView {
    pub word: Seq<u8>,
    pub hints: Seq<Hint>,
}

/// The scored result of one accepted guess, one hint per position.
pub struct GuessResult {
    word: Word,
    hints: Vec<Hint>,
}

impl View for GuessResult {
    type V = GuessView;

    closed spec fn view(&self) -> GuessView {
        GuessView { word: self.word@, hints: self.hints@ }
    }
}

impl GuessResult {
    /// Well-formedness: a five-letter word with one hint per position.
    pub open spec fn wf(self) -> bool {
        &&& is_word(self@.word)
        &&& self@.hints.len() == self@.word.len()
    }

    /// The guessed word.
    pub fn word(&self) -> (w: &Word)
        ensures
            w@ == self@.word,
    {
        &self.word
    }

    /// The hint at a position.
    pub fn hint_at(&self, i: usize) -> (h: Hint)
        requires
            i < self@.hints.len(),
        ensures
            h == self@.hints[i as int],
    {
        self.hints[i]
    }

    /// How many positions the result covers.
    pub fn len(&self) -> (n: usize)
        ensures
            n == self@.hints.len(),
    {
        self.hints.len()
    }
}

/// Score a guess against the solution, producing the record of that guess.
pub fn score_guess(solution: &Word, guess: Word) -> (r: GuessResult)
    requires
        solution.wf(),
        guess.wf(),
    ensures
        r@.word == guess@,
        r@.hints == score_word(solution@, guess@),
        r.wf(),
{
    let mut hints: Vec<Hint> = Vec::new();
    let mut i: usize = 0;
    while i < WORD_LEN
        invariant
            i <= WORD_LEN,
            solution.wf(),
            guess.wf(),
            hints@.len() == i,
            forall|j: int| 0 <= j < i ==> hints@[j] == score_letter(solution@, guess@[j], j),
        decreases WORD_LEN - i,
    {
        let b = guess.letter(i);
        let h = if solution.letter(i) == b {
            Hint::Correct
        } else if solution.contains_letter(b) {
            Hint::Present
        } else {
            Hint::Absent
        };
        assert(h == score_letter(solution@, guess@[i as int], i as int));
        hints.push(h);
        i += 1;
    }
    proof {
        assert(hints@ =~= score_word(solution@, guess@));
    }
    GuessResult { word: guess, hints }
}

/// Whether some recorded guess put this letter at this position and it was
/// scored correct there.
pub open spec fn known_correct_at(history: Seq<GuessView>, letter: u8, pos: int) -> bool {
    exists|k: int|
        0 <= k < history.len() && 0 <= pos < history[k].word.len() && #[trigger] history[k].word[pos]
            == letter && history[k].hints[pos] == Hint::Correct
}

/// Whether the letter occurs anywhere in some recorded guess.
pub open spec fn seen(history: Seq<GuessView>, letter: u8) -> bool {
    exists|k: int| 0 <= k < history.len() && (#[trigger] history[k].word).contains(letter)
}

/// Whether some occurrence of the letter in the history was scored better
/// than absent (correct or present), i.e. the history shows the solution
/// contains the letter.
pub open spec fn seen_in_solution(history: Seq<GuessView>, letter: u8) -> bool {
    exists|k: int, j: int|
        0 <= k < history.len() && 0 <= j < history[k].word.len() && #[trigger] history[k].word[j]
            == letter && history[k].hints[j] != Hint::Absent
}

/// The best-known hint for a letter at a position, aggregated over the whole
/// history; strongest signal wins (Correct > Present > Absent), and a letter
/// never guessed yields no hint.
pub open spec fn infer_hint(history: Seq<GuessView>, letter: u8, pos: int) -> Option<Hint> {
    if known_correct_at(history, letter, pos) {
        Some(Hint::Correct)
    } else if seen_in_solution(history, letter) {
        Some(Hint::Present)
    } else if seen(history, letter) {
        Some(Hint::Absent)
    } else {
        None
    }
}

/// Whether every recorded guess is a word scored against this solution.
pub open spec fn history_wf(history: Seq<GuessView>, solution: Seq<u8>) -> bool {
    forall|k: int|
        0 <= k < history.len() ==> {
            &&& is_word((#[trigger] history[k]).word)
            &&& history[k].hints == score_word(solution, history[k].word)
        }
}

/// Law: a letter of a guess is scored correct exactly when it matches the
/// solution at its position.
pub proof fn lemma_correct_iff_match(solution: Seq<u8>, guess: Seq<u8>, i: int)
    requires
        is_word(solution),
        is_word(guess),
        0 <= i < guess.len(),
    ensures
        score_word(solution, guess)[i] == Hint::Correct <==> guess[i] == solution[i],
{
}

/// Law: a letter of a guess that misses its position is scored present
/// exactly when the solution contains it anywhere, and absent otherwise.
pub proof fn lemma_miss_present_or_absent(solution: Seq<u8>, guess: Seq<u8>, i: int)
    requires
        is_word(solution),
        is_word(guess),
        0 <= i < guess.len(),
        guess[i] != solution[i],
    ensures
        score_word(solution, guess)[i] == Hint::Present <==> solution.contains(guess[i]),
        score_word(solution, guess)[i] == Hint::Absent <==> !solution.contains(guess[i]),
{
}

/// Law: a correct inference is never downgraded. Once the history yields
/// Correct for a letter at a position, any extension of the history yields
/// Correct for that letter and position.
pub proof fn lemma_infer_correct_monotone(
    history: Seq<GuessView>,
    ext: Seq<GuessView>,
    letter: u8,
    pos: int,
)
    requires
        infer_hint(history, letter, pos) == Some(Hint::Correct),
    ensures
        infer_hint(history + ext, letter, pos) == Some(Hint::Correct),
{
    let k = choose|k: int|
        0 <= k < history.len() && 0 <= pos < history[k].word.len() && #[trigger] history[k].word[pos]
            == letter && history[k].hints[pos] == Hint::Correct;
    assert((history + ext)[k] == history[k]);
    assert(known_correct_at(history + ext, letter, pos));
}

/// The strength of an inference outcome: a letter never guessed ranks below
/// every hint.
pub open spec fn inference_strength(r: Option<Hint>) -> int {
    match r {
        None => -1,
        Some(h) => hint_strength(h),
    }
}

/// Law: what is known of a letter only strengthens as the history grows.
/// Extending the history never moves the inferred hint down the tie-break
/// order Absent < Present < Correct, and never forgets a seen letter.
pub proof fn lemma_infer_strengthens(
    history: Seq<GuessView>,
    ext: Seq<GuessView>,
    letter: u8,
    pos: int,
)
    ensures
        inference_strength(infer_hint(history + ext, letter, pos)) >= inference_strength(
            infer_hint(history, letter, pos),
        ),
{
    if known_correct_at(history, letter, pos) {
        lemma_infer_correct_monotone(history, ext, letter, pos);
    } else if seen_in_solution(history, letter) {
        let (k, j) = choose|k: int, j: int|
            0 <= k < history.len() && 0 <= j < history[k].word.len() && #[trigger] history[k].word[j]
                == letter && history[k].hints[j] != Hint::Absent;
        assert((history + ext)[k] == history[k]);
        assert(seen_in_solution(history + ext, letter));
    } else if seen(history, letter) {
        let k = choose|k: int|
            0 <= k < history.len() && (#[trigger] history[k].word).contains(letter);
        assert((history + ext)[k] == history[k]);
        assert(seen(history + ext, letter));
    }
}

/// In a history scored against one solution, an occurrence scored better
/// than absent is the same thing as the letter being seen and contained in
/// the solution.
pub proof fn lemma_seen_in_solution(history: Seq<GuessView>, solution: Seq<u8>, letter: u8)
    requires
        history_wf(history, solution),
    ensures
        seen_in_solution(history, letter) <==> (seen(history, letter) && solution.contains(letter)),
{
    if seen_in_solution(history, letter) {
        let (k, j) = choose|k: int, j: int|
            0 <= k < history.len() && 0 <= j < history[k].word.len() && #[trigger] history[k].word[j]
                == letter && history[k].hints[j] != Hint::Absent;
        assert(history[k].word.contains(letter)) by {
            assert(history[k].word[j] == letter);
        }
        assert(history[k].hints[j] == score_letter(solution, letter, j));
        assert(solution.contains(letter)) by {
            if !(0 <= j < solution.len() && solution[j] == letter) {
                assert(score_letter(solution, letter, j) != Hint::Absent);
            } else {
                assert(solution[j] == letter);
            }
        }
    }
    if seen(history, letter) && solution.contains(letter) {
        let k = choose|k: int|
            0 <= k < history.len() && (#[trigger] history[k].word).contains(letter);
        let j = choose|j: int| 0 <= j < history[k].word.len() && history[k].word[j] == letter;
        assert(history[k].hints[j] == score_letter(solution, letter, j));
        assert(history[k].hints[j] != Hint::Absent);
        assert(seen_in_solution(history, letter));
    }
}

} // verus!
