use wordle::config::Challenge;
use wordle::config::day_number;
use wordle::config::get_n_from_date;
use wordle::config::random_number;
use wordle::config::select_index;
use wordle::feedback::Hint;
use wordle::words::ConfigError;
use wordle::words::SelectError;
use wordle::words::Word;
use wordle::words::WordStore;
use wordle::wordle::Status;
use wordle::wordle::Wordle;

fn bytes(s: &str) -> Vec<u8> {
    s.bytes().collect()
}

fn texts(ws: &[&str]) -> Vec<Vec<u8>> {
    ws.iter().map(|w| bytes(w)).collect()
}

fn store() -> WordStore {
    WordStore::load(
        &texts(&["crane", "slate"]),
        &texts(&["crane", "slate", "trace", "crate", "audio"]),
    )
    .unwrap()
}

#[test]
fn score_trace_against_crane() {
    let mut w = Wordle::new(store(), 0);
    let r = w.guess(&bytes("TRACE"));
    assert_eq!(r, Ok(false));
    assert!(!w.is_won());
    assert_eq!(w.history_len(), 1);
    let gr = &w.history()[0];
    assert_eq!(gr.len(), 5);
    assert_eq!(gr.hint_at(0), Hint::Absent);
    assert_eq!(gr.hint_at(1), Hint::Correct);
    assert_eq!(gr.hint_at(2), Hint::Correct);
    assert_eq!(gr.hint_at(3), Hint::Present);
    assert_eq!(gr.hint_at(4), Hint::Correct);
}

#[test]
fn guessing_the_solution_wins() {
    let mut w = Wordle::new(store(), 0);
    let r = w.guess(&bytes("CRANE"));
    assert_eq!(r, Ok(true));
    assert!(w.is_won());
    assert_eq!(w.history_len(), 1);
    let gr = &w.history()[0];
    for i in 0..5 {
        assert_eq!(gr.hint_at(i), Hint::Correct);
    }
}

#[test]
fn unknown_word_is_rejected() {
    let mut w = Wordle::new(store(), 0);
    let r = w.guess(&bytes("zzzzz"));
    assert_eq!(r, Err(Status::InvalidWord));
    assert_eq!(w.history_len(), 0);
}

#[test]
fn non_letter_text_is_rejected() {
    let mut w = Wordle::new(store(), 0);
    let r = w.guess(&bytes("cr4ne"));
    assert_eq!(r, Err(Status::InvalidWord));
    assert_eq!(w.history_len(), 0);
}

#[test]
fn short_text_is_rejected_by_length_first() {
    let mut w = Wordle::new(store(), 0);
    let r = w.guess(&bytes("ab"));
    assert_eq!(r, Err(Status::InvalidLength));
    let r = w.guess(&bytes("crates"));
    assert_eq!(r, Err(Status::InvalidLength));
    assert_eq!(w.history_len(), 0);
}

#[test]
fn resubmitting_a_guess_is_rejected() {
    let mut w = Wordle::new(store(), 0);
    assert_eq!(w.guess(&bytes("trace")), Ok(false));
    assert_eq!(w.history_len(), 1);
    let r = w.guess(&bytes("trace"));
    assert_eq!(r, Err(Status::AlreadyGuessed));
    assert_eq!(w.history_len(), 1);
}

#[test]
fn case_folds_before_every_check() {
    let mut w = Wordle::new(store(), 0);
    assert_eq!(w.guess(&bytes("TrAcE")), Ok(false));
    let r = w.guess(&bytes("tracE"));
    assert_eq!(r, Err(Status::AlreadyGuessed));
    assert_eq!(w.history_len(), 1);
}

#[test]
fn challenge_number_wraps_around_the_solution_count() {
    let w = Wordle::new(store(), 3);
    assert_eq!(w.solution().text(), bytes("slate"));
    let w = Wordle::new(store(), 2);
    assert_eq!(w.solution().text(), bytes("crane"));
}

#[test]
fn daily_selection_wraps() {
    assert_eq!(select_index(3, &Challenge::Daily(7)), Ok(1));
    assert_eq!(select_index(3, &Challenge::Daily(7)), Ok(1));
    assert_eq!(select_index(3, &Challenge::Daily(2)), Ok(2));
    assert_eq!(select_index(1, &Challenge::Daily(0)), Ok(0));
}

#[test]
fn nth_selection_is_exact_or_out_of_range() {
    assert_eq!(select_index(5, &Challenge::Nth(2)), Ok(2));
    assert_eq!(select_index(5, &Challenge::Nth(4)), Ok(4));
    assert_eq!(select_index(5, &Challenge::Nth(5)), Err(SelectError::OutOfRange));
    assert_eq!(select_index(5, &Challenge::Nth(9)), Err(SelectError::OutOfRange));
}

#[test]
fn random_selection_validates_the_draw() {
    assert_eq!(select_index(5, &Challenge::Random(3)), Ok(3));
    assert_eq!(select_index(5, &Challenge::Random(5)), Err(SelectError::OutOfRange));
}

#[test]
fn random_number_stays_below_the_bound() {
    for _ in 0..50 {
        assert!(random_number(5) < 5);
    }
    assert_eq!(random_number(1), 0);
}

#[test]
fn day_counts_normalize_to_challenge_numbers() {
    assert_eq!(day_number(None), 0);
    assert_eq!(day_number(Some(-1)), 0);
    assert_eq!(day_number(Some(-365)), 0);
    assert_eq!(day_number(Some(0)), 0);
    assert_eq!(day_number(Some(7)), 7);
    assert_eq!(day_number(Some(i64::MAX)), i64::MAX as usize);
}

#[test]
fn daily_number_selects_a_valid_challenge() {
    let n = get_n_from_date();
    assert_eq!(select_index(3, &Challenge::Daily(n)), Ok(n % 3));
}

#[test]
fn empty_solution_list_is_a_configuration_error() {
    let r = WordStore::load(&texts(&[]), &texts(&["crane"]));
    assert_eq!(r.err(), Some(ConfigError::EmptySolutionList));
}

#[test]
fn malformed_entries_are_a_configuration_error() {
    let r = WordStore::load(&texts(&["abcd"]), &texts(&["crane"]));
    assert_eq!(r.err(), Some(ConfigError::MalformedEntry));
    let r = WordStore::load(&texts(&["crane"]), &texts(&["12345"]));
    assert_eq!(r.err(), Some(ConfigError::MalformedEntry));
}

#[test]
fn solutions_must_be_accepted_words() {
    let r = WordStore::load(&texts(&["crane", "slate"]), &texts(&["crane"]));
    assert_eq!(r.err(), Some(ConfigError::SolutionNotAccepted));
}

#[test]
fn solution_lookup_checks_the_range() {
    let s = store();
    assert_eq!(s.solution_count(), 2);
    assert_eq!(s.solution_at(1).unwrap().text(), bytes("slate"));
    assert_eq!(s.solution_at(2).err(), Some(SelectError::OutOfRange));
}

#[test]
fn vocabulary_membership_is_case_insensitive() {
    let s = store();
    let w = Word::from_text(&bytes("AUDIO")).unwrap();
    assert!(s.is_accepted_guess(&w));
    let w = Word::from_text(&bytes("zzzzz")).unwrap();
    assert!(!s.is_accepted_guess(&w));
    assert!(Word::from_text(&bytes("ab1cd")).is_none());
    assert!(Word::from_text(&bytes("crane ")).is_none());
}

#[test]
fn single_letter_hints_follow_the_solution() {
    let w = Wordle::new(store(), 0);
    assert_eq!(w.hint(b'c', 0), Hint::Correct);
    assert_eq!(w.hint(b'c', 3), Hint::Present);
    assert_eq!(w.hint(b'e', 4), Hint::Correct);
    assert_eq!(w.hint(b'z', 2), Hint::Absent);
}

#[test]
fn suggestions_aggregate_the_history() {
    let mut w = Wordle::new(store(), 0);
    assert_eq!(w.suggest(b'r', 1), None);
    assert_eq!(w.guess(&bytes("trace")), Ok(false));
    assert_eq!(w.suggest(b'r', 1), Some(Hint::Correct));
    assert_eq!(w.suggest(b'c', 0), Some(Hint::Present));
    assert_eq!(w.suggest(b't', 0), Some(Hint::Absent));
    assert_eq!(w.suggest(b's', 0), None);
}

#[test]
fn suggestions_upgrade_as_evidence_arrives() {
    let mut w = Wordle::new(store(), 0);
    assert_eq!(w.guess(&bytes("audio")), Ok(false));
    assert_eq!(w.suggest(b'a', 2), Some(Hint::Present));
    assert_eq!(w.guess(&bytes("slate")), Ok(false));
    assert_eq!(w.suggest(b'a', 2), Some(Hint::Correct));
}

#[test]
fn a_correct_suggestion_is_never_downgraded() {
    let mut w = Wordle::new(store(), 0);
    assert_eq!(w.guess(&bytes("trace")), Ok(false));
    assert_eq!(w.suggest(b'r', 1), Some(Hint::Correct));
    assert_eq!(w.guess(&bytes("audio")), Ok(false));
    assert_eq!(w.guess(&bytes("slate")), Ok(false));
    assert_eq!(w.suggest(b'r', 1), Some(Hint::Correct));
}

#[test]
fn status_messages() {
    assert_eq!(Status::InvalidWord.msg(), "✗ Invalid word");
    assert_eq!(Status::InvalidLength.msg(), "✗ Must be 5 characters long");
    assert_eq!(Status::AlreadyGuessed.msg(), "✗ Already guessed");
}
