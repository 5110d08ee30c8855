use wpm::letter::Letter;
use wpm::session::{Key, TestEvent, TestRenderer};
use wpm::test_mode::TestMode;
use wpm::wordlist::Wordlist;

fn fresh(phrase: &str, mode: TestMode) -> TestRenderer {
    TestRenderer::new(Wordlist::English1k, String::from(phrase), mode, 0)
}

#[test]
fn perfect_run_hits_everything() {
    let mut session = fresh("cat dog", TestMode::Words(2));
    let expected: Vec<char> = "cat dog".chars().collect();
    let mut now = 0;
    for c in expected {
        now += 100;
        session.handle_key(Key::Char(c), now);
    }
    assert_eq!(session.cursor(), 7);
    assert_eq!(session.count_hits(), 7);
    assert_eq!(session.count_misses(), 0);
}

#[test]
fn backspace_undoes_a_keystroke() {
    let mut session = fresh("abc", TestMode::Words(1));
    session.handle_key(Key::Char('x'), 100);
    assert_eq!(session.cursor(), 1);
    assert_eq!(session.letter(0), Letter::Miss('a'));
    session.handle_key(Key::Backspace, 200);
    assert_eq!(session.cursor(), 0);
    assert_eq!(session.letter(0), Letter::Char('a'));
}

#[test]
fn backspace_at_the_start_is_a_no_op() {
    let mut session = fresh("ab", TestMode::Words(1));
    session.handle_key(Key::Backspace, 100);
    assert_eq!(session.cursor(), 0);
    assert_eq!(session.letter(0), Letter::Char('a'));
}

#[test]
fn early_space_skips_the_word() {
    let mut session = fresh("cat dog", TestMode::Words(2));
    session.handle_key(Key::Char(' '), 100);
    assert_eq!(session.letter(0), Letter::Miss('c'));
    assert_eq!(session.letter(1), Letter::Miss('a'));
    assert_eq!(session.letter(2), Letter::Miss('t'));
    assert_eq!(session.letter(3), Letter::Hit(' '));
    assert_eq!(session.letter(4), Letter::Char('d'));
    assert_eq!(session.cursor(), 4);
}

#[test]
fn space_with_no_space_left_jumps_to_the_end() {
    let mut session = fresh("dog", TestMode::Words(1));
    session.handle_key(Key::Char('d'), 100);
    session.handle_key(Key::Char(' '), 200);
    assert_eq!(session.cursor(), 3);
    assert_eq!(session.letter(1), Letter::Miss('o'));
    assert_eq!(session.letter(2), Letter::Miss('g'));
}

#[test]
fn wrong_character_cannot_pass_a_space() {
    let mut session = fresh("a b", TestMode::Words(2));
    session.handle_key(Key::Char('a'), 100);
    assert_eq!(session.cursor(), 1);
    session.handle_key(Key::Char('x'), 200);
    assert_eq!(session.cursor(), 1);
    assert_eq!(session.letter(1), Letter::Char(' '));
    session.handle_key(Key::Char(' '), 300);
    assert_eq!(session.cursor(), 2);
    assert_eq!(session.letter(1), Letter::Hit(' '));
}

#[test]
fn words_mode_completes_at_the_phrase_end() {
    let mut session = fresh("ab", TestMode::Words(1));
    assert!(!session.is_complete(1_000_000));
    session.handle_key(Key::Char('a'), 100);
    assert!(!session.is_complete(200));
    session.handle_key(Key::Char('b'), 300);
    assert!(session.is_complete(300));
}

#[test]
fn time_mode_completes_when_the_budget_elapses() {
    let mut session = fresh("some words here", TestMode::Time(5000));
    // before any key the timer is unset and the run never completes
    assert!(!session.is_complete(1_000_000));
    session.handle_key(Key::Char('s'), 100);
    assert!(!session.is_complete(5099));
    assert!(session.is_complete(5100));
}

#[test]
fn time_mode_tolerates_an_exhausted_phrase() {
    let mut session = fresh("a", TestMode::Time(10_000));
    session.handle_key(Key::Char('a'), 0);
    assert_eq!(session.cursor(), 1);
    // nothing left to type: the run is not complete, and further keys
    // change nothing rather than failing
    assert!(!session.is_complete(5000));
    session.handle_key(Key::Char('x'), 6000);
    assert_eq!(session.cursor(), 1);
    assert!(session.is_complete(10_000));
    let outcome = session.finish(10_000).unwrap();
    assert_eq!(outcome.hits, 1);
    assert_eq!(outcome.time_ms, 10_000);
}

#[test]
fn abort_yields_no_outcome() {
    let mut session = fresh("ab", TestMode::Words(1));
    session.handle_key(Key::Char('a'), 100);
    let aborted = session.handle_event(TestEvent::Key(Key::Esc), 200);
    assert!(aborted);
    // cancelled before completion: no outcome, not a zero-valued one
    assert!(session.finish(200).is_none());
}

#[test]
fn abort_before_any_key_yields_no_outcome() {
    let mut session = fresh("words here", TestMode::Time(1000));
    let aborted = session.handle_event(TestEvent::Key(Key::Esc), 50);
    assert!(aborted);
    assert!(session.finish(2000).is_none());
}

#[test]
fn completed_run_scores_exactly() {
    let mut session = fresh("ab", TestMode::Words(1));
    session.handle_key(Key::Char('a'), 0);
    session.handle_key(Key::Char('x'), 500);
    assert!(session.is_complete(500));
    let outcome = session.finish(60_000).unwrap();
    assert_eq!(outcome.length, 1);
    assert_eq!(outcome.wordlist, Wordlist::English1k);
    assert_eq!(outcome.mode, TestMode::Words(1));
    assert_eq!(outcome.hits, 1);
    assert_eq!(outcome.misses, 1);
    assert_eq!(outcome.time_ms, 60_000);
    // 2 chars over 60 s: 0.40 WPM gross; one error a minute eats it all
    assert_eq!(outcome.wpm, (40, 0));
}

#[test]
fn events_drive_the_session() {
    let mut session = fresh("cat dog", TestMode::Words(2));
    assert!(!session.handle_event(TestEvent::Tick, 10));
    assert!(!session.handle_event(TestEvent::Key(Key::Char('c')), 20));
    assert_eq!(session.cursor(), 1);
    assert!(!session.handle_event(TestEvent::Resize(80, 24), 30));
    assert_eq!(session.screen_size(), (80, 24));
}

#[test]
fn layout_centers_the_textbox() {
    let mut session = fresh("cat dog", TestMode::Words(2));
    session.set_line_limit(2);
    session.apply_screen_limits((80, 24));
    // centered: 80/2 - 7/2 - 4 = 33, two rows under the top padding
    assert_eq!(session.text_origin(), (33, 3));
    assert_eq!(session.text_area(), (72, 2));
    assert_eq!(session.textbox_capacity(), 144);
    assert!(!session.truncated());
    assert_eq!(session.letter_cell(0), (33, 3));
    assert_eq!(session.letter_cell(75), (36, 4));
    assert_eq!(session.truncation_cell(), (40, 5));
}

#[test]
fn layout_clamps_to_the_left_padding() {
    let phrase: String = "x".repeat(100);
    let mut session = TestRenderer::new(Wordlist::English1k, phrase, TestMode::Words(20), 0);
    session.set_line_limit(1);
    session.apply_screen_limits((40, 12));
    // a long phrase would center off-screen; it clamps to the padding
    assert_eq!(session.text_origin(), (4, 3));
    assert_eq!(session.text_area(), (32, 1));
    assert!(session.truncated());
}

#[test]
fn live_speed_reads_through_the_session() {
    let mut session = fresh("cat dog", TestMode::Words(2));
    session.handle_event(TestEvent::Key(Key::Char('c')), 100);
    session.handle_event(TestEvent::Key(Key::Char('a')), 200);
    // two presses inside the window: 2 * 12.00 WPM
    assert_eq!(session.live_speed(1100), 2400);
}
