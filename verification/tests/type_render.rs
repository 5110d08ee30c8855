use wpm::letter::Letter;
use wpm::session::Key;
use wpm::type_render::TypeRenderer;

#[test]
fn plain_run_marks_hits_and_misses() {
    let mut run = TypeRenderer::new(String::from("ab"));
    run.handle_key(Key::Char('a'));
    assert_eq!(run.cursor(), 1);
    assert_eq!(run.letter(0), Letter::Hit('a'));
    run.handle_key(Key::Char('x'));
    assert_eq!(run.cursor(), 2);
    assert_eq!(run.letter(1), Letter::Miss('b'));
    assert_eq!(run.count_misses(), 1);
}

#[test]
fn plain_run_backspace_reverts() {
    let mut run = TypeRenderer::new(String::from("ab"));
    run.handle_key(Key::Char('x'));
    assert_eq!(run.count_misses(), 1);
    run.handle_key(Key::Backspace);
    assert_eq!(run.cursor(), 0);
    assert_eq!(run.letter(0), Letter::Char('a'));
    assert_eq!(run.count_misses(), 0);
}

#[test]
fn plain_run_advances_past_expected_spaces() {
    // unlike the full session, the bare run has no space handling: a wrong
    // character where a space is expected is just a miss
    let mut run = TypeRenderer::new(String::from("a b"));
    run.handle_key(Key::Char('a'));
    run.handle_key(Key::Char('x'));
    assert_eq!(run.cursor(), 2);
    assert_eq!(run.letter(1), Letter::Miss(' '));
}

#[test]
fn plain_run_ignores_keys_past_the_end() {
    let mut run = TypeRenderer::new(String::from("a"));
    run.handle_key(Key::Char('a'));
    assert_eq!(run.cursor(), 1);
    run.handle_key(Key::Char('a'));
    assert_eq!(run.cursor(), 1);
}
