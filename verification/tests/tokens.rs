use wpm::tokens::{str_to_tokens, tokens_to_phrase};

#[test]
fn tokens_split_on_line_feeds() {
    assert_eq!(str_to_tokens("cat\ndog"), vec!["cat", "dog"]);
}

#[test]
fn tokens_strip_carriage_returns_before_line_feeds() {
    assert_eq!(str_to_tokens("cat\r\ndog\n"), vec!["cat", "dog"]);
}

#[test]
fn empty_text_has_no_tokens() {
    assert_eq!(str_to_tokens(""), Vec::<&str>::new());
}

#[test]
fn blank_lines_are_kept() {
    assert_eq!(str_to_tokens("a\n\nb"), vec!["a", "", "b"]);
}

#[test]
fn single_token_phrases_are_deterministic() {
    let tokens = vec!["cat"];
    assert_eq!(tokens_to_phrase(3, &tokens), "cat cat cat");
    assert_eq!(tokens_to_phrase(1, &tokens), "cat");
    assert_eq!(tokens_to_phrase(0, &tokens), "");
}

#[test]
fn phrases_draw_only_listed_tokens() {
    let tokens = vec!["cat", "dog"];
    let phrase = tokens_to_phrase(10, &tokens);
    let words: Vec<&str> = phrase.split(' ').collect();
    assert_eq!(words.len(), 10);
    for w in words {
        assert!(w == "cat" || w == "dog");
    }
}
