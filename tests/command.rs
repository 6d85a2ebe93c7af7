use prodcon::command::{buflen, get_n_spaces, is_white_space, tokenize};

#[test]
fn spaces_are_counted() {
    assert_eq!(get_n_spaces("ls -l  /tmp"), 3);
    assert_eq!(get_n_spaces(""), 0);
    assert_eq!(get_n_spaces("echo"), 0);
    assert_eq!(get_n_spaces("a\tb\nc"), 0);
    assert_eq!(get_n_spaces(" é "), 2);
}

#[test]
fn buffer_length_adds_terminator() {
    assert_eq!(buflen(""), 1);
    assert_eq!(buflen("abc"), 4);
    assert_eq!(buflen("é"), 3);
}

#[test]
fn tokenize_splits_at_white_space() {
    assert_eq!(tokenize("ls -l /tmp"), vec!["ls", "-l", "/tmp"]);
    assert_eq!(tokenize("  echo \t hi\n"), vec!["echo", "hi"]);
    assert_eq!(tokenize(""), Vec::<String>::new());
    assert_eq!(tokenize("   "), Vec::<String>::new());
    assert_eq!(tokenize("a\u{3000}b\u{a0}c"), vec!["a", "b", "c"]);
}

#[test]
fn tokenize_strips_enclosing_quotes() {
    assert_eq!(tokenize("echo \"hello\" \"x"), vec!["echo", "hello", "\"x"]);
    assert_eq!(tokenize("\" \"\""), vec!["\"", ""]);
    assert_eq!(tokenize("say \"\""), vec!["say", ""]);
    assert_eq!(tokenize("\"a b\""), vec!["\"a", "b\""]);
}

#[test]
fn white_space_set() {
    assert!(is_white_space(' '));
    assert!(is_white_space('\t'));
    assert!(is_white_space('\u{2028}'));
    assert!(!is_white_space('a'));
    assert!(!is_white_space('"'));
    for c in ['\u{0}', 'x', '\u{200b}', '\u{180e}', '\u{feff}', '\u{85}', '\u{1680}', '\r'] {
        assert_eq!(is_white_space(c), c.is_whitespace());
    }
}
