//! Word expansion over literal spans.

use smash::ast::{Span, Word};
use smash::expand::{expand_word_into_vec, expand_words, str_eq};
use smash::shell::Shell;

#[test]
fn word_expands_to_the_joined_span_texts() {
    let shell = Shell::new();
    let word = Word {
        spans: vec![Span::Literal("ec".to_string()), Span::Literal("ho".to_string())],
    };
    let fields = expand_word_into_vec(&shell, &word, "\n\t ");
    assert_eq!(fields, vec!["echo".to_string()]);
}

#[test]
fn word_with_no_spans_expands_to_one_empty_field() {
    let shell = Shell::new();
    let word = Word { spans: vec![] };
    let fields = expand_word_into_vec(&shell, &word, "\n\t ");
    assert_eq!(fields, vec![String::new()]);
}

#[test]
fn words_expand_in_order_one_field_each() {
    let shell = Shell::new();
    let words = vec![
        Word { spans: vec![Span::Literal("echo".to_string())] },
        Word { spans: vec![Span::Literal("hi".to_string())] },
        Word { spans: vec![Span::Literal("".to_string())] },
    ];
    let argv = expand_words(&shell, &words);
    assert_eq!(argv, vec!["echo".to_string(), "hi".to_string(), String::new()]);
}

#[test]
fn str_eq_compares_texts() {
    assert!(str_eq("exit", "exit"));
    assert!(!str_eq("exit", "exi"));
    assert!(!str_eq("", "a"));
    assert!(str_eq("", ""));
}

#[test]
fn ifs_is_newline_tab_space() {
    let shell = Shell::new();
    assert_eq!(shell.ifs(), "\n\t ".to_string());
}
