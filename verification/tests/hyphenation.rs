use hyphenate::hyphenation::{do_hyphenate, hyphenate, HyphenParams};
use hyphenate::lang::{parse_lang, Lang};
use hyphenate::segments::join_parts;

#[test]
fn parse_lang_recognized_codes() {
    assert_eq!(parse_lang("en"), Lang::English);
    assert_eq!(parse_lang("nl"), Lang::Dutch);
    assert_eq!(parse_lang("es"), Lang::Spanish);
    assert_eq!(parse_lang("fr"), Lang::French);
    assert_eq!(parse_lang("de"), Lang::German);
}

#[test]
fn parse_lang_falls_back_to_english() {
    assert_eq!(parse_lang("xx"), Lang::English);
    assert_eq!(parse_lang(""), Lang::English);
    assert_eq!(parse_lang("EN"), Lang::English);
    assert_eq!(parse_lang("eng"), Lang::English);
}

#[test]
fn english_word_round_trips() {
    let out = hyphenate("computer", "en", "-");
    assert_eq!(out.replace('-', ""), "computer");
    assert!(out.contains('-'));
}

#[test]
fn known_english_segmentation() {
    assert_eq!(hyphenate("extensive", "en", "-"), "ex-ten-sive");
}

#[test]
fn soft_hyphen_delimiter() {
    assert_eq!(hyphenate("wonderful", "en", "\u{ad}"), "won\u{ad}der\u{ad}ful");
}

#[test]
fn dutch_word_with_interpunct() {
    let out = hyphenate("hallo", "nl", "\u{b7}");
    assert_eq!(out.replace('\u{b7}', ""), "hallo");
}

#[test]
fn unrecognized_code_equals_english() {
    assert_eq!(hyphenate("bonjour", "xx", "-"), hyphenate("bonjour", "en", "-"));
    assert_eq!(hyphenate("bonjour", "", "-"), hyphenate("bonjour", "en", "-"));
}

#[test]
fn single_syllable_has_no_delimiter() {
    assert_eq!(hyphenate("a", "en", "-"), "a");
}

#[test]
fn empty_delimiter_concatenates() {
    assert_eq!(hyphenate("extensive", "en", ""), "extensive");
}

#[test]
fn delimiter_changes_only_separators() {
    let dash = hyphenate("extensive", "en", "-");
    let plus = hyphenate("extensive", "en", "+");
    let dash_segs: Vec<&str> = dash.split('-').collect();
    let plus_segs: Vec<&str> = plus.split('+').collect();
    assert_eq!(dash_segs, plus_segs);
}

#[test]
fn request_struct_answers_like_hyphenate() {
    let params = HyphenParams {
        word: String::from("extensive"),
        lang: String::from("en"),
        delimiter: String::from("-"),
    };
    assert_eq!(do_hyphenate(&params), hyphenate("extensive", "en", "-"));
}

#[test]
fn join_parts_inserts_delimiter_between_pairs() {
    let parts = vec![String::from("ab"), String::from("c"), String::from("d")];
    assert_eq!(join_parts(&parts, "-"), "ab-c-d");
    assert_eq!(join_parts(&parts, ""), "abcd");
}

#[test]
fn join_parts_edge_cases() {
    let none: Vec<String> = vec![];
    assert_eq!(join_parts(&none, "-"), "");
    let one = vec![String::from("solo")];
    assert_eq!(join_parts(&one, "-"), "solo");
}
