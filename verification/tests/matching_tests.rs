//! Behavior of compiled patterns against the real engine.

use pretty_regex::logic::not;
use pretty_regex::unicode::{property_class, Category};
use pretty_regex::{
    alphabetic, alphanumeric, any, ascii_alphabetic, ascii_alphanumeric, ascii_lowercase,
    beginning, digit, ending, just, lowercase, nonescaped, one_of, text_beginning, text_ending,
    whitespace, within, within_char_range, without, without_char_range, word,
};

fn compiled<T>(r: &pretty_regex::PrettyRegex<T>) -> regex::Regex {
    r.to_regex().ok().unwrap()
}

/// Anchors a fragment so a match must cover the whole text.
fn whole<T>(r: pretty_regex::PrettyRegex<T>) -> regex::Regex {
    compiled(&text_beginning().then(r).then(text_ending()))
}

#[test]
fn literal_matches_exactly_itself() {
    let re = whole(just("abc"));
    assert!(re.is_match("abc"));
    assert!(!re.is_match("abd"));
    assert!(!re.is_match("xbc"));
    assert!(!re.is_match("ab"));
    assert!(!re.is_match("abcd"));
}

#[test]
fn literal_meta_characters_are_inert() {
    let re = whole(just("a.b"));
    assert!(re.is_match("a.b"));
    assert!(!re.is_match("axb"));
    let re = whole(just("1+1"));
    assert!(re.is_match("1+1"));
    assert!(!re.is_match("11"));
    assert!(!re.is_match("111"));
}

#[test]
fn nonescaped_is_raw_syntax() {
    let re = compiled(&nonescaped("^\\d$"));
    assert!(re.is_match("2"));
    assert!(!re.is_match("a"));
}

#[test]
fn invalid_raw_syntax_reports_compile_error() {
    let err = nonescaped("(").to_regex().err().unwrap();
    assert!(!err.message.is_empty());
}

#[test]
fn compile_error_carries_the_engine_diagnostic() {
    let message = nonescaped("(").to_regex().err().unwrap().message;
    let expected = regex::Regex::new("(?:()").unwrap_err().to_string();
    assert_eq!(message, expected);
}

#[test]
fn valid_patterns_compile() {
    assert!(digit().to_regex().is_ok());
    assert!(just("(").to_regex().is_ok());
}

#[test]
fn any_rejects_newline() {
    let re = compiled(&any());
    assert!(!re.is_match("\n"));
    assert!(re.is_match("a"));
}

#[test]
fn digit_matches_digits_only() {
    let re = compiled(&digit());
    assert!(re.is_match("1"));
    assert!(re.is_match("7"));
    assert!(!re.is_match("a"));
}

#[test]
fn word_matches_alphanumerics_and_underscore() {
    let re = compiled(&word());
    assert!(re.is_match("a"));
    assert!(re.is_match("2"));
    assert!(re.is_match("_"));
    assert!(!re.is_match("?"));
}

#[test]
fn whitespace_matches_blanks() {
    let re = compiled(&whitespace());
    assert!(re.is_match("\n"));
    assert!(re.is_match(" "));
    assert!(!re.is_match("a"));
}

#[test]
fn ascii_classes_match_ascii() {
    let alpha = compiled(&ascii_alphabetic());
    assert!(alpha.is_match("a"));
    assert!(alpha.is_match("B"));
    assert!(!alpha.is_match("1"));
    let lower = compiled(&ascii_lowercase());
    assert!(lower.is_match("b"));
    assert!(!lower.is_match("A"));
    assert!(!lower.is_match("\u{044E}"));
}

#[test]
fn unicode_classes_follow_categories() {
    let letters = compiled(&alphabetic());
    assert!(letters.is_match("a"));
    assert!(letters.is_match("\u{044E}"));
    assert!(!letters.is_match("5"));
    let lower = compiled(&lowercase());
    assert!(lower.is_match("\u{044E}"));
    assert!(!lower.is_match("A"));
    let alnum = compiled(&alphanumeric());
    assert!(alnum.is_match("5"));
    assert!(alnum.is_match("a"));
    assert!(!alnum.is_match("!"));
    let numbers = compiled(&property_class(Category::Number));
    assert!(numbers.is_match("4"));
    assert!(!numbers.is_match("x"));
}

#[test]
fn within_accepts_listed_characters_only() {
    let re = compiled(&within(&['a', 'b']));
    assert!(re.is_match("a"));
    assert!(re.is_match("b"));
    assert!(!re.is_match("c"));
}

#[test]
fn without_is_complement_of_within_on_single_characters() {
    let re = compiled(&without(&['a', 'b']));
    assert!(!re.is_match("a"));
    assert!(!re.is_match("b"));
    assert!(re.is_match("c"));
}

#[test]
fn char_range_accepts_inside_rejects_outside() {
    let re = compiled(&within_char_range('a'..='z'));
    assert!(re.is_match("a"));
    assert!(re.is_match("m"));
    assert!(!re.is_match("Z"));
}

#[test]
fn negated_char_range_is_the_exact_opposite() {
    let re = compiled(&without_char_range('a'..='z'));
    assert!(!re.is_match("a"));
    assert!(re.is_match("Z"));
}

#[test]
fn counted_range_bounds_are_inclusive_in_syntax() {
    let re = compiled(&just("f").repeats_n_times_within(3..5));
    assert!(!re.is_match("f"));
    assert!(!re.is_match("ff"));
    assert!(re.is_match("ffff"));
    let anchored = whole(just("f").repeats_n_times_within(3..5));
    assert!(anchored.is_match("fff"));
    assert!(anchored.is_match("fffff"));
    assert!(!anchored.is_match("ff"));
    assert!(!anchored.is_match("ffffff"));
}

#[test]
fn zip_code_pattern_matches_both_forms() {
    let re = compiled(&digit().repeats(5).then(just("-").then(digit().repeats(4)).optional()));
    assert!(re.is_match("12345-6789"));
    assert!(re.is_match("12345"));
    assert!(!re.is_match("1234"));
}

#[test]
fn named_captures_round_trip() {
    let re = compiled(
        &digit()
            .repeats(2)
            .named_capture("month")
            .then(just("-"))
            .then(digit().repeats(2).named_capture("day")),
    );
    let caps = re.captures("08-05").unwrap();
    assert_eq!(&caps["month"], "08");
    assert_eq!(&caps["day"], "05");
}

#[test]
fn unnamed_captures_are_positional() {
    let re = compiled(
        &digit()
            .repeats(2)
            .unnamed_capture()
            .then(just("-"))
            .then(digit().repeats(2).unnamed_capture()),
    );
    let caps = re.captures("08-05").unwrap();
    assert_eq!(caps.get(1).unwrap().as_str(), "08");
    assert_eq!(caps.get(2).unwrap().as_str(), "05");
}

#[test]
fn intersection_keeps_common_characters() {
    let re = compiled(&ascii_alphabetic().and(ascii_alphanumeric()));
    assert!(re.is_match("a"));
    assert!(!re.is_match("3"));
}

#[test]
fn difference_removes_right_class() {
    let re = compiled(&ascii_alphanumeric().sub(ascii_alphabetic()));
    assert!(re.is_match("3"));
    assert!(!re.is_match("a"));
}

#[test]
fn symmetric_difference_drops_overlap() {
    let a = within_char_range('a'..='f');
    let b = within_char_range('c'..='z');
    let re = compiled(&a.symmetric_difference_with(b));
    assert!(re.is_match("a"));
    assert!(re.is_match("z"));
    assert!(!re.is_match("d"));
}

#[test]
fn complement_of_digit_matches_non_digits() {
    let re = compiled(&not(digit()));
    assert!(!re.is_match("1"));
    assert!(re.is_match("a"));
}

#[test]
fn double_complement_matches_like_original() {
    let re = compiled(&not(not(digit())));
    assert!(re.is_match("5"));
    assert!(!re.is_match("a"));
}

#[test]
fn complement_of_within_matches_like_without() {
    let re = compiled(&not(within(&['a', 'b'])));
    assert!(!re.is_match("a"));
    assert!(!re.is_match("b"));
    assert!(re.is_match("c"));
}

#[test]
fn complement_of_ascii_class_flips_membership() {
    let re = compiled(&not(ascii_alphabetic()));
    assert!(!re.is_match("a"));
    assert!(re.is_match("3"));
}

#[test]
fn complement_of_literal_negates_each_position() {
    // one negated single-character class per literal character: a match
    // must have the literal's length and differ from it in every position
    let re = whole(not(just("ab")));
    assert!(re.is_match("xy"));
    assert!(re.is_match("ba"));
    assert!(!re.is_match("ab"));
    assert!(!re.is_match("ax"));
    assert!(!re.is_match("xb"));
    assert!(!re.is_match("a"));
    assert!(!re.is_match("abc"));
}

#[test]
fn complement_of_escaped_literal_compiles_and_matches() {
    let re = whole(not(just("a.b")));
    assert!(re.is_match("x,y"));
    assert!(!re.is_match("a.b"));
    assert!(!re.is_match("x.y"));
    assert!(!re.is_match("aXb"));
}

#[test]
fn alternation_matches_any_branch() {
    let re = compiled(&one_of(&[just("hi"), just("bar")]));
    assert!(re.is_match("hi"));
    assert!(re.is_match("bar"));
    assert!(!re.is_match("baz"));
    let re = compiled(&just("hi").or(just("bar")));
    assert!(re.is_match("bar"));
    assert!(!re.is_match("baz"));
}

#[test]
fn line_anchors_pin_the_match() {
    let re = compiled(&beginning().then(just("foo")));
    assert!(re.is_match("foo"));
    assert!(!re.is_match("ffoo"));
    let re = compiled(&just("foo").then(ending()));
    assert!(re.is_match("foo"));
    assert!(!re.is_match("foof"));
}

#[test]
fn text_anchors_pin_the_match() {
    let re = compiled(&text_beginning().then(just("foo")));
    assert!(re.is_match("foo"));
    assert!(!re.is_match("ffoo"));
    let re = compiled(&just("foo").then(text_ending()));
    assert!(re.is_match("foo"));
    assert!(!re.is_match("foof"));
}

#[test]
fn quantifiers_bound_repetition() {
    let re = compiled(&just("foo").repeats(3));
    assert!(re.is_match("foofoofoo"));
    assert!(!re.is_match("foo"));
    let re = compiled(&just("foo").repeats_at_least(2));
    assert!(!re.is_match("foo"));
    assert!(re.is_match("foofoo"));
    let re = compiled(&just("foo").repeats_one_or_more_times());
    assert!(re.is_match("foo"));
    assert!(!re.is_match("bar"));
    let re = compiled(&just("foo").optional());
    assert!(re.is_match(""));
    assert!(re.is_match("foo"));
    let re = compiled(&just("foo").repeats_zero_or_more_times());
    assert!(re.is_match(""));
    assert!(re.is_match("foofoo"));
}

#[test]
fn repeats_zero_matches_the_empty_string_only() {
    let re = whole(just("a").repeats(0));
    assert!(re.is_match(""));
    assert!(!re.is_match("a"));
}

#[test]
fn lazy_quantifier_prefers_the_shortest_match() {
    let greedy = compiled(&just("a").repeats_at_least(1));
    assert_eq!(greedy.find("aaa").unwrap().as_str(), "aaa");
    let lazy = compiled(&just("a").repeats_at_least(1).lazy());
    assert_eq!(lazy.find("aaa").unwrap().as_str(), "a");
}
