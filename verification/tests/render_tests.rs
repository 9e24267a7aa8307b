//! Exact rendered pattern text for every constructor and combinator.

use pretty_regex::logic::{not, symmetric_difference_between, Complement};
use pretty_regex::unicode::{property_class, Category};
use pretty_regex::{
    alphabetic, alphanumeric, any, ascii_alphabetic, ascii_alphanumeric, ascii_lowercase,
    beginning, digit, ending, just, lowercase, nonescaped, one_of, text_beginning, text_ending,
    whitespace, within, within_char_range, without, without_char_range, word, word_boundary,
    PrettyRegex,
};

#[test]
fn render_new_is_empty() {
    let r: PrettyRegex = PrettyRegex::new();
    assert_eq!(r.render(), "");
}

#[test]
fn render_just_plain_text() {
    assert_eq!(just("abc").render(), "(?:abc)");
}

#[test]
fn render_just_escapes_meta_characters() {
    assert_eq!(just("a.b").render(), "(?:a\\.b)");
    assert_eq!(just("1+1").render(), "(?:1\\+1)");
    assert_eq!(just("[a](b)").render(), "(?:\\[a\\]\\(b\\))");
}

#[test]
fn render_nonescaped_is_verbatim() {
    assert_eq!(nonescaped("^\\d$").render(), "(?:^\\d$)");
}

#[test]
fn render_standard_classes() {
    assert_eq!(any().render(), ".");
    assert_eq!(digit().render(), "\\d");
    assert_eq!(word().render(), "\\w");
    assert_eq!(word_boundary().render(), "\\b");
    assert_eq!(whitespace().render(), "\\s");
}

#[test]
fn render_anchors() {
    assert_eq!(beginning().render(), "^");
    assert_eq!(ending().render(), "$");
    assert_eq!(text_beginning().render(), "\\A");
    assert_eq!(text_ending().render(), "\\z");
}

#[test]
fn render_ascii_classes() {
    assert_eq!(ascii_alphabetic().render(), "[[:alpha:]]");
    assert_eq!(ascii_alphanumeric().render(), "[[:alnum:]]");
    assert_eq!(ascii_lowercase().render(), "[[:lower:]]");
}

#[test]
fn render_unicode_classes() {
    assert_eq!(alphabetic().render(), "\\p{Letter}");
    assert_eq!(lowercase().render(), "\\p{Lowercase_Letter}");
    assert_eq!(alphanumeric().render(), "\\p{Letter}|\\p{Number}");
    assert_eq!(property_class(Category::Number).render(), "\\p{Number}");
}

#[test]
fn render_within_keeps_caller_order() {
    assert_eq!(within(&['a', 'b']).render(), "[ab]");
    assert_eq!(within(&['b', 'a']).render(), "[ba]");
    assert_eq!(within(&[]).render(), "[]");
}

#[test]
fn render_without() {
    assert_eq!(without(&['a', 'b']).render(), "[^ab]");
}

#[test]
fn render_char_ranges() {
    assert_eq!(within_char_range('a'..='z').render(), "[a-z]");
    assert_eq!(without_char_range('a'..='z').render(), "[^a-z]");
}

#[test]
fn render_then_concatenates() {
    assert_eq!(just("a").then(just("b")).render(), "(?:a)(?:b)");
}

#[test]
fn render_or_joins_with_pipe() {
    assert_eq!(just("a").or(just("b")).render(), "(?:a)|(?:b)");
}

#[test]
fn render_one_of_joins_left_to_right() {
    let r = one_of(&[just("a"), just("b"), just("c")]);
    assert_eq!(r.render(), "(?:a)|(?:b)|(?:c)");
    let single = one_of(&[just("a")]);
    assert_eq!(single.render(), "(?:a)");
}

#[test]
fn render_repeats() {
    assert_eq!(just("foo").repeats(3).render(), "(?:(?:foo)){3}");
    assert_eq!(just("a").repeats(0).render(), "(?:(?:a)){0}");
    assert_eq!(just("a").repeats(12).render(), "(?:(?:a)){12}");
    assert_eq!(just("a").repeats(205).render(), "(?:(?:a)){205}");
}

#[test]
fn render_repeats_at_least() {
    assert_eq!(just("foo").repeats_at_least(2).render(), "(?:(?:foo)){2,}");
}

#[test]
fn render_repeats_one_or_more() {
    assert_eq!(just("foo").repeats_one_or_more_times().render(), "(?:(?:foo))+");
}

#[test]
fn render_optional() {
    assert_eq!(just("foo").optional().render(), "(?:(?:foo))?");
}

#[test]
fn render_repeats_zero_or_more() {
    assert_eq!(just("foo").repeats_zero_or_more_times().render(), "(?:(?:foo))*");
}

#[test]
fn render_repeats_n_times_within_maps_bounds() {
    assert_eq!(just("f").repeats_n_times_within(3..5).render(), "(?:(?:f)){3,5}");
}

#[test]
fn render_lazy_appends_question_mark() {
    assert_eq!(just("a").repeats_at_least(3).lazy().render(), "(?:(?:a)){3,}?");
}

#[test]
fn render_captures() {
    assert_eq!(just("a").unnamed_capture().render(), "((?:a))");
    assert_eq!(just("a").named_capture("x").render(), "(?P<x>(?:a))");
}

#[test]
fn render_intersection() {
    let r = ascii_alphabetic().and(ascii_alphanumeric());
    assert_eq!(r.render(), "[[[:alpha:]]&&[[:alnum:]]]");
}

#[test]
fn render_difference() {
    let r = ascii_alphanumeric().sub(ascii_alphabetic());
    assert_eq!(r.render(), "[[[:alnum:]]--[[:alpha:]]]");
}

#[test]
fn render_symmetric_difference() {
    let a = within_char_range('a'..='f');
    let b = within_char_range('c'..='z');
    assert_eq!(a.symmetric_difference_with(b).render(), "[[a-f]~~[c-z]]");
    let a2 = within_char_range('a'..='f');
    let b2 = within_char_range('c'..='z');
    assert_eq!(symmetric_difference_between(a2, b2).render(), "[[a-f]~~[c-z]]");
}

#[test]
fn render_not_standard_swaps_case() {
    assert_eq!(not(digit()).render(), "\\D");
    assert_eq!(not(word()).render(), "\\W");
    assert_eq!(not(whitespace()).render(), "\\S");
    assert_eq!(not(word_boundary()).render(), "\\B");
    assert_eq!(not(alphabetic()).render(), "\\P{Letter}");
}

#[test]
fn render_not_standard_double_negation_restores() {
    assert_eq!(not(not(digit())).render(), "\\d");
    assert_eq!(not(not(alphabetic())).render(), "\\p{Letter}");
}

#[test]
fn render_not_standard_short_pattern_unchanged() {
    assert_eq!(not(any()).render(), ".");
    assert_eq!(not(beginning()).render(), "^");
}

#[test]
fn render_not_custom_toggles_negation() {
    assert_eq!(not(within(&['a', 'b'])).render(), "[^ab]");
    assert_eq!(not(without(&['a', 'b'])).render(), "[ab]");
    assert_eq!(not(within_char_range('a'..='z')).render(), "[^a-z]");
    assert_eq!(not(without_char_range('a'..='z')).render(), "[a-z]");
}

#[test]
fn render_not_ascii_toggles_posix_marker() {
    assert_eq!(not(ascii_alphabetic()).render(), "[[:^alpha:]]");
    assert_eq!(not(not(ascii_alphabetic())).render(), "[[:alpha:]]");
}

#[test]
fn render_not_text_negates_each_literal_character() {
    assert_eq!(just("ab").not().render(), "[^a][^b]");
}

#[test]
fn render_not_text_unescapes_the_literal_first() {
    assert_eq!(just("a.b").not().render(), "[^a][^.][^b]");
}

#[test]
fn render_chain_builds_zip_pattern() {
    let r = digit().repeats(5).then(just("-").then(digit().repeats(4)).optional());
    assert_eq!(r.render(), "(?:\\d){5}(?:(?:\\-)(?:\\d){4})?");
}
