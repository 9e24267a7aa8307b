//! A typed combinator library for building regular-expression pattern strings.
//!
//! A [`PrettyRegex`] wraps a finished piece of pattern syntax together with a
//! compile-time kind tag. Constructors produce tagged fragments, combinators
//! splice fragments together, and the terminal operation hands the finished
//! pattern string to the `regex` crate for compilation.
//!
//! Every combinator's contract states the exact pattern text it produces, as
//! an equation over sequences of characters.

use vstd::prelude::*;
use core::marker::PhantomData;

pub mod engine;
pub mod logic;
pub mod std_specs;
pub mod syntax;
pub mod unicode;

use core::ops::{Range, RangeInclusive};

verus! {

use crate::engine::{engine_accepts, engine_diagnostic};
use crate::syntax::{
    counted, counted_at_least, counted_range, escaped, noncap_group, push_all,
    render_noncap_group, render_usize,
};
use crate::unicode::{category_escape, property_class, Category};

/// The engine rejected a pattern; carries the engine's diagnostic.
pub struct CompileError {
    pub message: String,
}

/// Marks a fragment holding a single-character ASCII class
/// (the kind surrounded by colons and two layers of square brackets).
pub struct Ascii;

/// Marks a fragment holding a custom single-character class
/// (the kind surrounded by one layer of square brackets).
pub struct Custom;

/// Marks a fragment that matches a single character from some class.
pub struct CharClass<T>(PhantomData<T>);

/// Marks a fragment holding a standard single-character class
/// (in most cases a backslash followed by a letter), e.g. `\d`, `\p{Arabic}`.
pub struct Standard;

/// Marks a fragment holding an escaped literal run of characters.
pub struct Text;

/// Marks a fragment holding an arbitrary, already-composed pattern.
pub struct Chain;

/// Marks a fragment that ends in a quantifier (an expression that matches a
/// given number of repetitions of a target). Greedy by default; can be made lazy.
pub struct Quantifier;

/// A pattern fragment: a finished piece of pattern syntax plus a
/// compile-time-only kind tag selecting which operations apply to it.
pub struct PrettyRegex<T = Chain> {
    pattern: String,
    kind: PhantomData<T>,
}

impl<T> View for PrettyRegex<T> {
    type V = Seq<char>;

    closed spec fn view(&self) -> Seq<char> {
        self.pattern@
    }
}

impl<T> PrettyRegex<T> {
    /// Creates a new empty fragment.
    pub fn new() -> (r: Self)
        ensures
            r@ == Seq::<char>::empty(),
    {
        PrettyRegex { pattern: String::new(), kind: PhantomData }
    }

    /// Wraps an already-rendered pattern string in a fragment of any kind.
    pub(crate) fn wrap(pattern: String) -> (r: Self)
        ensures
            r@ == pattern@,
    {
        PrettyRegex { pattern, kind: PhantomData }
    }

    /// Returns the finished pattern text, verbatim.
    pub fn render(&self) -> (r: String)
        ensures
            r@ == self@,
    {
        self.pattern.clone()
    }

    /// Borrows the finished pattern text.
    pub(crate) fn as_str(&self) -> (r: &str)
        ensures
            r@ == self@,
    {
        self.pattern.as_str()
    }

    /// Compiles the accumulated pattern with the external engine, returning
    /// a matcher exactly when the engine accepts the pattern and a
    /// [`CompileError`] carrying the engine's diagnostic otherwise.
    pub fn to_regex(&self) -> (r: Result<regex::Regex, CompileError>)
        ensures
            r is Ok <==> engine_accepts(self@),
            r is Err ==> r->Err_0.message@ == engine_diagnostic(self@),
    {
        match crate::engine::compile_pattern(self.pattern.as_str()) {
            Ok(re) => Ok(re),
            Err(message) => Err(CompileError { message }),
        }
    }

    /// Chains two fragments: the result's pattern is the left pattern followed
    /// by the right pattern, with no separator and no added grouping.
    pub fn then<U>(self, then: PrettyRegex<U>) -> (r: PrettyRegex<Chain>)
        ensures
            r@ == self@ + then@,
    {
        let mut pattern = self.pattern;
        pattern.append(then.pattern.as_str());
        PrettyRegex::wrap(pattern)
    }

    /// Joins two fragments as alternatives: left pattern, `|`, right pattern.
    /// The result is not wrapped in a group; a caller that needs the
    /// alternation grouped must capture or group it explicitly.
    pub fn or<U>(self, rhs: PrettyRegex<U>) -> (r: PrettyRegex<Chain>)
        ensures
            r@ == self@ + seq!['|'] + rhs@,
    {
        let mut pattern = self.pattern;
        pattern.push('|');
        pattern.append(rhs.pattern.as_str());
        proof {
            assert(pattern@ =~= self@ + seq!['|'] + rhs@);
        }
        PrettyRegex::wrap(pattern)
    }

    /// Matches the pattern exactly `times` times: wraps it in a
    /// non-capturing group and appends `{times}`.
    pub fn repeats(self, times: usize) -> (r: PrettyRegex<Quantifier>)
        ensures
            r@ == counted(self@, times as int),
    {
        let mut p = render_noncap_group(self.pattern.as_str());
        p.push('{');
        let n = render_usize(times);
        p.append(n.as_str());
        p.push('}');
        proof {
            assert(p@ =~= counted(self@, times as int));
        }
        PrettyRegex::wrap(p)
    }

    /// Matches the pattern at least `times` times: wraps it in a
    /// non-capturing group and appends `{times,}`.
    pub fn repeats_at_least(self, times: usize) -> (r: PrettyRegex<Quantifier>)
        ensures
            r@ == counted_at_least(self@, times as int),
    {
        let mut p = render_noncap_group(self.pattern.as_str());
        p.push('{');
        let n = render_usize(times);
        p.append(n.as_str());
        p.push(',');
        p.push('}');
        proof {
            assert(p@ =~= counted_at_least(self@, times as int));
        }
        PrettyRegex::wrap(p)
    }

    /// Matches the pattern one or more times: wraps it in a non-capturing
    /// group and appends `+`.
    pub fn repeats_one_or_more_times(self) -> (r: PrettyRegex<Quantifier>)
        ensures
            r@ == noncap_group(self@) + seq!['+'],
    {
        let mut p = render_noncap_group(self.pattern.as_str());
        p.push('+');
        PrettyRegex::wrap(p)
    }

    /// Matches the pattern zero or one time: wraps it in a non-capturing
    /// group and appends `?`.
    pub fn optional(self) -> (r: PrettyRegex<Quantifier>)
        ensures
            r@ == noncap_group(self@) + seq!['?'],
    {
        let mut p = render_noncap_group(self.pattern.as_str());
        p.push('?');
        PrettyRegex::wrap(p)
    }

    /// Matches the pattern zero or more times: wraps it in a non-capturing
    /// group and appends `*`.
    pub fn repeats_zero_or_more_times(self) -> (r: PrettyRegex<Quantifier>)
        ensures
            r@ == noncap_group(self@) + seq!['*'],
    {
        let mut p = render_noncap_group(self.pattern.as_str());
        p.push('*');
        PrettyRegex::wrap(p)
    }

    /// Matches the pattern `n` times for `n` in the given range: wraps the
    /// pattern in a non-capturing group and appends `{start,end}`. The range
    /// is given with an exclusive upper bound, while the engine reads both
    /// bounds of the rendered counted range as inclusive; this boundary
    /// mapping is deliberate.
    pub fn repeats_n_times_within(self, range: Range<usize>) -> (r: PrettyRegex<Quantifier>)
        ensures
            r@ == counted_range(self@, range.start as int, range.end as int),
    {
        let mut p = render_noncap_group(self.pattern.as_str());
        p.push('{');
        let lo = render_usize(range.start);
        p.append(lo.as_str());
        p.push(',');
        let hi = render_usize(range.end);
        p.append(hi.as_str());
        p.push('}');
        proof {
            assert(p@ =~= counted_range(self@, range.start as int, range.end as int));
        }
        PrettyRegex::wrap(p)
    }

    /// Wraps the pattern in a plain capturing group. Capture indices are
    /// positional, determined left to right by the final pattern; tracking
    /// them is the engine's concern at match time.
    pub fn unnamed_capture(self) -> (r: PrettyRegex<Chain>)
        ensures
            r@ == seq!['('] + self@ + seq![')'],
    {
        let mut p = String::new();
        p.push('(');
        p.append(self.pattern.as_str());
        p.push(')');
        proof {
            assert(p@ =~= seq!['('] + self@ + seq![')']);
        }
        PrettyRegex::wrap(p)
    }

    /// Wraps the pattern in a named capturing group using the given
    /// identifier. The identifier's syntax is not validated here; the engine
    /// checks it at compile time.
    pub fn named_capture(self, name: &str) -> (r: PrettyRegex<Chain>)
        ensures
            r@ == seq!['(', '?', 'P', '<'] + name@ + seq!['>'] + self@ + seq![')'],
    {
        let mut p = String::new();
        p.push('(');
        p.push('?');
        p.push('P');
        p.push('<');
        p.append(name);
        p.push('>');
        p.append(self.pattern.as_str());
        p.push(')');
        proof {
            assert(p@ =~= seq!['(', '?', 'P', '<'] + name@ + seq!['>'] + self@ + seq![')']);
        }
        PrettyRegex::wrap(p)
    }
}

impl PrettyRegex<Quantifier> {
    /// Appends the lazy modifier `?` to a quantifier, making it non-greedy.
    /// Only quantifier fragments offer this operation, so applying it to any
    /// other kind is rejected when the calling program is compiled.
    pub fn lazy(&self) -> (r: PrettyRegex<Chain>)
        ensures
            r@ == self@ + seq!['?'],
    {
        let mut p = self.pattern.clone();
        p.push('?');
        proof {
            assert(p@ =~= self@ + seq!['?']);
        }
        PrettyRegex::wrap(p)
    }
}

/// An escaped literal: matches the given text and only that text. Every meta
/// character is escaped, and the whole run is wrapped in a non-capturing
/// group.
pub fn just(text: &str) -> (r: PrettyRegex<Text>)
    ensures
        r@ == noncap_group(escaped(text@)),
{
    let escaped_text = crate::engine::escape_text(text);
    PrettyRegex::wrap(render_noncap_group(escaped_text.as_str()))
}

/// Raw pattern syntax, wrapped in a non-capturing group without escaping.
/// The caller is responsible for the syntax being valid; this is the sole
/// constructor that can later make the engine reject a pattern.
pub fn nonescaped(text: &str) -> (r: PrettyRegex<Chain>)
    ensures
        r@ == noncap_group(text@),
{
    PrettyRegex::wrap(render_noncap_group(text))
}

/// Matches any character except a line break: the pattern `.`.
pub fn any() -> (r: PrettyRegex<CharClass<Standard>>)
    ensures
        r@ == seq!['.'],
{
    let mut p = String::new();
    p.push('.');
    proof {
        assert(p@ =~= seq!['.']);
    }
    PrettyRegex::wrap(p)
}

/// Matches one digit: the class `\d`.
pub fn digit() -> (r: PrettyRegex<CharClass<Standard>>)
    ensures
        r@ == seq!['\\', 'd'],
{
    let mut p = String::new();
    p.push('\\');
    p.push('d');
    proof {
        assert(p@ =~= seq!['\\', 'd']);
    }
    PrettyRegex::wrap(p)
}

/// Matches one word character (alphanumeric or underscore): the class `\w`.
pub fn word() -> (r: PrettyRegex<CharClass<Standard>>)
    ensures
        r@ == seq!['\\', 'w'],
{
    let mut p = String::new();
    p.push('\\');
    p.push('w');
    proof {
        assert(p@ =~= seq!['\\', 'w']);
    }
    PrettyRegex::wrap(p)
}

/// Matches a word boundary: `\b`.
pub fn word_boundary() -> (r: PrettyRegex<CharClass<Standard>>)
    ensures
        r@ == seq!['\\', 'b'],
{
    let mut p = String::new();
    p.push('\\');
    p.push('b');
    proof {
        assert(p@ =~= seq!['\\', 'b']);
    }
    PrettyRegex::wrap(p)
}

/// Matches one whitespace character: the class `\s`.
pub fn whitespace() -> (r: PrettyRegex<CharClass<Standard>>)
    ensures
        r@ == seq!['\\', 's'],
{
    let mut p = String::new();
    p.push('\\');
    p.push('s');
    proof {
        assert(p@ =~= seq!['\\', 's']);
    }
    PrettyRegex::wrap(p)
}

/// Matches one ASCII alphabetic character: the class `[[:alpha:]]`.
pub fn ascii_alphabetic() -> (r: PrettyRegex<CharClass<Ascii>>)
    ensures
        r@ == seq!['[', '[', ':', 'a', 'l', 'p', 'h', 'a', ':', ']', ']'],
{
    let p = String::from_str("[[:alpha:]]");
    proof {
        reveal_strlit("[[:alpha:]]");
        assert(p@ =~= seq!['[', '[', ':', 'a', 'l', 'p', 'h', 'a', ':', ']', ']']);
    }
    PrettyRegex::wrap(p)
}

/// Matches one ASCII alphanumeric character: the class `[[:alnum:]]`.
pub fn ascii_alphanumeric() -> (r: PrettyRegex<CharClass<Ascii>>)
    ensures
        r@ == seq!['[', '[', ':', 'a', 'l', 'n', 'u', 'm', ':', ']', ']'],
{
    let p = String::from_str("[[:alnum:]]");
    proof {
        reveal_strlit("[[:alnum:]]");
        assert(p@ =~= seq!['[', '[', ':', 'a', 'l', 'n', 'u', 'm', ':', ']', ']']);
    }
    PrettyRegex::wrap(p)
}

/// Matches one ASCII lowercase character: the class `[[:lower:]]`.
pub fn ascii_lowercase() -> (r: PrettyRegex<CharClass<Ascii>>)
    ensures
        r@ == seq!['[', '[', ':', 'l', 'o', 'w', 'e', 'r', ':', ']', ']'],
{
    let p = String::from_str("[[:lower:]]");
    proof {
        reveal_strlit("[[:lower:]]");
        assert(p@ =~= seq!['[', '[', ':', 'l', 'o', 'w', 'e', 'r', ':', ']', ']']);
    }
    PrettyRegex::wrap(p)
}

/// Matches one character of the Unicode `Letter` category.
pub fn alphabetic() -> (r: PrettyRegex<CharClass<Standard>>)
    ensures
        r@ == category_escape(Category::Letter),
{
    property_class(Category::Letter)
}

/// Matches one character of the Unicode `Letter` or `Number` categories,
/// as an alternation of the two property escapes.
pub fn alphanumeric() -> (r: PrettyRegex<Chain>)
    ensures
        r@ == category_escape(Category::Letter) + seq!['|'] + category_escape(Category::Number),
{
    property_class(Category::Letter).or(property_class(Category::Number))
}

/// Matches one character of the Unicode `Lowercase_Letter` category.
pub fn lowercase() -> (r: PrettyRegex<CharClass<Standard>>)
    ensures
        r@ == category_escape(Category::LowercaseLetter),
{
    property_class(Category::LowercaseLetter)
}

/// Matches one character within the given set: the bracket expression
/// `[` + the characters in caller order + `]`. The characters are inserted
/// without escaping, so the caller must not pass characters that need
/// escaping inside a bracket expression.
pub fn within(set: &[char]) -> (r: PrettyRegex<CharClass<Custom>>)
    ensures
        r@ == seq!['['] + set@ + seq![']'],
{
    let mut p = String::new();
    p.push('[');
    push_all(&mut p, set);
    p.push(']');
    proof {
        assert(p@ =~= seq!['['] + set@ + seq![']']);
    }
    PrettyRegex::wrap(p)
}

/// Matches one character outside the given set: the negated bracket
/// expression `[^` + the characters in caller order + `]`.
pub fn without(set: &[char]) -> (r: PrettyRegex<CharClass<Custom>>)
    ensures
        r@ == seq!['[', '^'] + set@ + seq![']'],
{
    let mut p = String::new();
    p.push('[');
    p.push('^');
    push_all(&mut p, set);
    p.push(']');
    proof {
        assert(p@ =~= seq!['[', '^'] + set@ + seq![']']);
    }
    PrettyRegex::wrap(p)
}

/// Matches one character within the given inclusive range: the bracket
/// expression `[lo-hi]`.
pub fn within_char_range(range: RangeInclusive<char>) -> (r: PrettyRegex<CharClass<Custom>>)
    requires
        !range@.exhausted,
    ensures
        r@ == seq!['[', range@.start, '-', range@.end, ']'],
{
    let mut p = String::new();
    p.push('[');
    p.push(*range.start());
    p.push('-');
    p.push(*range.end());
    p.push(']');
    proof {
        assert(p@ =~= seq!['[', range@.start, '-', range@.end, ']']);
    }
    PrettyRegex::wrap(p)
}

/// Matches one character outside the given inclusive range: the negated
/// bracket expression `[^lo-hi]`.
pub fn without_char_range(range: RangeInclusive<char>) -> (r: PrettyRegex<CharClass<Custom>>)
    requires
        !range@.exhausted,
    ensures
        r@ == seq!['[', '^', range@.start, '-', range@.end, ']'],
{
    let mut p = String::new();
    p.push('[');
    p.push('^');
    p.push(*range.start());
    p.push('-');
    p.push(*range.end());
    p.push(']');
    proof {
        assert(p@ =~= seq!['[', '^', range@.start, '-', range@.end, ']']);
    }
    PrettyRegex::wrap(p)
}

/// Matches at the beginning of the text (of each line in multi-line mode):
/// the anchor `^`.
pub fn beginning() -> (r: PrettyRegex<CharClass<Standard>>)
    ensures
        r@ == seq!['^'],
{
    let mut p = String::new();
    p.push('^');
    proof {
        assert(p@ =~= seq!['^']);
    }
    PrettyRegex::wrap(p)
}

/// Matches at the end of the text (of each line in multi-line mode): the
/// anchor `$`.
pub fn ending() -> (r: PrettyRegex<CharClass<Standard>>)
    ensures
        r@ == seq!['$'],
{
    let mut p = String::new();
    p.push('$');
    proof {
        assert(p@ =~= seq!['$']);
    }
    PrettyRegex::wrap(p)
}

/// Matches at the beginning of the whole text, even in multi-line mode: the
/// anchor `\A`.
pub fn text_beginning() -> (r: PrettyRegex<CharClass<Standard>>)
    ensures
        r@ == seq!['\\', 'A'],
{
    let mut p = String::new();
    p.push('\\');
    p.push('A');
    proof {
        assert(p@ =~= seq!['\\', 'A']);
    }
    PrettyRegex::wrap(p)
}

/// Matches at the end of the whole text, even in multi-line mode: the
/// anchor `\z`.
pub fn text_ending() -> (r: PrettyRegex<CharClass<Standard>>)
    ensures
        r@ == seq!['\\', 'z'],
{
    let mut p = String::new();
    p.push('\\');
    p.push('z');
    proof {
        assert(p@ =~= seq!['\\', 'z']);
    }
    PrettyRegex::wrap(p)
}

/// The patterns of `options`, joined left to right with `|`.
pub open spec fn joined_patterns<T>(options: Seq<PrettyRegex<T>>) -> Seq<char>
    decreases options.len(),
{
    if options.len() == 0 {
        Seq::empty()
    } else if options.len() == 1 {
        options[0]@
    } else {
        joined_patterns(options.drop_last()) + seq!['|'] + options.last()@
    }
}

/// Joins one or more fragments as alternatives, `|` between neighbours,
/// without wrapping the result in a group.
pub fn one_of<T>(options: &[PrettyRegex<T>]) -> (r: PrettyRegex<Chain>)
    requires
        options@.len() >= 1,
    ensures
        r@ == joined_patterns(options@),
{
    let first = vstd::slice::slice_index_get(options, 0);
    let mut p = String::from_str(first.as_str());
    let mut i: usize = 1;
    proof {
        assert(p@ == joined_patterns(options@.take(1)));
    }
    while i < options.len()
        invariant
            1 <= i <= options@.len(),
            p@ == joined_patterns(options@.take(i as int)),
        decreases options@.len() - i,
    {
        p.push('|');
        let next = vstd::slice::slice_index_get(options, i);
        p.append(next.as_str());
        i = i + 1;
        proof {
            let t = options@.take(i as int);
            assert(t.drop_last() =~= options@.take(i - 1));
            assert(joined_patterns(t) == joined_patterns(t.drop_last()) + seq!['|'] + t.last()@);
            assert(p@ =~= joined_patterns(t));
        }
    }
    proof {
        assert(options@.take(options@.len() as int) =~= options@);
    }
    PrettyRegex::wrap(p)
}

} // verus!
