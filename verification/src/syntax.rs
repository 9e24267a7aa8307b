//! The pattern-syntax building blocks, as specification functions over
//! sequences of characters, together with small verified helpers that
//! render them into executable strings.

use vstd::prelude::*;

verus! {

/// The characters that carry special meaning in pattern syntax and must be
/// escaped for a literal match.
pub open spec fn is_meta_char(c: char) -> bool {
    c == '\\' || c == '.' || c == '+' || c == '*' || c == '?' || c == '(' || c == ')' || c == '|'
        || c == '[' || c == ']' || c == '{' || c == '}' || c == '^' || c == '$' || c == '#'
        || c == '&' || c == '-' || c == '~'
}

/// Escapes a run of literal text: every meta character is preceded by a
/// backslash, every other character is kept as it is.
pub open spec fn escaped(s: Seq<char>) -> Seq<char>
    decreases s.len(),
{
    if s.len() == 0 {
        s
    } else if is_meta_char(s[0]) {
        seq!['\\', s[0]] + escaped(s.skip(1))
    } else {
        seq![s[0]] + escaped(s.skip(1))
    }
}

/// Undoes [`escaped`]: drops the backslash before an escaped character and
/// keeps every other character. On the output of `escaped` this recovers
/// the original text exactly ([`lemma_escape_round_trip`]).
pub open spec fn unescaped(s: Seq<char>) -> Seq<char>
    decreases s.len(),
{
    if s.len() == 0 {
        s
    } else if s[0] == '\\' && s.len() >= 2 {
        seq![s[1]] + unescaped(s.skip(2))
    } else {
        seq![s[0]] + unescaped(s.skip(1))
    }
}

/// Escaping loses nothing: un-escaping an escaped text returns the text.
pub proof fn lemma_escape_round_trip(t: Seq<char>)
    ensures
        unescaped(escaped(t)) == t,
    decreases t.len(),
{
    if t.len() == 0 {
    } else {
        lemma_escape_round_trip(t.skip(1));
        let e = escaped(t);
        if is_meta_char(t[0]) {
            assert(e == seq!['\\', t[0]] + escaped(t.skip(1)));
            assert(e[0] == '\\' && e.len() >= 2);
            assert(e[1] == t[0]);
            assert(e.skip(2) =~= escaped(t.skip(1)));
            assert(unescaped(e) == seq![t[0]] + unescaped(escaped(t.skip(1))));
        } else {
            assert(t[0] != '\\');
            assert(e == seq![t[0]] + escaped(t.skip(1)));
            assert(e[0] == t[0]);
            assert(e.skip(1) =~= escaped(t.skip(1)));
            assert(unescaped(e) == seq![t[0]] + unescaped(escaped(t.skip(1))));
        }
        assert(seq![t[0]] + t.skip(1) =~= t);
    }
}

/// Wraps a pattern in a non-capturing group, so it can be spliced into a
/// larger pattern without altering operator precedence.
pub open spec fn noncap_group(s: Seq<char>) -> Seq<char> {
    seq!['(', '?', ':'] + s + seq![')']
}

/// Whether `s` has the shape every non-capturing-group-wrapped pattern has:
/// it opens with `(?:` and closes with `)`.
pub open spec fn is_group_wrapped(s: Seq<char>) -> bool {
    s.len() >= 4 && s[0] == '(' && s[1] == '?' && s[2] == ':' && s[s.len() - 1] == ')'
}

/// A counted quantifier: `s`, grouped, repeated exactly `n` times.
pub open spec fn counted(s: Seq<char>, n: int) -> Seq<char> {
    noncap_group(s) + seq!['{'] + dec_str(n) + seq!['}']
}

/// A counted quantifier: `s`, grouped, repeated at least `n` times.
pub open spec fn counted_at_least(s: Seq<char>, n: int) -> Seq<char> {
    noncap_group(s) + seq!['{'] + dec_str(n) + seq![',', '}']
}

/// A counted quantifier: `s`, grouped, with the counted range `{lo,hi}`.
/// The engine reads both bounds of the rendered range as inclusive.
pub open spec fn counted_range(s: Seq<char>, lo: int, hi: int) -> Seq<char> {
    noncap_group(s) + seq!['{'] + dec_str(lo) + seq![','] + dec_str(hi) + seq!['}']
}

/// The character for one decimal digit.
pub open spec fn dec_digit(d: int) -> char {
    if d == 0 {
        '0'
    } else if d == 1 {
        '1'
    } else if d == 2 {
        '2'
    } else if d == 3 {
        '3'
    } else if d == 4 {
        '4'
    } else if d == 5 {
        '5'
    } else if d == 6 {
        '6'
    } else if d == 7 {
        '7'
    } else if d == 8 {
        '8'
    } else {
        '9'
    }
}

/// The decimal representation of a non-negative integer, most significant
/// digit first, without a sign and without leading zeros (`0` itself is `"0"`).
pub open spec fn dec_str(n: int) -> Seq<char>
    recommends
        n >= 0,
    decreases n,
{
    if n < 10 {
        seq![dec_digit(n)]
    } else {
        dec_str(n / 10).push(dec_digit(n % 10))
    }
}

/// Renders one decimal digit.
fn digit_char(d: usize) -> (c: char)
    requires
        d < 10,
    ensures
        c == dec_digit(d as int),
{
    if d == 0 {
        '0'
    } else if d == 1 {
        '1'
    } else if d == 2 {
        '2'
    } else if d == 3 {
        '3'
    } else if d == 4 {
        '4'
    } else if d == 5 {
        '5'
    } else if d == 6 {
        '6'
    } else if d == 7 {
        '7'
    } else if d == 8 {
        '8'
    } else {
        '9'
    }
}

/// Renders a number in decimal, as counted quantifiers spell it.
pub(crate) fn render_usize(n: usize) -> (r: String)
    ensures
        r@ == dec_str(n as int),
    decreases n,
{
    if n < 10 {
        let mut s = String::new();
        s.push(digit_char(n));
        proof {
            assert(s@ =~= dec_str(n as int));
        }
        s
    } else {
        let mut s = render_usize(n / 10);
        s.push(digit_char(n % 10));
        s
    }
}

/// Appends every character of `chars`, in order, to `s`.
pub(crate) fn push_all(s: &mut String, chars: &[char])
    ensures
        final(s)@ == old(s)@ + chars@,
{
    let mut i: usize = 0;
    proof {
        assert(old(s)@ + chars@.take(0) =~= old(s)@);
    }
    while i < chars.len()
        invariant
            i <= chars@.len(),
            s@ == old(s)@ + chars@.take(i as int),
        decreases chars@.len() - i,
    {
        let c = *vstd::slice::slice_index_get(chars, i);
        s.push(c);
        i = i + 1;
        proof {
            assert(s@ =~= old(s)@ + chars@.take(i as int));
        }
    }
    proof {
        assert(chars@.take(chars@.len() as int) =~= chars@);
    }
}

/// Renders `(?:` + `inner` + `)`.
pub(crate) fn render_noncap_group(inner: &str) -> (r: String)
    ensures
        r@ == noncap_group(inner@),
{
    let mut s = String::new();
    s.push('(');
    s.push('?');
    s.push(':');
    s.append(inner);
    s.push(')');
    proof {
        assert(s@ =~= noncap_group(inner@));
    }
    s
}

} // verus!
