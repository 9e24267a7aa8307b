//! The character-class set algebra: intersection, difference, symmetric
//! difference, and the kind-directed complement.

use vstd::prelude::*;
use crate::std_specs::spec_char_lowercase;
use crate::syntax::{escaped, is_group_wrapped, lemma_escape_round_trip, noncap_group, unescaped};
use crate::{Ascii, Chain, CharClass, Custom, PrettyRegex, Standard, Text};

verus! {

/// The escape-class letters of one case: the lower-case family when `up` is
/// true (the letters whose classes a lower-to-upper swap rewrites), the
/// upper-case family otherwise.
pub open spec fn is_class_letter(c: char, up: bool) -> bool {
    if up {
        c == 'd' || c == 'p' || c == 'w' || c == 's' || c == 'b'
    } else {
        c == 'D' || c == 'P' || c == 'W' || c == 'S' || c == 'B'
    }
}

/// Swaps the case of an escape-class letter; any other character is kept.
pub open spec fn flipped_class_letter(c: char) -> char {
    if c == 'd' {
        'D'
    } else if c == 'D' {
        'd'
    } else if c == 'p' {
        'P'
    } else if c == 'P' {
        'p'
    } else if c == 'w' {
        'W'
    } else if c == 'W' {
        'w'
    } else if c == 's' {
        'S'
    } else if c == 'S' {
        's'
    } else if c == 'b' {
        'B'
    } else if c == 'B' {
        'b'
    } else {
        c
    }
}

/// Rewrites every escape of the chosen family (`\d`, `\p`, `\w`, `\s`, `\b`
/// when `up` is true; `\D`, `\P`, `\W`, `\S`, `\B` otherwise) to the escape
/// of the opposite case, scanning left to right without overlap.
pub open spec fn swap_escape_classes(s: Seq<char>, up: bool) -> Seq<char>
    decreases s.len(),
{
    if s.len() < 2 {
        s
    } else if s[0] == '\\' && is_class_letter(s[1], up) {
        seq!['\\', flipped_class_letter(s[1])] + swap_escape_classes(s.skip(2), up)
    } else {
        seq![s[0]] + swap_escape_classes(s.skip(1), up)
    }
}

/// The complement of a standard class: a fragment shorter than two
/// characters is kept unchanged; otherwise the character after the leading
/// escape marker picks the direction, lower-case swapping the five
/// lower-case escape families up and anything else swapping the upper-case
/// families down.
pub open spec fn standard_complement(s: Seq<char>) -> Seq<char> {
    if s.len() < 2 {
        s
    } else if spec_char_lowercase(s[1]) {
        swap_escape_classes(s, true)
    } else {
        swap_escape_classes(s, false)
    }
}

/// Inserts a negation marker after every bracket opening: each `[` becomes
/// `[^`.
pub open spec fn bracket_negation_inserted(s: Seq<char>) -> Seq<char>
    decreases s.len(),
{
    if s.len() == 0 {
        s
    } else if s[0] == '[' {
        seq!['[', '^'] + bracket_negation_inserted(s.skip(1))
    } else {
        seq![s[0]] + bracket_negation_inserted(s.skip(1))
    }
}

/// Strips bracket negation markers: each `[^` becomes `[`, scanning left to
/// right without overlap.
pub open spec fn bracket_negation_stripped(s: Seq<char>) -> Seq<char>
    decreases s.len(),
{
    if s.len() < 2 {
        s
    } else if s[0] == '[' && s[1] == '^' {
        seq!['['] + bracket_negation_stripped(s.skip(2))
    } else {
        seq![s[0]] + bracket_negation_stripped(s.skip(1))
    }
}

/// The complement of a custom class: if the second character is the
/// negation marker, every `[^` is stripped to `[`; otherwise every `[` gains
/// the marker. A literal-prefix substitution, not a semantic rewrite: a
/// fragment holding several bracket expressions has them all toggled alike.
pub open spec fn custom_complement(s: Seq<char>) -> Seq<char> {
    if s.len() < 2 {
        s
    } else if s[1] == '^' {
        bracket_negation_stripped(s)
    } else {
        bracket_negation_inserted(s)
    }
}

/// Inserts the POSIX negation marker: each `[[:` becomes `[[:^`, scanning
/// left to right without overlap.
pub open spec fn posix_negation_inserted(s: Seq<char>) -> Seq<char>
    decreases s.len(),
{
    if s.len() < 3 {
        s
    } else if s[0] == '[' && s[1] == '[' && s[2] == ':' {
        seq!['[', '[', ':', '^'] + posix_negation_inserted(s.skip(3))
    } else {
        seq![s[0]] + posix_negation_inserted(s.skip(1))
    }
}

/// Strips the POSIX negation marker: each `[[:^` becomes `[[:`, scanning
/// left to right without overlap.
pub open spec fn posix_negation_stripped(s: Seq<char>) -> Seq<char>
    decreases s.len(),
{
    if s.len() < 4 {
        s
    } else if s[0] == '[' && s[1] == '[' && s[2] == ':' && s[3] == '^' {
        seq!['[', '[', ':'] + posix_negation_stripped(s.skip(4))
    } else {
        seq![s[0]] + posix_negation_stripped(s.skip(1))
    }
}

/// The complement of an ASCII class: the fourth character decides whether
/// the POSIX negation marker is stripped or inserted.
pub open spec fn ascii_complement(s: Seq<char>) -> Seq<char> {
    if s.len() < 4 {
        s
    } else if s[3] == '^' {
        posix_negation_stripped(s)
    } else {
        posix_negation_inserted(s)
    }
}

/// For each character `c` of `s`, in order, a single-character negated
/// bracket expression `[^c]` — "not this exact character, at this exact
/// position", a length-preserving negation rather than whole-string
/// inequality.
pub open spec fn per_char_negation(s: Seq<char>) -> Seq<char>
    decreases s.len(),
{
    if s.len() == 0 {
        s
    } else {
        seq!['[', '^', s[0], ']'] + per_char_negation(s.skip(1))
    }
}

/// The complement of a literal fragment: the literal text is recovered from
/// the stored pattern — the group wrapper `(?:` … `)` dropped and the
/// escaping undone — and each of its characters is negated in place,
/// [`per_char_negation`].
pub open spec fn text_complement(s: Seq<char>) -> Seq<char>
    recommends
        is_group_wrapped(s),
{
    per_char_negation(unescaped(s.subrange(3, s.len() - 1)))
}

/// Whether `c` is an escape-class letter of the chosen family.
fn class_letter(c: char, up: bool) -> (r: bool)
    ensures
        r == is_class_letter(c, up),
{
    if up {
        c == 'd' || c == 'p' || c == 'w' || c == 's' || c == 'b'
    } else {
        c == 'D' || c == 'P' || c == 'W' || c == 'S' || c == 'B'
    }
}

/// Swaps the case of an escape-class letter.
fn flip_letter(c: char) -> (r: char)
    ensures
        r == flipped_class_letter(c),
{
    if c == 'd' {
        'D'
    } else if c == 'D' {
        'd'
    } else if c == 'p' {
        'P'
    } else if c == 'P' {
        'p'
    } else if c == 'w' {
        'W'
    } else if c == 'W' {
        'w'
    } else if c == 's' {
        'S'
    } else if c == 'S' {
        's'
    } else if c == 'b' {
        'B'
    } else if c == 'B' {
        'b'
    } else {
        c
    }
}

/// Renders [`swap_escape_classes`].
fn swap_classes_str(s: &str, up: bool) -> (r: String)
    ensures
        r@ == swap_escape_classes(s@, up),
{
    let n = s.unicode_len();
    let mut out = String::new();
    let mut i: usize = 0;
    proof {
        assert(s@.skip(0) =~= s@);
        assert(Seq::<char>::empty() + swap_escape_classes(s@, up) =~= swap_escape_classes(s@, up));
    }
    while i < n
        invariant
            i <= n,
            n == s@.len(),
            swap_escape_classes(s@, up) == out@ + swap_escape_classes(s@.skip(i as int), up),
        decreases n - i,
    {
        let ghost pre = s@.skip(i as int);
        let ghost out0 = out@;
        let c = s.get_char(i);
        proof {
            assert(pre[0] == c);
        }
        if c == '\\' && i + 1 < n && class_letter(s.get_char(i + 1), up) {
            let c2 = s.get_char(i + 1);
            out.push('\\');
            out.push(flip_letter(c2));
            proof {
                assert(pre.len() >= 2);
                assert(pre[1] == c2);
                assert(pre.skip(2) =~= s@.skip(i as int + 2));
                assert(swap_escape_classes(pre, up) == seq!['\\', flipped_class_letter(c2)]
                    + swap_escape_classes(pre.skip(2), up));
                assert(out@ + swap_escape_classes(s@.skip(i as int + 2), up) =~= out0
                    + swap_escape_classes(pre, up));
            }
            i = i + 2;
        } else {
            out.push(c);
            proof {
                if pre.len() >= 2 {
                    assert(pre[1] == s@[i as int + 1]);
                    assert(!(pre[0] == '\\' && is_class_letter(pre[1], up)));
                    assert(pre.skip(1) =~= s@.skip(i as int + 1));
                    assert(swap_escape_classes(pre, up) == seq![c] + swap_escape_classes(
                        pre.skip(1),
                        up,
                    ));
                } else {
                    assert(pre =~= seq![c]);
                    assert(s@.skip(i as int + 1) =~= Seq::<char>::empty());
                }
                assert(out@ + swap_escape_classes(s@.skip(i as int + 1), up) =~= out0
                    + swap_escape_classes(pre, up));
            }
            i = i + 1;
        }
    }
    proof {
        assert(s@.skip(n as int) =~= Seq::<char>::empty());
        assert(swap_escape_classes(Seq::<char>::empty(), up) =~= Seq::<char>::empty());
        assert(out@ + Seq::<char>::empty() =~= out@);
    }
    out
}

/// Renders [`bracket_negation_inserted`].
fn insert_bracket_negation_str(s: &str) -> (r: String)
    ensures
        r@ == bracket_negation_inserted(s@),
{
    let n = s.unicode_len();
    let mut out = String::new();
    let mut i: usize = 0;
    proof {
        assert(s@.skip(0) =~= s@);
        assert(Seq::<char>::empty() + bracket_negation_inserted(s@) =~= bracket_negation_inserted(
            s@,
        ));
    }
    while i < n
        invariant
            i <= n,
            n == s@.len(),
            bracket_negation_inserted(s@) == out@ + bracket_negation_inserted(s@.skip(i as int)),
        decreases n - i,
    {
        let ghost pre = s@.skip(i as int);
        let ghost out0 = out@;
        let c = s.get_char(i);
        proof {
            assert(pre[0] == c);
        }
        if c == '[' {
            out.push('[');
            out.push('^');
        } else {
            out.push(c);
        }
        proof {
            assert(pre.skip(1) =~= s@.skip(i as int + 1));
            assert(out@ + bracket_negation_inserted(s@.skip(i as int + 1)) =~= out0
                + bracket_negation_inserted(pre));
        }
        i = i + 1;
    }
    proof {
        assert(s@.skip(n as int) =~= Seq::<char>::empty());
        assert(bracket_negation_inserted(Seq::<char>::empty()) =~= Seq::<char>::empty());
        assert(out@ + Seq::<char>::empty() =~= out@);
    }
    out
}

/// Renders [`bracket_negation_stripped`].
fn strip_bracket_negation_str(s: &str) -> (r: String)
    ensures
        r@ == bracket_negation_stripped(s@),
{
    let n = s.unicode_len();
    let mut out = String::new();
    let mut i: usize = 0;
    proof {
        assert(s@.skip(0) =~= s@);
        assert(Seq::<char>::empty() + bracket_negation_stripped(s@) =~= bracket_negation_stripped(
            s@,
        ));
    }
    while i < n
        invariant
            i <= n,
            n == s@.len(),
            bracket_negation_stripped(s@) == out@ + bracket_negation_stripped(s@.skip(i as int)),
        decreases n - i,
    {
        let ghost pre = s@.skip(i as int);
        let ghost out0 = out@;
        let c = s.get_char(i);
        proof {
            assert(pre[0] == c);
        }
        if c == '[' && i + 1 < n && s.get_char(i + 1) == '^' {
            out.push('[');
            proof {
                assert(pre.len() >= 2);
                assert(pre[1] == s@[i as int + 1]);
                assert(pre.skip(2) =~= s@.skip(i as int + 2));
                assert(bracket_negation_stripped(pre) == seq!['['] + bracket_negation_stripped(
                    pre.skip(2),
                ));
                assert(out@ + bracket_negation_stripped(s@.skip(i as int + 2)) =~= out0
                    + bracket_negation_stripped(pre));
            }
            i = i + 2;
        } else {
            out.push(c);
            proof {
                if pre.len() >= 2 {
                    assert(pre[1] == s@[i as int + 1]);
                    assert(!(pre[0] == '[' && pre[1] == '^'));
                    assert(pre.skip(1) =~= s@.skip(i as int + 1));
                    assert(bracket_negation_stripped(pre) == seq![c] + bracket_negation_stripped(
                        pre.skip(1),
                    ));
                } else {
                    assert(pre =~= seq![c]);
                    assert(s@.skip(i as int + 1) =~= Seq::<char>::empty());
                }
                assert(out@ + bracket_negation_stripped(s@.skip(i as int + 1)) =~= out0
                    + bracket_negation_stripped(pre));
            }
            i = i + 1;
        }
    }
    proof {
        assert(s@.skip(n as int) =~= Seq::<char>::empty());
        assert(bracket_negation_stripped(Seq::<char>::empty()) =~= Seq::<char>::empty());
        assert(out@ + Seq::<char>::empty() =~= out@);
    }
    out
}

/// Renders [`posix_negation_inserted`].
fn insert_posix_negation_str(s: &str) -> (r: String)
    ensures
        r@ == posix_negation_inserted(s@),
{
    let n = s.unicode_len();
    let mut out = String::new();
    let mut i: usize = 0;
    proof {
        assert(s@.skip(0) =~= s@);
        assert(Seq::<char>::empty() + posix_negation_inserted(s@) =~= posix_negation_inserted(s@));
    }
    while i < n
        invariant
            i <= n,
            n == s@.len(),
            posix_negation_inserted(s@) == out@ + posix_negation_inserted(s@.skip(i as int)),
        decreases n - i,
    {
        let ghost pre = s@.skip(i as int);
        let ghost out0 = out@;
        let c = s.get_char(i);
        proof {
            assert(pre[0] == c);
        }
        if c == '[' && n - i > 2 && s.get_char(i + 1) == '[' && s.get_char(i + 2) == ':' {
            out.push('[');
            out.push('[');
            out.push(':');
            out.push('^');
            proof {
                assert(pre.len() >= 3);
                assert(pre[1] == s@[i as int + 1]);
                assert(pre[2] == s@[i as int + 2]);
                assert(pre.skip(3) =~= s@.skip(i as int + 3));
                assert(posix_negation_inserted(pre) == seq!['[', '[', ':', '^']
                    + posix_negation_inserted(pre.skip(3)));
                assert(out@ + posix_negation_inserted(s@.skip(i as int + 3)) =~= out0
                    + posix_negation_inserted(pre));
            }
            i = i + 3;
        } else {
            out.push(c);
            proof {
                if pre.len() >= 3 {
                    assert(pre[1] == s@[i as int + 1]);
                    assert(pre[2] == s@[i as int + 2]);
                    assert(!(pre[0] == '[' && pre[1] == '[' && pre[2] == ':'));
                    assert(pre.skip(1) =~= s@.skip(i as int + 1));
                    assert(posix_negation_inserted(pre) == seq![c] + posix_negation_inserted(
                        pre.skip(1),
                    ));
                } else {
                    assert(pre.skip(1) =~= s@.skip(i as int + 1));
                    assert(posix_negation_inserted(pre) == pre);
                    assert(posix_negation_inserted(pre.skip(1)) == pre.skip(1));
                    assert(posix_negation_inserted(pre) =~= seq![c] + posix_negation_inserted(
                        pre.skip(1),
                    ));
                }
                assert(out@ + posix_negation_inserted(s@.skip(i as int + 1)) =~= out0
                    + posix_negation_inserted(pre));
            }
            i = i + 1;
        }
    }
    proof {
        assert(s@.skip(n as int) =~= Seq::<char>::empty());
        assert(posix_negation_inserted(Seq::<char>::empty()) =~= Seq::<char>::empty());
        assert(out@ + Seq::<char>::empty() =~= out@);
    }
    out
}

/// Renders [`posix_negation_stripped`].
fn strip_posix_negation_str(s: &str) -> (r: String)
    ensures
        r@ == posix_negation_stripped(s@),
{
    let n = s.unicode_len();
    let mut out = String::new();
    let mut i: usize = 0;
    proof {
        assert(s@.skip(0) =~= s@);
        assert(Seq::<char>::empty() + posix_negation_stripped(s@) =~= posix_negation_stripped(s@));
    }
    while i < n
        invariant
            i <= n,
            n == s@.len(),
            posix_negation_stripped(s@) == out@ + posix_negation_stripped(s@.skip(i as int)),
        decreases n - i,
    {
        let ghost pre = s@.skip(i as int);
        let ghost out0 = out@;
        let c = s.get_char(i);
        proof {
            assert(pre[0] == c);
        }
        if c == '[' && n - i > 3 && s.get_char(i + 1) == '[' && s.get_char(i + 2) == ':'
            && s.get_char(i + 3) == '^' {
            out.push('[');
            out.push('[');
            out.push(':');
            proof {
                assert(pre.len() >= 4);
                assert(pre[1] == s@[i as int + 1]);
                assert(pre[2] == s@[i as int + 2]);
                assert(pre[3] == s@[i as int + 3]);
                assert(pre.skip(4) =~= s@.skip(i as int + 4));
                assert(posix_negation_stripped(pre) == seq!['[', '[', ':']
                    + posix_negation_stripped(pre.skip(4)));
                assert(out@ + posix_negation_stripped(s@.skip(i as int + 4)) =~= out0
                    + posix_negation_stripped(pre));
            }
            i = i + 4;
        } else {
            out.push(c);
            proof {
                if pre.len() >= 4 {
                    assert(pre[1] == s@[i as int + 1]);
                    assert(pre[2] == s@[i as int + 2]);
                    assert(pre[3] == s@[i as int + 3]);
                    assert(!(pre[0] == '[' && pre[1] == '[' && pre[2] == ':' && pre[3] == '^'));
                    assert(pre.skip(1) =~= s@.skip(i as int + 1));
                    assert(posix_negation_stripped(pre) == seq![c] + posix_negation_stripped(
                        pre.skip(1),
                    ));
                } else {
                    assert(pre.skip(1) =~= s@.skip(i as int + 1));
                    assert(posix_negation_stripped(pre) == pre);
                    assert(posix_negation_stripped(pre.skip(1)) == pre.skip(1));
                    assert(posix_negation_stripped(pre) =~= seq![c] + posix_negation_stripped(
                        pre.skip(1),
                    ));
                }
                assert(out@ + posix_negation_stripped(s@.skip(i as int + 1)) =~= out0
                    + posix_negation_stripped(pre));
            }
            i = i + 1;
        }
    }
    proof {
        assert(s@.skip(n as int) =~= Seq::<char>::empty());
        assert(posix_negation_stripped(Seq::<char>::empty()) =~= Seq::<char>::empty());
        assert(out@ + Seq::<char>::empty() =~= out@);
    }
    out
}

/// Renders [`unescaped`].
fn unescape_str(s: &str) -> (r: String)
    ensures
        r@ == unescaped(s@),
{
    let n = s.unicode_len();
    let mut out = String::new();
    let mut i: usize = 0;
    proof {
        assert(s@.skip(0) =~= s@);
        assert(Seq::<char>::empty() + unescaped(s@) =~= unescaped(s@));
    }
    while i < n
        invariant
            i <= n,
            n == s@.len(),
            unescaped(s@) == out@ + unescaped(s@.skip(i as int)),
        decreases n - i,
    {
        let ghost pre = s@.skip(i as int);
        let ghost out0 = out@;
        let c = s.get_char(i);
        proof {
            assert(pre[0] == c);
        }
        if c == '\\' && i + 1 < n {
            let c2 = s.get_char(i + 1);
            out.push(c2);
            proof {
                assert(pre.len() >= 2);
                assert(pre[1] == c2);
                assert(pre.skip(2) =~= s@.skip(i as int + 2));
                assert(unescaped(pre) == seq![c2] + unescaped(pre.skip(2)));
                assert(out@ + unescaped(s@.skip(i as int + 2)) =~= out0 + unescaped(pre));
            }
            i = i + 2;
        } else {
            out.push(c);
            proof {
                if pre.len() >= 2 {
                    assert(pre[0] != '\\');
                    assert(pre.skip(1) =~= s@.skip(i as int + 1));
                    assert(unescaped(pre) == seq![c] + unescaped(pre.skip(1)));
                } else {
                    assert(unescaped(pre) == seq![c] + unescaped(pre.skip(1)));
                    assert(pre.skip(1) =~= Seq::<char>::empty());
                    assert(pre.skip(1) =~= s@.skip(i as int + 1));
                    assert(unescaped(Seq::<char>::empty()) == Seq::<char>::empty());
                }
                assert(out@ + unescaped(s@.skip(i as int + 1)) =~= out0 + unescaped(pre));
            }
            i = i + 1;
        }
    }
    proof {
        assert(s@.skip(n as int) =~= Seq::<char>::empty());
        assert(unescaped(Seq::<char>::empty()) =~= Seq::<char>::empty());
        assert(out@ + Seq::<char>::empty() =~= out@);
    }
    out
}

/// Renders [`per_char_negation`].
fn per_char_negation_str(s: &str) -> (r: String)
    ensures
        r@ == per_char_negation(s@),
{
    let n = s.unicode_len();
    let mut out = String::new();
    let mut i: usize = 0;
    proof {
        assert(s@.skip(0) =~= s@);
        assert(Seq::<char>::empty() + per_char_negation(s@) =~= per_char_negation(s@));
    }
    while i < n
        invariant
            i <= n,
            n == s@.len(),
            per_char_negation(s@) == out@ + per_char_negation(s@.skip(i as int)),
        decreases n - i,
    {
        let ghost pre = s@.skip(i as int);
        let ghost out0 = out@;
        let c = s.get_char(i);
        proof {
            assert(pre[0] == c);
        }
        out.push('[');
        out.push('^');
        out.push(c);
        out.push(']');
        proof {
            assert(pre.skip(1) =~= s@.skip(i as int + 1));
            assert(per_char_negation(pre) == seq!['[', '^', c, ']'] + per_char_negation(
                pre.skip(1),
            ));
            assert(out@ + per_char_negation(s@.skip(i as int + 1)) =~= out0 + per_char_negation(
                pre,
            ));
        }
        i = i + 1;
    }
    proof {
        assert(s@.skip(n as int) =~= Seq::<char>::empty());
        assert(per_char_negation(Seq::<char>::empty()) =~= Seq::<char>::empty());
        assert(out@ + Seq::<char>::empty() =~= out@);
    }
    out
}

impl<T> PrettyRegex<CharClass<T>> {
    /// Intersection of two character classes: the bracket expression
    /// `[L&&R]`, both operand patterns spliced in verbatim.
    pub fn and<R>(self, rhs: PrettyRegex<CharClass<R>>) -> (r: PrettyRegex<CharClass<Custom>>)
        ensures
            r@ == seq!['['] + self@ + seq!['&', '&'] + rhs@ + seq![']'],
    {
        let mut p = String::new();
        p.push('[');
        p.append(self.as_str());
        p.push('&');
        p.push('&');
        p.append(rhs.as_str());
        p.push(']');
        proof {
            assert(p@ =~= seq!['['] + self@ + seq!['&', '&'] + rhs@ + seq![']']);
        }
        PrettyRegex::wrap(p)
    }

    /// Difference of two character classes — the characters of the left
    /// class not in the right class: the bracket expression `[L--R]`.
    pub fn sub<R>(self, rhs: PrettyRegex<CharClass<R>>) -> (r: PrettyRegex<CharClass<Custom>>)
        ensures
            r@ == seq!['['] + self@ + seq!['-', '-'] + rhs@ + seq![']'],
    {
        let mut p = String::new();
        p.push('[');
        p.append(self.as_str());
        p.push('-');
        p.push('-');
        p.append(rhs.as_str());
        p.push(']');
        proof {
            assert(p@ =~= seq!['['] + self@ + seq!['-', '-'] + rhs@ + seq![']']);
        }
        PrettyRegex::wrap(p)
    }

    /// Symmetric difference of two character classes: the bracket
    /// expression `[L~~R]`.
    pub fn symmetric_difference_with<R>(self, rhs: PrettyRegex<CharClass<R>>) -> (r: PrettyRegex<
        CharClass<Custom>,
    >)
        ensures
            r@ == seq!['['] + self@ + seq!['~', '~'] + rhs@ + seq![']'],
    {
        let mut p = String::new();
        p.push('[');
        p.append(self.as_str());
        p.push('~');
        p.push('~');
        p.append(rhs.as_str());
        p.push(']');
        proof {
            assert(p@ =~= seq!['['] + self@ + seq!['~', '~'] + rhs@ + seq![']']);
        }
        PrettyRegex::wrap(p)
    }
}

/// Symmetric difference of two character classes, as a free function:
/// the bracket expression `[L~~R]`.
pub fn symmetric_difference_between<L, R>(
    left: PrettyRegex<CharClass<L>>,
    right: PrettyRegex<CharClass<R>>,
) -> (r: PrettyRegex<CharClass<Custom>>)
    ensures
        r@ == seq!['['] + left@ + seq!['~', '~'] + right@ + seq![']'],
{
    left.symmetric_difference_with(right)
}

/// The kinds of fragment that have a defined complement. Kinds without one
/// offer no implementation, so complementing them is rejected when the
/// calling program is compiled.
pub trait Complement: Sized {
    type Output: View<V = Seq<char>>;

    /// Whether the fragment has the minimum structural shape the complement
    /// assumes.
    spec fn complement_allowed(&self) -> bool;

    /// The pattern of the complemented fragment.
    spec fn complemented(&self) -> Seq<char>;

    /// Matches everything the fragment's class does not match, by the
    /// kind's own negation rule.
    fn not(self) -> (r: Self::Output)
        requires
            self.complement_allowed(),
        ensures
            r@ == self.complemented(),
    ;
}

impl Complement for PrettyRegex<CharClass<Standard>> {
    type Output = PrettyRegex<CharClass<Standard>>;

    open spec fn complement_allowed(&self) -> bool {
        true
    }

    open spec fn complemented(&self) -> Seq<char> {
        standard_complement(self@)
    }

    fn not(self) -> (r: Self::Output) {
        let n = self.as_str().unicode_len();
        if n < 2 {
            return self;
        }
        let c1 = self.as_str().get_char(1);
        if c1.is_lowercase() {
            let p = swap_classes_str(self.as_str(), true);
            PrettyRegex::wrap(p)
        } else {
            let p = swap_classes_str(self.as_str(), false);
            PrettyRegex::wrap(p)
        }
    }
}

impl Complement for PrettyRegex<CharClass<Custom>> {
    type Output = PrettyRegex<CharClass<Custom>>;

    open spec fn complement_allowed(&self) -> bool {
        self@.len() >= 2
    }

    open spec fn complemented(&self) -> Seq<char> {
        custom_complement(self@)
    }

    fn not(self) -> (r: Self::Output) {
        let c1 = self.as_str().get_char(1);
        if c1 == '^' {
            let p = strip_bracket_negation_str(self.as_str());
            PrettyRegex::wrap(p)
        } else {
            let p = insert_bracket_negation_str(self.as_str());
            PrettyRegex::wrap(p)
        }
    }
}

impl Complement for PrettyRegex<CharClass<Ascii>> {
    type Output = PrettyRegex<CharClass<Ascii>>;

    open spec fn complement_allowed(&self) -> bool {
        self@.len() >= 4
    }

    open spec fn complemented(&self) -> Seq<char> {
        ascii_complement(self@)
    }

    fn not(self) -> (r: Self::Output) {
        let c3 = self.as_str().get_char(3);
        if c3 == '^' {
            let p = strip_posix_negation_str(self.as_str());
            PrettyRegex::wrap(p)
        } else {
            let p = insert_posix_negation_str(self.as_str());
            PrettyRegex::wrap(p)
        }
    }
}

impl Complement for PrettyRegex<Text> {
    type Output = PrettyRegex<Chain>;

    open spec fn complement_allowed(&self) -> bool {
        is_group_wrapped(self@)
    }

    open spec fn complemented(&self) -> Seq<char> {
        text_complement(self@)
    }

    fn not(self) -> (r: Self::Output) {
        let n = self.as_str().unicode_len();
        let inner = self.as_str().substring_char(3, n - 1);
        let literal = unescape_str(inner);
        let p = per_char_negation_str(literal.as_str());
        PrettyRegex::wrap(p)
    }
}

/// Matches everything the given fragment's class does not match, for every
/// fragment kind with a defined complement.
pub fn not<T: Complement>(regex: T) -> (r: T::Output)
    requires
        regex.complement_allowed(),
    ensures
        r@ == regex.complemented(),
{
    regex.not()
}

/// Swapping escape classes keeps the pattern's length.
proof fn lemma_swap_classes_len(s: Seq<char>, up: bool)
    ensures
        swap_escape_classes(s, up).len() == s.len(),
    decreases s.len(),
{
    if s.len() < 2 {
    } else if s[0] == '\\' && is_class_letter(s[1], up) {
        lemma_swap_classes_len(s.skip(2), up);
    } else {
        lemma_swap_classes_len(s.skip(1), up);
    }
}

/// Swapping the lower-case escape families up and then the upper-case
/// families down returns the original pattern, provided the original held
/// no upper-case family escape.
proof fn lemma_swap_classes_involution(s: Seq<char>)
    requires
        forall|i: int|
            1 <= i < s.len() ==> !(s[i - 1] == '\\' && is_class_letter(#[trigger] s[i], false)),
    ensures
        swap_escape_classes(swap_escape_classes(s, true), false) == s,
    decreases s.len(),
{
    if s.len() < 2 {
    } else if s[0] == '\\' && is_class_letter(s[1], true) {
        let rest = s.skip(2);
        assert forall|i: int|
            1 <= i < rest.len() implies !(rest[i - 1] == '\\' && is_class_letter(
            #[trigger] rest[i],
            false,
        )) by {
            assert(rest[i] == s[i + 2]);
            assert(rest[i - 1] == s[i + 1]);
        }
        lemma_swap_classes_involution(rest);
        let u = swap_escape_classes(s, true);
        assert(u == seq!['\\', flipped_class_letter(s[1])] + swap_escape_classes(rest, true));
        assert(u[0] == '\\' && is_class_letter(u[1], false));
        assert(u.skip(2) =~= swap_escape_classes(rest, true));
        assert(flipped_class_letter(flipped_class_letter(s[1])) == s[1]);
        assert(swap_escape_classes(u, false) == seq!['\\', s[1]] + rest);
        assert(seq!['\\', s[1]] + rest =~= s);
    } else {
        let rest = s.skip(1);
        assert forall|i: int|
            1 <= i < rest.len() implies !(rest[i - 1] == '\\' && is_class_letter(
            #[trigger] rest[i],
            false,
        )) by {
            assert(rest[i] == s[i + 1]);
            assert(rest[i - 1] == s[i]);
        }
        lemma_swap_classes_involution(rest);
        let v = swap_escape_classes(rest, true);
        let u = swap_escape_classes(s, true);
        assert(u == seq![s[0]] + v);
        lemma_swap_classes_len(rest, true);
        assert(u.len() == s.len());
        // the head of the swapped tail is the tail's own head
        assert(rest.len() >= 1);
        if rest.len() < 2 {
            assert(v == rest);
        } else if rest[0] == '\\' && is_class_letter(rest[1], true) {
            assert(v == seq!['\\', flipped_class_letter(rest[1])] + swap_escape_classes(
                rest.skip(2),
                true,
            ));
        } else {
            assert(v == seq![rest[0]] + swap_escape_classes(rest.skip(1), true));
        }
        assert(v[0] == rest[0]);
        assert(u[1] == s[1]);
        // the original pair at the head was no upper-case escape, so the
        // swapped pattern does not open with one either
        assert(!(s[0] == '\\' && is_class_letter(s[1], false)));
        assert(swap_escape_classes(u, false) == seq![s[0]] + swap_escape_classes(u.skip(1), false));
        assert(u.skip(1) =~= v);
        assert(seq![s[0]] + rest =~= s);
    }
}

/// Double-negation identity for standard classes: a pattern that begins
/// with one of the five lower-case escape families (`\d`, `\p`, `\w`, `\s`,
/// `\b`) and holds no upper-case family escape renders back to itself when
/// complemented twice.
pub proof fn lemma_standard_double_complement(s: Seq<char>)
    requires
        s.len() >= 2,
        s[0] == '\\',
        is_class_letter(s[1], true),
        forall|i: int|
            1 <= i < s.len() ==> !(s[i - 1] == '\\' && is_class_letter(#[trigger] s[i], false)),
    ensures
        standard_complement(standard_complement(s)) == s,
{
    assert(spec_char_lowercase(s[1]));
    let u = swap_escape_classes(s, true);
    lemma_swap_classes_involution(s);
    lemma_swap_classes_len(s, true);
    assert(u == seq!['\\', flipped_class_letter(s[1])] + swap_escape_classes(s.skip(2), true));
    assert(u[1] == flipped_class_letter(s[1]));
    assert(!spec_char_lowercase(u[1]));
    assert(standard_complement(s) == u);
    assert(standard_complement(u) == swap_escape_classes(u, false));
}

/// The complement of the literal fragment for a text is the per-position
/// negation of that text: for the stored pattern `(?:` + escaped(t) + `)`,
/// the complement is `[^c]` for each character `c` of `t`, in order.
pub proof fn lemma_text_complement_of_literal(t: Seq<char>)
    ensures
        text_complement(noncap_group(escaped(t))) == per_char_negation(t),
{
    let s = noncap_group(escaped(t));
    assert(s.subrange(3, s.len() - 1) =~= escaped(t));
    lemma_escape_round_trip(t);
}

/// Inserting bracket negation changes nothing in a pattern without a
/// bracket opening.
proof fn lemma_bracket_insert_id(s: Seq<char>)
    requires
        forall|i: int| 0 <= i < s.len() ==> (#[trigger] s[i]) != '[',
    ensures
        bracket_negation_inserted(s) == s,
    decreases s.len(),
{
    if s.len() == 0 {
    } else {
        lemma_bracket_insert_id(s.skip(1));
        assert(seq![s[0]] + s.skip(1) =~= s);
    }
}

/// Stripping bracket negation changes nothing in a pattern without a `[^`
/// pair.
proof fn lemma_bracket_strip_id(s: Seq<char>)
    requires
        forall|i: int| 1 <= i < s.len() ==> !(s[i - 1] == '[' && (#[trigger] s[i]) == '^'),
    ensures
        bracket_negation_stripped(s) == s,
    decreases s.len(),
{
    if s.len() < 2 {
    } else {
        let rest = s.skip(1);
        assert forall|i: int|
            1 <= i < rest.len() implies !(rest[i - 1] == '[' && (#[trigger] rest[i]) == '^') by {
            assert(rest[i] == s[i + 1]);
            assert(rest[i - 1] == s[i]);
        }
        lemma_bracket_strip_id(rest);
        assert(!(s[0] == '[' && s[1] == '^'));
        assert(seq![s[0]] + s.skip(1) =~= s);
    }
}

/// The negated set is the complement of the plain set: complementing the
/// bracket expression `[` + set + `]` yields `[^` + set + `]`, for any set
/// of characters that holds no bracket opening and does not start with the
/// negation marker.
pub proof fn lemma_complement_of_within(set: Seq<char>)
    requires
        forall|i: int| 0 <= i < set.len() ==> (#[trigger] set[i]) != '[',
        set.len() > 0 ==> set[0] != '^',
    ensures
        custom_complement(seq!['['] + set + seq![']']) == seq!['[', '^'] + set + seq![']'],
{
    let s = seq!['['] + set + seq![']'];
    assert(s.len() == set.len() + 2);
    assert(s[0] == '[');
    if set.len() > 0 {
        assert(s[1] == set[0]);
    } else {
        assert(s[1] == ']');
    }
    assert(s[1] != '^');
    let tail = set + seq![']'];
    assert(s.skip(1) =~= tail);
    assert forall|i: int| 0 <= i < tail.len() implies (#[trigger] tail[i]) != '[' by {
        if i < set.len() {
            assert(tail[i] == set[i]);
        } else {
            assert(tail[i] == ']');
        }
    }
    lemma_bracket_insert_id(tail);
    assert(bracket_negation_inserted(s) == seq!['[', '^'] + bracket_negation_inserted(s.skip(1)));
    assert(seq!['[', '^'] + tail =~= seq!['[', '^'] + set + seq![']']);
}

/// The plain set is the complement of the negated set: complementing the
/// bracket expression `[^` + set + `]` yields `[` + set + `]`, for any set
/// of characters that holds no bracket opening.
pub proof fn lemma_complement_of_without(set: Seq<char>)
    requires
        forall|i: int| 0 <= i < set.len() ==> (#[trigger] set[i]) != '[',
    ensures
        custom_complement(seq!['[', '^'] + set + seq![']']) == seq!['['] + set + seq![']'],
{
    let s = seq!['[', '^'] + set + seq![']'];
    assert(s.len() == set.len() + 3);
    assert(s[0] == '[');
    assert(s[1] == '^');
    let tail = set + seq![']'];
    assert(s.skip(2) =~= tail);
    assert forall|i: int|
        1 <= i < tail.len() implies !(tail[i - 1] == '[' && (#[trigger] tail[i]) == '^') by {
        assert(tail[i - 1] == set[i - 1]);
    }
    lemma_bracket_strip_id(tail);
    assert(bracket_negation_stripped(s) == seq!['['] + bracket_negation_stripped(s.skip(2)));
    assert(seq!['['] + tail =~= seq!['['] + set + seq![']']);
}

/// The negated range is the complement of the plain range: complementing
/// `[lo-hi]` yields `[^lo-hi]`, whenever neither bound is a bracket opening
/// and the lower bound is not the negation marker.
pub proof fn lemma_complement_of_char_range(lo: char, hi: char)
    requires
        lo != '[',
        lo != '^',
        hi != '[',
    ensures
        custom_complement(seq!['[', lo, '-', hi, ']']) == seq!['[', '^', lo, '-', hi, ']'],
{
    let set = seq![lo, '-', hi];
    lemma_complement_of_within(set);
    assert(seq!['['] + set + seq![']'] =~= seq!['[', lo, '-', hi, ']']);
    assert(seq!['[', '^'] + set + seq![']'] =~= seq!['[', '^', lo, '-', hi, ']']);
}

/// The plain range is the complement of the negated range: complementing
/// `[^lo-hi]` yields `[lo-hi]`, whenever neither bound is a bracket
/// opening.
pub proof fn lemma_complement_of_negated_char_range(lo: char, hi: char)
    requires
        lo != '[',
        hi != '[',
    ensures
        custom_complement(seq!['[', '^', lo, '-', hi, ']']) == seq!['[', lo, '-', hi, ']'],
{
    let set = seq![lo, '-', hi];
    lemma_complement_of_without(set);
    assert(seq!['[', '^'] + set + seq![']'] =~= seq!['[', '^', lo, '-', hi, ']']);
    assert(seq!['['] + set + seq![']'] =~= seq!['[', lo, '-', hi, ']']);
}

} // verus!
