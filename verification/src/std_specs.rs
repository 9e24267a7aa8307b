//! Contracts for the few standard-library functions this crate calls that
//! vstd does not itself specify.

use vstd::prelude::*;
use core::ops::RangeInclusive;

verus! {

/// Whether the non-ASCII character `c` has the Unicode `Lowercase` property.
/// The property is decided by the standard library's Unicode tables; only its
/// ASCII portion is spelled out, in [`spec_char_lowercase`].
pub uninterp spec fn unicode_lowercase(c: char) -> bool;

/// What `char::is_lowercase` returns: on ASCII characters the `Lowercase`
/// property holds exactly of `a` through `z`; beyond ASCII it is left to the
/// standard library's Unicode tables.
pub open spec fn spec_char_lowercase(c: char) -> bool {
    if c as int <= 127 {
        'a' as int <= c as int && c as int <= 'z' as int
    } else {
        unicode_lowercase(c)
    }
}

/// Relies on `char::is_lowercase`: true exactly of characters with the
/// Unicode `Lowercase` property, which on ASCII are `a` through `z`.
pub assume_specification[ char::is_lowercase ](c: char) -> (r: bool)
    ensures
        r == spec_char_lowercase(c),
        c as int > 127 ==> r == unicode_lowercase(c),
;

/// Relies on `String::push`: appends one character to the string.
pub assume_specification[ String::push ](s: &mut String, ch: char)
    ensures
        final(s)@ == old(s)@.push(ch),
;

/// Relies on `RangeInclusive::start`: returns the lower bound the range was
/// built with (the bound is unspecified once the range has been iterated to
/// exhaustion).
pub assume_specification<'a, Idx>[ RangeInclusive::<Idx>::start ](
    r: &'a RangeInclusive<Idx>,
) -> (ret: &'a Idx)
    ensures
        !r@.exhausted ==> *ret == r@.start,
;

/// Relies on `RangeInclusive::end`: returns the upper bound the range was
/// built with (the bound is unspecified once the range has been iterated to
/// exhaustion).
pub assume_specification<'a, Idx>[ RangeInclusive::<Idx>::end ](
    r: &'a RangeInclusive<Idx>,
) -> (ret: &'a Idx)
    ensures
        !r@.exhausted ==> *ret == r@.end,
;

} // verus!
