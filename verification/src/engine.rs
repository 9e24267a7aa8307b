//! The trusted interface to the external pattern-matching engine (the `regex`
//! crate). Everything this crate assumes about the engine is collected here.

use vstd::prelude::*;
use crate::syntax::escaped;

verus! {

#[verifier::external_type_specification]
#[verifier::external_body]
pub struct ExRegex(regex::Regex);

/// Whether the engine accepts `s` as pattern syntax. `regex::Regex::new`
/// compiles with a fixed default configuration, so acceptance is a function
/// of the pattern text alone.
pub uninterp spec fn engine_accepts(s: Seq<char>) -> bool;

/// The engine's diagnostic for the pattern `s`, as its error renders it.
/// Under the fixed default configuration the error, and so its rendering,
/// is a function of the pattern text alone; the name is only constrained
/// for rejected patterns.
pub uninterp spec fn engine_diagnostic(s: Seq<char>) -> Seq<char>;

/// Relies on `regex::Regex::new` and on the `Display` rendering of its
/// error: compiles a pattern string with the default configuration,
/// returning a matcher exactly when the engine accepts the pattern, and the
/// engine's rendered diagnostic otherwise.
#[verifier::external_body]
pub(crate) fn compile_pattern(pattern: &str) -> (r: Result<regex::Regex, String>)
    ensures
        r is Ok <==> engine_accepts(pattern@),
        r is Err ==> r->Err_0@ == engine_diagnostic(pattern@),
{
    match regex::Regex::new(pattern) {
        Ok(re) => Ok(re),
        Err(e) => Err(format!("{}", e)),
    }
}

/// Relies on `regex::escape`: prefixes each meta character with a backslash
/// and keeps every other character, as [`escaped`] states.
#[verifier::external_body]
pub(crate) fn escape_text(text: &str) -> (r: String)
    ensures
        r@ == escaped(text@),
{
    regex::escape(text)
}

} // verus!
