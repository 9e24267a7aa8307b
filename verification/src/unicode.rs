//! The symbolic Unicode category names the constructors use, and their
//! rendering as the engine's property-escape syntax.

use vstd::prelude::*;
use crate::{CharClass, PrettyRegex, Standard};

verus! {

/// A symbolic Unicode general category, rendered as a property escape.
#[derive(Clone, Copy)]
pub enum Category {
    Letter,
    LowercaseLetter,
    Number,
}

/// The property-escape syntax for a category.
pub open spec fn category_escape(category: Category) -> Seq<char> {
    match category {
        Category::Letter => "\\p{Letter}"@,
        Category::LowercaseLetter => "\\p{Lowercase_Letter}"@,
        Category::Number => "\\p{Number}"@,
    }
}

/// A standard character class matching one character of the given category.
pub fn property_class(category: Category) -> (r: PrettyRegex<CharClass<Standard>>)
    ensures
        r@ == category_escape(category),
{
    let p = match category {
        Category::Letter => String::from_str("\\p{Letter}"),
        Category::LowercaseLetter => String::from_str("\\p{Lowercase_Letter}"),
        Category::Number => String::from_str("\\p{Number}"),
    };
    PrettyRegex::wrap(p)
}

} // verus!
