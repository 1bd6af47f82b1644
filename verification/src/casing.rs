//! Identifier casing, as the `inflector` crate defines it.

use vstd::prelude::*;

verus! {

/// The Pascal-case form that `inflector` gives to `s`.
pub uninterp spec fn pascal_case(s: Seq<char>) -> Seq<char>;

/// The snake-case form that `inflector` gives to `s`.
pub uninterp spec fn snake_case(s: Seq<char>) -> Seq<char>;

/// Trusted: `to_pascal_case` of `inflector` reads nothing but its argument,
/// so its result is a function of the argument's characters; that function
/// is called [`pascal_case`] here. It walks the characters once and returns
/// on every input.
pub assume_specification[ inflector::cases::pascalcase::to_pascal_case ](
    non_pascalized_string: &str,
) -> (pascal: String)
    ensures
        pascal@ == pascal_case(non_pascalized_string@),
;

/// Trusted: `to_snake_case` of `inflector` reads nothing but its argument,
/// so its result is a function of the argument's characters; that function
/// is called [`snake_case`] here. It walks the characters once and returns
/// on every input.
pub assume_specification[ inflector::cases::snakecase::to_snake_case ](
    non_snake_case_string: &str,
) -> (snake: String)
    ensures
        snake@ == snake_case(non_snake_case_string@),
;

} // verus!
