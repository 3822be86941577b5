//! Syntax checks that the Rust parser of `syn` makes.

use vstd::prelude::*;

verus! {

/// Whether `syn` parses the text as a Rust type.
pub uninterp spec fn type_syntax(text: Seq<char>) -> bool;

/// Whether `syn` parses the text as a Rust source file.
pub uninterp spec fn source_syntax(text: Seq<char>) -> bool;

/// `syn::parse_str::<syn::Type>`: whether the text parses as one Rust
/// type. The answer depends on the text alone.
#[verifier::external_body]
pub(crate) fn is_type_syntax(text: &str) -> (result: bool)
    ensures
        result == type_syntax(text@),
{
    syn::parse_str::<syn::Type>(text).is_ok()
}

/// `syn::parse_file`: whether the text parses as a Rust source file. The
/// answer depends on the text alone.
#[verifier::external_body]
pub(crate) fn is_source_syntax(text: &str) -> (result: bool)
    ensures
        result == source_syntax(text@),
{
    syn::parse_file(text).is_ok()
}

} // verus!
