//! The token-level values that this library carries but never inspects,
//! and the calls that produce them.

use vstd::prelude::*;

verus! {

/// A lexed token stream. The library stores and returns such values and
/// never looks inside one.
#[verifier::external_type_specification]
#[verifier::external_body]
pub struct ExTokenStream(proc_macro2::TokenStream);

/// The reason a text could not be lexed.
#[verifier::external_type_specification]
#[verifier::external_body]
pub struct ExLexError(proc_macro2::LexError);

/// An identifier token.
#[verifier::external_type_specification]
#[verifier::external_body]
pub struct ExIdent(proc_macro2::Ident);

/// Calls `<proc_macro2::TokenStream as FromStr>::from_str`. Nothing is
/// claimed about the outcome: which texts lex, and into what, is decided by
/// the lexer in use (the compiler's inside a procedural macro, the portable
/// one elsewhere).
#[verifier::external_body]
pub(crate) fn lex(text: &str) -> Result<proc_macro2::TokenStream, proc_macro2::LexError> {
    text.parse::<proc_macro2::TokenStream>()
}

/// The text of an identifier as `to_string` renders it.
pub uninterp spec fn ident_name(ident: proc_macro2::Ident) -> Seq<char>;

/// Calls `to_string` on a `proc_macro2::Ident`, which renders the identifier
/// as written, `r#` prefix included. The same identifier always renders
/// the same: the result is [`ident_name`] of it.
#[verifier::external_body]
pub(crate) fn ident_text(ident: &proc_macro2::Ident) -> (text: String)
    ensures
        text@ == ident_name(*ident),
{
    ident.to_string()
}

} // verus!
