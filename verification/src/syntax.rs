//! Annotations as the parser of the host language hands them over.
//!
//! A path, a structured attribute and a literal are opaque here. Each is
//! read through the calls below, one layer at a time, into the plain values
//! of an [`Annotation`](crate::annotation::Annotation); the rest of the
//! library works on those. What a call gives for a value is a function of
//! that value alone, and has a name, so that what is read is stated exactly.
//!
//! Turning an attribute's tokens into a `syn::Meta` is left to the caller:
//! `syn::Attribute::parse_meta` panics on a literal token that it does not
//! know, such as a C string, and nothing in this library panics.

use vstd::prelude::*;
use crate::annotation::{
    argument_views, Argument, ArgumentView, Body, BodyView, Literal, LiteralView,
};
use crate::tokens::{ident_name, ident_text};

verus! {

/// A path such as the `bttr` that opens an attribute.
#[verifier::external_type_specification]
#[verifier::external_body]
pub struct ExPath(syn::Path);

/// The structured content of an attribute.
#[verifier::external_type_specification]
#[verifier::external_body]
pub struct ExMeta(syn::Meta);

/// One element of the list in an attribute.
#[verifier::external_type_specification]
#[verifier::external_body]
pub struct ExNestedMeta(syn::NestedMeta);

/// A literal of the host language.
#[verifier::external_type_specification]
#[verifier::external_body]
pub struct ExLit(syn::Lit);

/// A string literal of the host language.
#[verifier::external_type_specification]
#[verifier::external_body]
pub struct ExLitStr(syn::LitStr);

/// An integer literal of the host language.
#[verifier::external_type_specification]
#[verifier::external_body]
pub struct ExLitInt(syn::LitInt);

/// The reason the host language's parser gives for a refusal.
#[verifier::external_type_specification]
#[verifier::external_body]
pub struct ExSynError(syn::Error);

/// One element of an attribute's list, taken apart one layer deep.
pub enum NestedParts {
    /// An unnamed literal.
    Literal(syn::Lit),
    /// A `name = literal`: the name's path, and the literal.
    Pair(syn::Path, syn::Lit),
    /// A bare word or a nested list.
    Other,
}

/// A literal, told apart by its kind.
pub enum LitParts {
    Str(syn::LitStr),
    Int(syn::LitInt),
    Bool(bool),
    /// A byte string, a byte, a character, a float or an unread token.
    Other,
}

/// The identifier of the first segment of a path, if it has a segment.
pub uninterp spec fn head_of(path: syn::Path) -> Option<proc_macro2::Ident>;

/// The elements of a structured attribute that is a list, in the order in
/// which they were written; `None` for a word and for a `name = literal`.
pub uninterp spec fn arguments_of(meta: syn::Meta) -> Option<Seq<syn::NestedMeta>>;

/// The variant of an element of a list, with what it holds.
pub uninterp spec fn nested_parts(nested: syn::NestedMeta) -> NestedParts;

/// The variant of a literal, with what it holds.
pub uninterp spec fn lit_parts(literal: syn::Lit) -> LitParts;

/// The content of a string literal, escapes resolved.
pub uninterp spec fn literal_text(text: syn::LitStr) -> Seq<char>;

/// The value of an integer literal's digits, where they form a `usize`.
pub uninterp spec fn literal_number(number: syn::LitInt) -> Option<usize>;

/// What [`nested_argument`] hands out: the parts by reference.
enum RawArgument<'a> {
    Literal(&'a syn::Lit),
    Pair(&'a syn::Path, &'a syn::Lit),
    Other,
}

/// What [`literal_parts`] hands out: the parts by reference.
enum RawLiteral<'a> {
    Str(&'a syn::LitStr),
    Int(&'a syn::LitInt),
    Bool(bool),
    Other,
}

impl RawArgument<'_> {
    spec fn parts(self) -> NestedParts {
        match self {
            RawArgument::Literal(literal) => NestedParts::Literal(*literal),
            RawArgument::Pair(path, literal) => NestedParts::Pair(*path, *literal),
            RawArgument::Other => NestedParts::Other,
        }
    }
}

impl RawLiteral<'_> {
    spec fn parts(self) -> LitParts {
        match self {
            RawLiteral::Str(text) => LitParts::Str(*text),
            RawLiteral::Int(number) => LitParts::Int(*number),
            RawLiteral::Bool(flag) => LitParts::Bool(flag),
            RawLiteral::Other => LitParts::Other,
        }
    }
}

/// The elements that a list of references points to, in order.
spec fn pointed_to(nested: Seq<&syn::NestedMeta>) -> Seq<syn::NestedMeta> {
    Seq::new(nested.len(), |j: int| *nested[j])
}

/// Calls `Punctuated::first` on the segments of a `syn::Path` and hands
/// out the identifier of that segment; `None` for a path without segments.
/// The result is [`head_of`] of the path.
#[verifier::external_body]
fn path_head(path: &syn::Path) -> (head: Option<&proc_macro2::Ident>)
    ensures
        match head {
            Some(ident) => head_of(*path) == Some(*ident),
            None => head_of(*path) is None,
        },
{
    path.segments.first().map(|segment| &segment.ident)
}

/// Hands out the elements of a `syn::Meta::List`, in the order in which
/// `Punctuated::iter` walks them, which is the order in which they were
/// written; `None` for the other two variants. The result is
/// [`arguments_of`] of the value.
#[verifier::external_body]
fn meta_arguments(meta: &syn::Meta) -> (arguments: Option<Vec<&syn::NestedMeta>>)
    ensures
        match arguments {
            Some(nested) => arguments_of(*meta) == Some(pointed_to(nested@)),
            None => arguments_of(*meta) is None,
        },
{
    match meta {
        syn::Meta::List(list) => Some(list.nested.iter().collect()),
        syn::Meta::Path(_) => None,
        syn::Meta::NameValue(_) => None,
    }
}

/// Tells the variants of a `syn::NestedMeta` apart: a literal, a
/// `name = literal` (its path and its literal), or anything else. The
/// result is [`nested_parts`] of the value.
#[verifier::external_body]
fn nested_argument<'a>(nested: &'a syn::NestedMeta) -> (raw: RawArgument<'a>)
    ensures
        raw.parts() == nested_parts(*nested),
{
    match nested {
        syn::NestedMeta::Lit(literal) => RawArgument::Literal(literal),
        syn::NestedMeta::Meta(syn::Meta::NameValue(pair)) => RawArgument::Pair(
            &pair.path,
            &pair.lit,
        ),
        syn::NestedMeta::Meta(_) => RawArgument::Other,
    }
}

/// Tells the variants of a `syn::Lit` apart: a string, an integer, a
/// boolean (with its value), or anything else. The result is [`lit_parts`]
/// of the value.
#[verifier::external_body]
fn literal_parts<'a>(literal: &'a syn::Lit) -> (raw: RawLiteral<'a>)
    ensures
        raw.parts() == lit_parts(*literal),
{
    match literal {
        syn::Lit::Str(text) => RawLiteral::Str(text),
        syn::Lit::Int(number) => RawLiteral::Int(number),
        syn::Lit::Bool(flag) => RawLiteral::Bool(flag.value),
        _ => RawLiteral::Other,
    }
}

/// Calls `syn::LitStr::value`, which gives the content of the string
/// literal with its escapes resolved. The result is [`literal_text`] of
/// the literal.
#[verifier::external_body]
fn string_value(text: &syn::LitStr) -> (value: String)
    ensures
        value@ == literal_text(*text),
{
    text.value()
}

/// Calls `syn::LitInt::base10_parse` for `usize`, which gives the value of
/// the literal's digits, or an error where they do not form a `usize`. The
/// value is [`literal_number`] of the literal, which is `None` where the
/// call gives an error.
#[verifier::external_body]
fn integer_value(number: &syn::LitInt) -> (value: Result<usize, syn::Error>)
    ensures
        match value {
            Ok(digits) => literal_number(*number) == Some(digits),
            Err(_) => literal_number(*number) is None,
        },
{
    number.base10_parse::<usize>()
}

/// The leading word of a path as text, if the path has a segment.
pub open spec fn word_of(path: syn::Path) -> Option<Seq<char>> {
    match head_of(path) {
        Some(ident) => Some(ident_name(ident)),
        None => None,
    }
}

/// The namespace that a path gives an annotation: its leading word, or the
/// empty namespace, which belongs to no directive, for a path without
/// segments.
pub open spec fn namespace_reading(path: syn::Path) -> Seq<char> {
    match word_of(path) {
        Some(word) => word,
        None => Seq::empty(),
    }
}

/// What a literal reads as.
pub open spec fn literal_reading(literal: syn::Lit) -> LiteralView {
    match lit_parts(literal) {
        LitParts::Str(text) => LiteralView::Str(literal_text(text)),
        LitParts::Int(number) => LiteralView::Int(literal_number(number)),
        LitParts::Bool(flag) => LiteralView::Bool(flag),
        LitParts::Other => LiteralView::Other,
    }
}

/// What one element of a list reads as. The key of a pair is the leading
/// word of its path.
pub open spec fn argument_reading(nested: syn::NestedMeta) -> ArgumentView {
    match nested_parts(nested) {
        NestedParts::Literal(literal) => ArgumentView::Literal(literal_reading(literal)),
        NestedParts::Pair(path, literal) => match word_of(path) {
            Some(key) => ArgumentView::Pair { key, value: literal_reading(literal) },
            None => ArgumentView::Other,
        },
        NestedParts::Other => ArgumentView::Other,
    }
}

/// What the content of an attribute reads as; `None` stands for tokens
/// that the parser refused.
pub open spec fn body_reading(meta: Option<syn::Meta>) -> BodyView {
    match meta {
        Some(meta) => match arguments_of(meta) {
            Some(nested) => BodyView::List(
                Seq::new(nested.len(), |j: int| argument_reading(nested[j])),
            ),
            None => BodyView::Bare,
        },
        None => BodyView::Malformed,
    }
}

/// The leading word of a path as text, if the path has a segment.
fn path_word(path: &syn::Path) -> (word: Option<String>)
    ensures
        match word {
            Some(text) => word_of(*path) == Some(text@),
            None => word_of(*path) is None,
        },
{
    match path_head(path) {
        Some(ident) => Some(ident_text(ident)),
        None => None,
    }
}

/// Reads a literal into plain values.
fn read_literal(literal: &syn::Lit) -> (read: Literal)
    ensures
        read@ == literal_reading(*literal),
{
    match literal_parts(literal) {
        RawLiteral::Str(text) => Literal::Str(string_value(text)),
        RawLiteral::Int(number) => match integer_value(number) {
            Ok(value) => Literal::Int(Some(value)),
            Err(_) => Literal::Int(None),
        },
        RawLiteral::Bool(flag) => Literal::Bool(flag),
        RawLiteral::Other => Literal::Other,
    }
}

/// Reads one element of an attribute's list into plain values.
fn read_argument(nested: &syn::NestedMeta) -> (read: Argument)
    ensures
        read@ == argument_reading(*nested),
{
    match nested_argument(nested) {
        RawArgument::Literal(literal) => Argument::Literal(read_literal(literal)),
        RawArgument::Pair(path, literal) => match path_word(path) {
            Some(key) => Argument::Pair { key, value: read_literal(literal) },
            None => Argument::Other,
        },
        RawArgument::Other => Argument::Other,
    }
}

/// The namespace of the annotation that the attribute with this path
/// stands for.
pub fn namespace_of(path: &syn::Path) -> (namespace: String)
    ensures
        namespace@ == namespace_reading(*path),
{
    match path_word(path) {
        Some(word) => word,
        None => String::new(),
    }
}

/// Reads the content of an attribute into plain values: a list with its
/// arguments in order, a word or `name = literal` as a bare body, and
/// `None`, which stands for tokens that the parser refused, as a malformed
/// one.
pub fn read_body(meta: Option<&syn::Meta>) -> (body: Body)
    ensures
        body@ == body_reading(
            match meta {
                Some(meta) => Some(*meta),
                None => None,
            },
        ),
{
    let meta = match meta {
        Some(meta) => meta,
        None => {
            return Body::Malformed;
        },
    };
    match meta_arguments(meta) {
        Some(nested) => {
            let ghost elements = pointed_to(nested@);
            let mut arguments: Vec<Argument> = Vec::new();
            let mut j: usize = 0;
            while j < nested.len()
                invariant
                    j <= nested@.len(),
                    elements == pointed_to(nested@),
                    arguments@.len() == j,
                    forall|k: int|
                        0 <= k < j ==> (#[trigger] arguments@[k])@ == argument_reading(
                            elements[k],
                        ),
                decreases nested@.len() - j,
            {
                arguments.push(read_argument(nested[j]));
                j = j + 1;
            }
            assert(argument_views(arguments@) =~= Seq::new(
                elements.len(),
                |j: int| argument_reading(elements[j]),
            ));
            Body::List(arguments)
        },
        None => Body::Bare,
    }
}

} // verus!
