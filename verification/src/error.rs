//! The ways in which a field's annotations can be rejected.

use vstd::prelude::*;

verus! {

/// The kind of literal that a key of a `bttr` directive accepts.
#[derive(Clone, Copy, Debug, PartialEq, Eq, Structural)]
pub enum LiteralKind {
    /// A string literal.
    Str,
    /// An integer literal that fits in `usize`.
    UnsignedInt,
    /// `true` or `false`.
    Bool,
}

/// Why the annotations of a field were rejected. Every variant is fatal:
/// no record is produced for the field.
#[derive(Clone, Debug, PartialEq, Eq)]
pub enum AttrError {
    /// A `blink` directive that does not hold exactly one string literal.
    UnsupportedNamespaceArity { field: String },
    /// A `bttr` directive uses a key that the dispatch table lacks.
    UnknownKey { field: String, key: String },
    /// The literal given for a key is not of the kind the key requires.
    LiteralTypeMismatch { field: String, key: String, expected: LiteralKind },
    /// The text given for `depth` or `prefix` does not lex as an expression.
    ExpressionParseFailure { field: String, key: String, text: String },
    /// A directive's body is not a parenthesised list, or an argument of a
    /// `bttr` directive is not of the form `key = literal`.
    MetaStructureError { field: String },
}

/// The mathematical value of an [`AttrError`].
pub enum AttrErrorView {
    UnsupportedNamespaceArity { field: Seq<char> },
    UnknownKey { field: Seq<char>, key: Seq<char> },
    LiteralTypeMismatch { field: Seq<char>, key: Seq<char>, expected: LiteralKind },
    ExpressionParseFailure { field: Seq<char>, key: Seq<char>, text: Seq<char> },
    MetaStructureError { field: Seq<char> },
}

impl View for AttrError {
    type V = AttrErrorView;

    open spec fn view(&self) -> AttrErrorView {
        match *self {
            AttrError::UnsupportedNamespaceArity { field } => {
                AttrErrorView::UnsupportedNamespaceArity { field: field@ }
            },
            AttrError::UnknownKey { field, key } => {
                AttrErrorView::UnknownKey { field: field@, key: key@ }
            },
            AttrError::LiteralTypeMismatch { field, key, expected } => {
                AttrErrorView::LiteralTypeMismatch { field: field@, key: key@, expected }
            },
            AttrError::ExpressionParseFailure { field, key, text } => {
                AttrErrorView::ExpressionParseFailure { field: field@, key: key@, text: text@ }
            },
            AttrError::MetaStructureError { field } => {
                AttrErrorView::MetaStructureError { field: field@ }
            },
        }
    }
}

impl AttrErrorView {
    /// The name of the field whose annotations were rejected.
    pub open spec fn field(self) -> Seq<char> {
        match self {
            AttrErrorView::UnsupportedNamespaceArity { field } => field,
            AttrErrorView::UnknownKey { field, .. } => field,
            AttrErrorView::LiteralTypeMismatch { field, .. } => field,
            AttrErrorView::ExpressionParseFailure { field, .. } => field,
            AttrErrorView::MetaStructureError { field } => field,
        }
    }
}

impl AttrError {
    /// The name of the field whose annotations were rejected.
    pub fn field(&self) -> (name: &String)
        ensures
            name@ == self@.field(),
    {
        match self {
            AttrError::UnsupportedNamespaceArity { field } => field,
            AttrError::UnknownKey { field, .. } => field,
            AttrError::LiteralTypeMismatch { field, .. } => field,
            AttrError::ExpressionParseFailure { field, .. } => field,
            AttrError::MetaStructureError { field } => field,
        }
    }
}

} // verus!
