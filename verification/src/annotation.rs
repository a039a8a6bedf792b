//! The annotations of one field, as plain values.
//!
//! An annotation is a namespace keyword followed by a body. The body of a
//! well-formed directive is a parenthesised list of arguments, each one
//! either an unnamed literal or a `key = literal` pair.

use vstd::prelude::*;

verus! {

/// A literal, reduced to what the directives read of it.
#[derive(Clone, Debug, PartialEq, Eq)]
pub enum Literal {
    /// A string literal, with its unescaped content.
    Str(String),
    /// An integer literal, with its value where that fits in `usize`.
    Int(Option<usize>),
    /// `true` or `false`.
    Bool(bool),
    /// Any other literal: a character, a byte string, a float.
    Other,
}

/// One argument of a directive.
#[derive(Clone, Debug, PartialEq, Eq)]
pub enum Argument {
    /// An unnamed literal, as in `blink("target")`.
    Literal(Literal),
    /// A `key = literal` pair, as in `bttr(width = 5)`.
    Pair { key: String, value: Literal },
    /// Anything else: a bare word or a nested list.
    Other,
}

/// What follows the namespace keyword of an annotation.
#[derive(Clone, Debug, PartialEq, Eq)]
pub enum Body {
    /// A parenthesised list of arguments.
    List(Vec<Argument>),
    /// Nothing, or `= literal`.
    Bare,
    /// Tokens that do not form a structured annotation.
    Malformed,
}

/// One annotation attached to a field.
#[derive(Clone, Debug, PartialEq, Eq)]
pub struct Annotation {
    /// The leading keyword, which selects the directive family.
    pub namespace: String,
    /// What follows the keyword. It is looked at only where the keyword
    /// names a directive.
    pub body: Body,
}

/// The mathematical value of a [`Literal`].
pub enum LiteralView {
    Str(Seq<char>),
    Int(Option<usize>),
    Bool(bool),
    Other,
}

/// The mathematical value of an [`Argument`].
pub enum ArgumentView {
    Literal(LiteralView),
    Pair { key: Seq<char>, value: LiteralView },
    Other,
}

/// The mathematical value of a [`Body`].
pub enum BodyView {
    List(Seq<ArgumentView>),
    Bare,
    Malformed,
}

/// The mathematical value of an [`Annotation`].
pub struct AnnotationView {
    pub namespace: Seq<char>,
    pub body: BodyView,
}

impl View for Literal {
    type V = LiteralView;

    open spec fn view(&self) -> LiteralView {
        match *self {
            Literal::Str(text) => LiteralView::Str(text@),
            Literal::Int(value) => LiteralView::Int(value),
            Literal::Bool(value) => LiteralView::Bool(value),
            Literal::Other => LiteralView::Other,
        }
    }
}

impl View for Argument {
    type V = ArgumentView;

    open spec fn view(&self) -> ArgumentView {
        match *self {
            Argument::Literal(literal) => ArgumentView::Literal(literal@),
            Argument::Pair { key, value } => ArgumentView::Pair { key: key@, value: value@ },
            Argument::Other => ArgumentView::Other,
        }
    }
}

/// The values of a sequence of arguments, in order.
pub open spec fn argument_views(arguments: Seq<Argument>) -> Seq<ArgumentView> {
    Seq::new(arguments.len(), |i: int| arguments[i]@)
}

impl View for Body {
    type V = BodyView;

    open spec fn view(&self) -> BodyView {
        match *self {
            Body::List(arguments) => BodyView::List(argument_views(arguments@)),
            Body::Bare => BodyView::Bare,
            Body::Malformed => BodyView::Malformed,
        }
    }
}

impl View for Annotation {
    type V = AnnotationView;

    open spec fn view(&self) -> AnnotationView {
        AnnotationView { namespace: self.namespace@, body: self.body@ }
    }
}

/// The values of a sequence of annotations, in order.
pub open spec fn annotation_views(annotations: Seq<Annotation>) -> Seq<AnnotationView> {
    Seq::new(annotations.len(), |i: int| annotations[i]@)
}

} // verus!
