//! The records of a field while its directives are being applied, and the
//! effect of one `key = literal` pair on them.

use vstd::prelude::*;
use crate::annotation::{Literal, LiteralView};
use crate::attr::{AttrView, BelowAttr, BelowFieldAttr, BelowViewAttr, FieldAttrView, ViewAttrView};
use crate::error::{AttrError, AttrErrorView, LiteralKind};
use crate::key::Key;

verus! {

/// Both records of a field, and for each whether a directive has touched it.
pub struct Draft {
    pub view: BelowViewAttr,
    pub field: BelowFieldAttr,
    pub view_seen: bool,
    pub field_seen: bool,
}

/// The mathematical value of a [`Draft`].
pub struct DraftView {
    pub view: ViewAttrView,
    pub field: FieldAttrView,
    pub view_seen: bool,
    pub field_seen: bool,
}

impl View for Draft {
    type V = DraftView;

    open spec fn view(&self) -> DraftView {
        DraftView {
            view: self.view@,
            field: self.field@,
            view_seen: self.view_seen,
            field_seen: self.field_seen,
        }
    }
}

/// The mathematical value of the outcome of a step on a draft.
pub open spec fn draft_outcome(outcome: Result<Draft, AttrError>) -> Result<
    DraftView,
    AttrErrorView,
> {
    match outcome {
        Ok(draft) => Ok(draft@),
        Err(error) => Err(error@),
    }
}

/// The mathematical value of the outcome for a field.
pub open spec fn attr_outcome(outcome: Result<BelowAttr, AttrError>) -> Result<
    AttrView,
    AttrErrorView,
> {
    match outcome {
        Ok(attr) => Ok(attr@),
        Err(error) => Err(error@),
    }
}

impl DraftView {
    /// The draft before any directive: both records untouched.
    pub open spec fn initial() -> DraftView {
        DraftView {
            view: ViewAttrView::initial(),
            field: FieldAttrView::initial(),
            view_seen: false,
            field_seen: false,
        }
    }

    /// The draft after a directive with `key` was seen, whatever it set.
    pub open spec fn mark(self, key: Key) -> DraftView {
        DraftView {
            view_seen: self.view_seen || key.touches_view(),
            field_seen: self.field_seen || key.touches_field(),
            ..self
        }
    }

    /// The draft after a cross-reference to `target` was added.
    pub open spec fn add_link(self, target: Seq<char>) -> DraftView {
        DraftView {
            field: FieldAttrView { link: self.field.link.push(target), ..self.field },
            field_seen: true,
            ..self
        }
    }

    /// The draft with `text` stored under a key that keeps a string as it
    /// is. `sort_tag` switches comparison on as well. Other keys store
    /// nothing.
    pub open spec fn set_text(self, key: Key, text: Seq<char>) -> DraftView {
        match key {
            Key::Title => DraftView {
                field: FieldAttrView { title: Some(text), ..self.field },
                ..self
            },
            Key::SortTag => DraftView {
                field: FieldAttrView { sort_tag: Some(text), cmp: true, ..self.field },
                ..self
            },
            Key::Tag => DraftView { field: FieldAttrView { tag: Some(text), ..self.field }, ..self },
            Key::Class => DraftView {
                field: FieldAttrView { class: Some(text), ..self.field },
                ..self
            },
            Key::DfillStruct => DraftView {
                field: FieldAttrView { dfill_struct: Some(text), ..self.field },
                ..self
            },
            Key::Unit => DraftView { view: ViewAttrView { unit: Some(text), ..self.view }, ..self },
            Key::Decorator => DraftView {
                view: ViewAttrView { decorator: Some(text), ..self.view },
                ..self
            },
            Key::NoneMark => DraftView {
                view: ViewAttrView { none_mark: text, ..self.view },
                ..self
            },
            Key::HighlightIf => DraftView {
                view: ViewAttrView { highlight_if: Some(text), ..self.view },
                ..self
            },
            _ => self,
        }
    }

    /// The draft with `tokens` stored under `depth` or `prefix`. Other keys
    /// store nothing.
    pub open spec fn set_tokens(self, key: Key, tokens: proc_macro2::TokenStream) -> DraftView {
        match key {
            Key::Depth => DraftView {
                view: ViewAttrView { depth: Some(tokens), ..self.view },
                ..self
            },
            Key::Prefix => DraftView {
                view: ViewAttrView { prefix: Some(tokens), ..self.view },
                ..self
            },
            _ => self,
        }
    }

    /// The draft with `number` stored under a key that takes an integer.
    /// Other keys store nothing.
    pub open spec fn set_number(self, key: Key, number: usize) -> DraftView {
        match key {
            Key::Width => DraftView {
                view: ViewAttrView { width: Some(number), ..self.view },
                ..self
            },
            Key::TitleWidth => DraftView {
                view: ViewAttrView { title_width: Some(number), ..self.view },
                ..self
            },
            Key::Precision => DraftView {
                view: ViewAttrView { precision: Some(number), ..self.view },
                ..self
            },
            _ => self,
        }
    }

    /// The draft with `flag` stored under a key that takes a boolean. Other
    /// keys store nothing.
    pub open spec fn set_flag(self, key: Key, flag: bool) -> DraftView {
        match key {
            Key::Cmp => DraftView { field: FieldAttrView { cmp: flag, ..self.field }, ..self },
            Key::Gen => DraftView { field: FieldAttrView { gen: flag, ..self.field }, ..self },
            Key::ClassDetail => DraftView {
                field: FieldAttrView { class_detail: flag, ..self.field },
                ..self
            },
            _ => self,
        }
    }

    /// The effect of `key = value` on the draft, for a field called `name`.
    ///
    /// The literal must be of the kind that the key takes, an integer must
    /// fit in `usize`, and the string given for `depth` or `prefix` must
    /// have lexed: `lexed` is what the lexer made of it, and is read for
    /// those two keys only.
    pub open spec fn set(
        self,
        key: Key,
        value: LiteralView,
        lexed: Option<proc_macro2::TokenStream>,
        name: Seq<char>,
    ) -> Result<DraftView, AttrErrorView> {
        let mismatch = AttrErrorView::LiteralTypeMismatch {
            field: name,
            key: key.name(),
            expected: key.kind(),
        };
        match key.kind() {
            LiteralKind::Str => match value {
                LiteralView::Str(text) => if key.is_expression() {
                    match lexed {
                        Some(tokens) => Ok(self.mark(key).set_tokens(key, tokens)),
                        None => Err(
                            AttrErrorView::ExpressionParseFailure {
                                field: name,
                                key: key.name(),
                                text,
                            },
                        ),
                    }
                } else {
                    Ok(self.mark(key).set_text(key, text))
                },
                _ => Err(mismatch),
            },
            LiteralKind::UnsignedInt => match value {
                LiteralView::Int(Some(number)) => Ok(self.mark(key).set_number(key, number)),
                _ => Err(mismatch),
            },
            LiteralKind::Bool => match value {
                LiteralView::Bool(flag) => Ok(self.mark(key).set_flag(key, flag)),
                _ => Err(mismatch),
            },
        }
    }

    /// The outcome for the field: each record is handed out if and only if
    /// a directive touched it.
    pub open spec fn assemble(self) -> AttrView {
        AttrView {
            view: if self.view_seen {
                Some(self.view)
            } else {
                None
            },
            field: if self.field_seen {
                Some(self.field)
            } else {
                None
            },
        }
    }
}

impl Draft {
    /// The draft before any directive: both records untouched.
    pub fn new() -> (draft: Draft)
        ensures
            draft@ == DraftView::initial(),
    {
        Draft {
            view: BelowViewAttr::default(),
            field: BelowFieldAttr::default(),
            view_seen: false,
            field_seen: false,
        }
    }

    /// Adds a cross-reference to `target`, after those already there.
    pub fn add_link(self, target: String) -> (draft: Draft)
        ensures
            draft@ == self@.add_link(target@),
    {
        let mut draft = self;
        draft.field.link.push(target);
        draft.field_seen = true;
        assert(draft@.field.link =~= self@.field.link.push(target@));
        draft
    }

    /// Records that a directive with `key` was seen.
    fn mark(self, key: Key) -> (draft: Draft)
        ensures
            draft@ == self@.mark(key),
    {
        let mut draft = self;
        draft.view_seen = draft.view_seen || key.affects_view();
        draft.field_seen = draft.field_seen || key.affects_field();
        draft
    }

    /// Stores `text` under a key that keeps a string as it is.
    fn set_text(self, key: Key, text: String) -> (draft: Draft)
        ensures
            draft@ == self@.set_text(key, text@),
    {
        let mut draft = self;
        match key {
            Key::Title => {
                draft.field.title = Some(text);
            },
            Key::SortTag => {
                draft.field.sort_tag = Some(text);
                draft.field.cmp = true;
            },
            Key::Tag => {
                draft.field.tag = Some(text);
            },
            Key::Class => {
                draft.field.class = Some(text);
            },
            Key::DfillStruct => {
                draft.field.dfill_struct = Some(text);
            },
            Key::Unit => {
                draft.view.unit = Some(text);
            },
            Key::Decorator => {
                draft.view.decorator = Some(text);
            },
            Key::NoneMark => {
                draft.view.none_mark = text;
            },
            Key::HighlightIf => {
                draft.view.highlight_if = Some(text);
            },
            _ => {},
        }
        draft
    }

    /// Stores `tokens` under `depth` or `prefix`.
    fn set_tokens(self, key: Key, tokens: proc_macro2::TokenStream) -> (draft: Draft)
        ensures
            draft@ == self@.set_tokens(key, tokens),
    {
        let mut draft = self;
        match key {
            Key::Depth => {
                draft.view.depth = Some(tokens);
            },
            Key::Prefix => {
                draft.view.prefix = Some(tokens);
            },
            _ => {},
        }
        draft
    }

    /// Stores `number` under a key that takes an integer.
    fn set_number(self, key: Key, number: usize) -> (draft: Draft)
        ensures
            draft@ == self@.set_number(key, number),
    {
        let mut draft = self;
        match key {
            Key::Width => {
                draft.view.width = Some(number);
            },
            Key::TitleWidth => {
                draft.view.title_width = Some(number);
            },
            Key::Precision => {
                draft.view.precision = Some(number);
            },
            _ => {},
        }
        draft
    }

    /// Stores `flag` under a key that takes a boolean.
    fn set_flag(self, key: Key, flag: bool) -> (draft: Draft)
        ensures
            draft@ == self@.set_flag(key, flag),
    {
        let mut draft = self;
        match key {
            Key::Cmp => {
                draft.field.cmp = flag;
            },
            Key::Gen => {
                draft.field.gen = flag;
            },
            Key::ClassDetail => {
                draft.field.class_detail = flag;
            },
            _ => {},
        }
        draft
    }

    /// Applies `key = value` to the draft of the field called `field_name`.
    /// `lexed` is what the lexer made of the string given for `depth` or
    /// `prefix`; for any other key it is not read.
    pub fn set(
        self,
        key: Key,
        value: &Literal,
        lexed: Option<proc_macro2::TokenStream>,
        field_name: &String,
    ) -> (outcome: Result<Draft, AttrError>)
        ensures
            draft_outcome(outcome) == self@.set(key, value@, lexed, field_name@),
    {
        match key.expected_kind() {
            LiteralKind::Str => match value {
                Literal::Str(text) => {
                    if key.takes_expression() {
                        match lexed {
                            Some(tokens) => Ok(self.mark(key).set_tokens(key, tokens)),
                            None => Err(
                                AttrError::ExpressionParseFailure {
                                    field: field_name.clone(),
                                    key: key.text(),
                                    text: text.clone(),
                                },
                            ),
                        }
                    } else {
                        Ok(self.mark(key).set_text(key, text.clone()))
                    }
                },
                _ => Err(
                    AttrError::LiteralTypeMismatch {
                        field: field_name.clone(),
                        key: key.text(),
                        expected: LiteralKind::Str,
                    },
                ),
            },
            LiteralKind::UnsignedInt => match value {
                Literal::Int(Some(number)) => Ok(self.mark(key).set_number(key, *number)),
                _ => Err(
                    AttrError::LiteralTypeMismatch {
                        field: field_name.clone(),
                        key: key.text(),
                        expected: LiteralKind::UnsignedInt,
                    },
                ),
            },
            LiteralKind::Bool => match value {
                Literal::Bool(flag) => Ok(self.mark(key).set_flag(key, *flag)),
                _ => Err(
                    AttrError::LiteralTypeMismatch {
                        field: field_name.clone(),
                        key: key.text(),
                        expected: LiteralKind::Bool,
                    },
                ),
            },
        }
    }

    /// Hands out each record if and only if a directive touched it.
    pub fn assemble(self) -> (attr: BelowAttr)
        ensures
            attr@ == self@.assemble(),
    {
        let view = if self.view_seen {
            Some(self.view)
        } else {
            None
        };
        let field = if self.field_seen {
            Some(self.field)
        } else {
            None
        };
        BelowAttr { view, field }
    }
}

} // verus!
