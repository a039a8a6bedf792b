//! The dispatch table of the `bttr` directive: its keys, and the kind of
//! literal that each one takes.

use vstd::prelude::*;
use crate::error::LiteralKind;

verus! {

/// A key of the `bttr` directive.
#[derive(Clone, Copy, Debug, PartialEq, Eq, Structural)]
pub enum Key {
    Title,
    SortTag,
    Tag,
    Class,
    DfillStruct,
    Unit,
    Decorator,
    Depth,
    Prefix,
    Width,
    TitleWidth,
    Precision,
    NoneMark,
    HighlightIf,
    Cmp,
    Gen,
    ClassDetail,
}

/// Whether `text` reads exactly `word`.
pub fn is_word(text: &String, word: &str) -> (same: bool)
    ensures
        same == (text@ == word@),
{
    let owned = word.to_owned();
    *text == owned
}

impl Key {
    /// The key as it is written in a directive.
    pub open spec fn name(self) -> Seq<char> {
        match self {
            Key::Title => "title"@,
            Key::SortTag => "sort_tag"@,
            Key::Tag => "tag"@,
            Key::Class => "class"@,
            Key::DfillStruct => "dfill_struct"@,
            Key::Unit => "unit"@,
            Key::Decorator => "decorator"@,
            Key::Depth => "depth"@,
            Key::Prefix => "prefix"@,
            Key::Width => "width"@,
            Key::TitleWidth => "title_width"@,
            Key::Precision => "precision"@,
            Key::NoneMark => "none_mark"@,
            Key::HighlightIf => "highlight_if"@,
            Key::Cmp => "cmp"@,
            Key::Gen => "gen"@,
            Key::ClassDetail => "class_detail"@,
        }
    }

    /// The key that `text` names, if it names one.
    pub open spec fn of_name(text: Seq<char>) -> Option<Key> {
        if text == "title"@ {
            Some(Key::Title)
        } else if text == "sort_tag"@ {
            Some(Key::SortTag)
        } else if text == "tag"@ {
            Some(Key::Tag)
        } else if text == "class"@ {
            Some(Key::Class)
        } else if text == "dfill_struct"@ {
            Some(Key::DfillStruct)
        } else if text == "unit"@ {
            Some(Key::Unit)
        } else if text == "decorator"@ {
            Some(Key::Decorator)
        } else if text == "depth"@ {
            Some(Key::Depth)
        } else if text == "prefix"@ {
            Some(Key::Prefix)
        } else if text == "width"@ {
            Some(Key::Width)
        } else if text == "title_width"@ {
            Some(Key::TitleWidth)
        } else if text == "precision"@ {
            Some(Key::Precision)
        } else if text == "none_mark"@ {
            Some(Key::NoneMark)
        } else if text == "highlight_if"@ {
            Some(Key::HighlightIf)
        } else if text == "cmp"@ {
            Some(Key::Cmp)
        } else if text == "gen"@ {
            Some(Key::Gen)
        } else if text == "class_detail"@ {
            Some(Key::ClassDetail)
        } else {
            None
        }
    }

    /// The kind of literal that the key takes.
    pub open spec fn kind(self) -> LiteralKind {
        match self {
            Key::Width | Key::TitleWidth | Key::Precision => LiteralKind::UnsignedInt,
            Key::Cmp | Key::Gen | Key::ClassDetail => LiteralKind::Bool,
            _ => LiteralKind::Str,
        }
    }

    /// Whether the key's string is lexed as an expression rather than kept
    /// as text.
    pub open spec fn is_expression(self) -> bool {
        self == Key::Depth || self == Key::Prefix
    }

    /// Whether a directive with this key makes the code-generation record
    /// present.
    pub open spec fn touches_field(self) -> bool {
        match self {
            Key::Title | Key::SortTag | Key::Tag | Key::Class | Key::DfillStruct | Key::Cmp
            | Key::Gen | Key::ClassDetail => true,
            _ => false,
        }
    }

    /// Whether a directive with this key makes the rendering record present.
    /// `title` does, although it is stored in the other record.
    pub open spec fn touches_view(self) -> bool {
        match self {
            Key::Title | Key::Unit | Key::Decorator | Key::Depth | Key::Prefix | Key::Width
            | Key::TitleWidth | Key::Precision | Key::NoneMark | Key::HighlightIf => true,
            _ => false,
        }
    }

    /// Looks `text` up in the dispatch table.
    pub fn lookup(text: &String) -> (key: Option<Key>)
        ensures
            key == Key::of_name(text@),
    {
        if is_word(text, "title") {
            Some(Key::Title)
        } else if is_word(text, "sort_tag") {
            Some(Key::SortTag)
        } else if is_word(text, "tag") {
            Some(Key::Tag)
        } else if is_word(text, "class") {
            Some(Key::Class)
        } else if is_word(text, "dfill_struct") {
            Some(Key::DfillStruct)
        } else if is_word(text, "unit") {
            Some(Key::Unit)
        } else if is_word(text, "decorator") {
            Some(Key::Decorator)
        } else if is_word(text, "depth") {
            Some(Key::Depth)
        } else if is_word(text, "prefix") {
            Some(Key::Prefix)
        } else if is_word(text, "width") {
            Some(Key::Width)
        } else if is_word(text, "title_width") {
            Some(Key::TitleWidth)
        } else if is_word(text, "precision") {
            Some(Key::Precision)
        } else if is_word(text, "none_mark") {
            Some(Key::NoneMark)
        } else if is_word(text, "highlight_if") {
            Some(Key::HighlightIf)
        } else if is_word(text, "cmp") {
            Some(Key::Cmp)
        } else if is_word(text, "gen") {
            Some(Key::Gen)
        } else if is_word(text, "class_detail") {
            Some(Key::ClassDetail)
        } else {
            None
        }
    }

    /// The kind of literal that the key takes.
    pub fn expected_kind(self) -> (kind: LiteralKind)
        ensures
            kind == self.kind(),
    {
        match self {
            Key::Width | Key::TitleWidth | Key::Precision => LiteralKind::UnsignedInt,
            Key::Cmp | Key::Gen | Key::ClassDetail => LiteralKind::Bool,
            _ => LiteralKind::Str,
        }
    }

    /// The key as it is written in a directive.
    pub fn text(self) -> (text: String)
        ensures
            text@ == self.name(),
    {
        match self {
            Key::Title => "title".to_owned(),
            Key::SortTag => "sort_tag".to_owned(),
            Key::Tag => "tag".to_owned(),
            Key::Class => "class".to_owned(),
            Key::DfillStruct => "dfill_struct".to_owned(),
            Key::Unit => "unit".to_owned(),
            Key::Decorator => "decorator".to_owned(),
            Key::Depth => "depth".to_owned(),
            Key::Prefix => "prefix".to_owned(),
            Key::Width => "width".to_owned(),
            Key::TitleWidth => "title_width".to_owned(),
            Key::Precision => "precision".to_owned(),
            Key::NoneMark => "none_mark".to_owned(),
            Key::HighlightIf => "highlight_if".to_owned(),
            Key::Cmp => "cmp".to_owned(),
            Key::Gen => "gen".to_owned(),
            Key::ClassDetail => "class_detail".to_owned(),
        }
    }

    /// Whether the key's string is lexed as an expression.
    pub fn takes_expression(self) -> (yes: bool)
        ensures
            yes == self.is_expression(),
    {
        match self {
            Key::Depth | Key::Prefix => true,
            _ => false,
        }
    }

    /// Whether a directive with this key makes the code-generation record
    /// present.
    pub fn affects_field(self) -> (yes: bool)
        ensures
            yes == self.touches_field(),
    {
        match self {
            Key::Title | Key::SortTag | Key::Tag | Key::Class | Key::DfillStruct | Key::Cmp
            | Key::Gen | Key::ClassDetail => true,
            _ => false,
        }
    }

    /// Whether a directive with this key makes the rendering record present.
    pub fn affects_view(self) -> (yes: bool)
        ensures
            yes == self.touches_view(),
    {
        match self {
            Key::Title | Key::Unit | Key::Decorator | Key::Depth | Key::Prefix | Key::Width
            | Key::TitleWidth | Key::Precision | Key::NoneMark | Key::HighlightIf => true,
            _ => false,
        }
    }

    /// Every key is found under its own name: no two rows of the table
    /// share a name.
    pub proof fn lemma_names_are_distinct(key: Key)
        ensures
            Key::of_name(key.name()) == Some(key),
    {
        reveal_strlit("title");
        reveal_strlit("sort_tag");
        reveal_strlit("tag");
        reveal_strlit("class");
        reveal_strlit("dfill_struct");
        reveal_strlit("unit");
        reveal_strlit("decorator");
        reveal_strlit("depth");
        reveal_strlit("prefix");
        reveal_strlit("width");
        reveal_strlit("title_width");
        reveal_strlit("precision");
        reveal_strlit("none_mark");
        reveal_strlit("highlight_if");
        reveal_strlit("cmp");
        reveal_strlit("gen");
        reveal_strlit("class_detail");
        // Names of one length differ in their first character.
        assert("title"@.len() == 5 && "title"@[0] == 't');
        assert("sort_tag"@.len() == 8 && "sort_tag"@[0] == 's');
        assert("tag"@.len() == 3 && "tag"@[0] == 't');
        assert("class"@.len() == 5 && "class"@[0] == 'c');
        assert("dfill_struct"@.len() == 12 && "dfill_struct"@[0] == 'd');
        assert("unit"@.len() == 4 && "unit"@[0] == 'u');
        assert("decorator"@.len() == 9 && "decorator"@[0] == 'd');
        assert("depth"@.len() == 5 && "depth"@[0] == 'd');
        assert("prefix"@.len() == 6 && "prefix"@[0] == 'p');
        assert("width"@.len() == 5 && "width"@[0] == 'w');
        assert("title_width"@.len() == 11 && "title_width"@[0] == 't');
        assert("precision"@.len() == 9 && "precision"@[0] == 'p');
        assert("none_mark"@.len() == 9 && "none_mark"@[0] == 'n');
        assert("highlight_if"@.len() == 12 && "highlight_if"@[0] == 'h');
        assert("cmp"@.len() == 3 && "cmp"@[0] == 'c');
        assert("gen"@.len() == 3 && "gen"@[0] == 'g');
        assert("class_detail"@.len() == 12 && "class_detail"@[0] == 'c');
    }
}

} // verus!
