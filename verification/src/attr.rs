//! The two records that a field's annotations compile into.

use vstd::prelude::*;

verus! {

/// How a value is rendered.
#[derive(Debug, Clone)]
pub struct BelowViewAttr {
    /// Expression that gives the recursion depth.
    pub depth: Option<proc_macro2::TokenStream>,
    /// Display unit.
    pub unit: Option<String>,
    /// Expression that gives the display prefix.
    pub prefix: Option<proc_macro2::TokenStream>,
    /// Column width.
    pub width: Option<usize>,
    /// Column width of the title.
    pub title_width: Option<usize>,
    /// What is shown for an absent value.
    pub none_mark: String,
    /// Name of the function that decorates the value.
    pub decorator: Option<String>,
    /// Number of decimal places.
    pub precision: Option<usize>,
    /// Predicate that decides whether the value is highlighted.
    pub highlight_if: Option<String>,
}

/// How a field takes part in code generation.
#[derive(Debug, Clone)]
pub struct BelowFieldAttr {
    /// Display title.
    pub title: Option<String>,
    /// Cross-reference targets, in the order in which they were given.
    pub link: Vec<String>,
    /// Grouping tag.
    pub tag: Option<String>,
    /// Sort-key tag.
    pub sort_tag: Option<String>,
    /// Class of the field.
    pub class: Option<String>,
    /// Whether the field is left out of what is shown.
    pub no_show: bool,
    /// Whether comparison code is generated.
    pub cmp: bool,
    /// Whether generation is forced.
    pub gen: bool,
    /// Whether the field belongs to the detailed part of its class.
    pub class_detail: bool,
    /// Name of the struct that fills in defaults.
    pub dfill_struct: Option<String>,
}

/// The outcome for one field: each record is there only if some directive
/// touched it.
#[derive(Debug)]
pub struct BelowAttr {
    pub view: Option<BelowViewAttr>,
    pub field: Option<BelowFieldAttr>,
}

/// The mathematical value of an optional string.
pub open spec fn text_view(text: Option<String>) -> Option<Seq<char>> {
    match text {
        Some(s) => Some(s@),
        None => None,
    }
}

/// The mathematical values of a sequence of strings, in order.
pub open spec fn text_views(texts: Seq<String>) -> Seq<Seq<char>> {
    Seq::new(texts.len(), |i: int| texts[i]@)
}

/// The mathematical value of a [`BelowViewAttr`]. Token streams stand for
/// themselves.
pub struct ViewAttrView {
    pub depth: Option<proc_macro2::TokenStream>,
    pub unit: Option<Seq<char>>,
    pub prefix: Option<proc_macro2::TokenStream>,
    pub width: Option<usize>,
    pub title_width: Option<usize>,
    pub none_mark: Seq<char>,
    pub decorator: Option<Seq<char>>,
    pub precision: Option<usize>,
    pub highlight_if: Option<Seq<char>>,
}

/// The mathematical value of a [`BelowFieldAttr`].
pub struct FieldAttrView {
    pub title: Option<Seq<char>>,
    pub link: Seq<Seq<char>>,
    pub tag: Option<Seq<char>>,
    pub sort_tag: Option<Seq<char>>,
    pub class: Option<Seq<char>>,
    pub no_show: bool,
    pub cmp: bool,
    pub gen: bool,
    pub class_detail: bool,
    pub dfill_struct: Option<Seq<char>>,
}

/// The mathematical value of a [`BelowAttr`].
pub struct AttrView {
    pub view: Option<ViewAttrView>,
    pub field: Option<FieldAttrView>,
}

impl ViewAttrView {
    /// The rendering record that no directive has touched: `"?"` for absent
    /// values, nothing else set.
    pub open spec fn initial() -> ViewAttrView {
        ViewAttrView {
            depth: None,
            unit: None,
            prefix: None,
            width: None,
            title_width: None,
            none_mark: "?"@,
            decorator: None,
            precision: None,
            highlight_if: None,
        }
    }
}

impl FieldAttrView {
    /// The code-generation record that no directive has touched.
    pub open spec fn initial() -> FieldAttrView {
        FieldAttrView {
            title: None,
            link: Seq::empty(),
            tag: None,
            sort_tag: None,
            class: None,
            no_show: false,
            cmp: false,
            gen: false,
            class_detail: false,
            dfill_struct: None,
        }
    }
}

impl AttrView {
    /// The outcome in which neither record is there.
    pub open spec fn absent() -> AttrView {
        AttrView { view: None, field: None }
    }
}

impl View for BelowViewAttr {
    type V = ViewAttrView;

    open spec fn view(&self) -> ViewAttrView {
        ViewAttrView {
            depth: self.depth,
            unit: text_view(self.unit),
            prefix: self.prefix,
            width: self.width,
            title_width: self.title_width,
            none_mark: self.none_mark@,
            decorator: text_view(self.decorator),
            precision: self.precision,
            highlight_if: text_view(self.highlight_if),
        }
    }
}

impl View for BelowFieldAttr {
    type V = FieldAttrView;

    open spec fn view(&self) -> FieldAttrView {
        FieldAttrView {
            title: text_view(self.title),
            link: text_views(self.link@),
            tag: text_view(self.tag),
            sort_tag: text_view(self.sort_tag),
            class: text_view(self.class),
            no_show: self.no_show,
            cmp: self.cmp,
            gen: self.gen,
            class_detail: self.class_detail,
            dfill_struct: text_view(self.dfill_struct),
        }
    }
}

impl View for BelowAttr {
    type V = AttrView;

    open spec fn view(&self) -> AttrView {
        AttrView {
            view: match self.view {
                Some(view) => Some(view@),
                None => None,
            },
            field: match self.field {
                Some(field) => Some(field@),
                None => None,
            },
        }
    }
}

impl Default for BelowViewAttr {
    fn default() -> (attr: BelowViewAttr)
        ensures
            attr@ == ViewAttrView::initial(),
    {
        BelowViewAttr {
            depth: None,
            unit: None,
            prefix: None,
            width: None,
            title_width: None,
            none_mark: "?".to_owned(),
            decorator: None,
            precision: None,
            highlight_if: None,
        }
    }
}

impl Default for BelowFieldAttr {
    fn default() -> (attr: BelowFieldAttr)
        ensures
            attr@ == FieldAttrView::initial(),
    {
        let attr = BelowFieldAttr {
            title: None,
            link: Vec::new(),
            tag: None,
            sort_tag: None,
            class: None,
            no_show: false,
            cmp: false,
            gen: false,
            class_detail: false,
            dfill_struct: None,
        };
        assert(attr@.link =~= Seq::empty());
        attr
    }
}

impl Default for BelowAttr {
    fn default() -> (attr: BelowAttr)
        ensures
            attr@ == AttrView::absent(),
    {
        BelowAttr { view: None, field: None }
    }
}

} // verus!
