//! What holds of every compilation, stated over [`compile`].

use vstd::prelude::*;
use crate::annotation::{AnnotationView, ArgumentView, BodyView, LiteralView};
use crate::attr::{AttrView, FieldAttrView, ViewAttrView};
use crate::compile::{
    apply_argument, apply_arguments, apply_directive, apply_directives, asks_nothing,
    collect_links, compile, compiles_to, is_directive, is_link, is_settings,
    lemma_argument_error_stays, lemma_directive_error_stays,
    lemma_directives_read_answers_asked_for, lemma_link_error_stays, lexer_not_asked,
    link_target, needs_lexing, same_answers, Lexed,
};
use crate::draft::DraftView;
use crate::error::{AttrErrorView, LiteralKind};
use crate::key::Key;

verus! {

/// A `blink` directive that holds the one string literal `target`.
pub open spec fn link(target: Seq<char>) -> AnnotationView {
    AnnotationView {
        namespace: "blink"@,
        body: BodyView::List(seq![ArgumentView::Literal(LiteralView::Str(target))]),
    }
}

/// A `bttr` directive that holds the one pair `key = value`.
pub open spec fn setting(key: Seq<char>, value: LiteralView) -> AnnotationView {
    AnnotationView {
        namespace: "bttr"@,
        body: BodyView::List(seq![ArgumentView::Pair { key, value }]),
    }
}

/// Whether a literal is of the kind that the key takes; an integer must
/// also fit in `usize`.
pub open spec fn accepts(key: Key, value: LiteralView) -> bool {
    match key.kind() {
        LiteralKind::Str => value is Str,
        LiteralKind::UnsignedInt => value matches LiteralView::Int(Some(_)),
        LiteralKind::Bool => value is Bool,
    }
}

/// Whether an argument of a `bttr` directive is refused whatever came
/// before it: it is no pair, its key is unknown, or its literal is of the
/// wrong kind.
pub open spec fn refused(argument: ArgumentView) -> bool {
    match argument {
        ArgumentView::Pair { key, value } => match Key::of_name(key) {
            Some(known) => !accepts(known, value),
            None => true,
        },
        _ => true,
    }
}

/// Whether a `blink` directive holds exactly one string literal.
pub open spec fn well_formed_link(annotation: AnnotationView) -> bool {
    annotation.body matches BodyView::List(arguments) && arguments.len() == 1 && (
    arguments[0] matches ArgumentView::Literal(LiteralView::Str(_)))
}

/// The two namespaces are different words.
pub proof fn lemma_namespaces_differ()
    ensures
        "blink"@ != "bttr"@,
{
    reveal_strlit("blink");
    reveal_strlit("bttr");
    assert("blink"@.len() == 5 && "bttr"@.len() == 4);
}

/// A field without annotations has neither record.
pub proof fn law_no_annotations(lexed: Seq<Lexed>, name: Seq<char>)
    ensures
        compile(Seq::empty(), lexed, name) == Ok::<AttrView, AttrErrorView>(AttrView::absent()),
{
}

/// What one `bttr` directive with one pair compiles to is what the pair
/// does to the untouched draft.
pub proof fn lemma_setting_alone(
    key: Seq<char>,
    value: LiteralView,
    lexed: Seq<Lexed>,
    name: Seq<char>,
)
    ensures
        compile(seq![setting(key, value)], lexed, name) == match apply_argument(
            DraftView::initial(),
            ArgumentView::Pair { key, value },
            lexed[0][0],
            name,
        ) {
            Ok(done) => Ok::<AttrView, AttrErrorView>(done.assemble()),
            Err(error) => Err(error),
        },
{
    lemma_namespaces_differ();
    let annotations = seq![setting(key, value)];
    let arguments = seq![ArgumentView::Pair { key, value }];
    assert(annotations[0] == setting(key, value));
    assert(arguments[0] == ArgumentView::Pair { key, value });
    reveal_with_fuel(collect_links, 2);
    reveal_with_fuel(apply_directives, 2);
    reveal_with_fuel(apply_arguments, 2);
    assert(!is_link(annotations[0]));
    assert(collect_links(DraftView::initial(), annotations, name, 1) == Ok::<
        DraftView,
        AttrErrorView,
    >(DraftView::initial()));
    assert(apply_arguments(DraftView::initial(), arguments, lexed[0], name, 1) == apply_argument(
        DraftView::initial(),
        arguments[0],
        lexed[0][0],
        name,
    ));
}

/// One `unit` entry with a string gives the rendering record with that
/// unit and nothing else set, and no code-generation record.
pub proof fn law_unit_alone(unit: Seq<char>, lexed: Seq<Lexed>, name: Seq<char>)
    ensures
        compile(seq![setting("unit"@, LiteralView::Str(unit))], lexed, name) == Ok::<
            AttrView,
            AttrErrorView,
        >(
            AttrView {
                view: Some(ViewAttrView { unit: Some(unit), ..ViewAttrView::initial() }),
                field: None,
            },
        ),
{
    Key::lemma_names_are_distinct(Key::Unit);
    lemma_setting_alone("unit"@, LiteralView::Str(unit), lexed, name);
}

/// `sort_tag` stores its string and switches comparison on, whatever the
/// draft held before.
pub proof fn law_sort_tag_forces_comparison(
    draft: DraftView,
    tag: Seq<char>,
    lexed: Option<proc_macro2::TokenStream>,
    name: Seq<char>,
)
    ensures
        draft.set(Key::SortTag, LiteralView::Str(tag), lexed, name) matches Ok(done)
            && done.field.cmp && done.field.sort_tag == Some(tag) && done.field_seen,
{
}

/// One `sort_tag` entry alone gives a code-generation record with that
/// tag and with comparison on, and no rendering record.
pub proof fn law_sort_tag_alone(tag: Seq<char>, lexed: Seq<Lexed>, name: Seq<char>)
    ensures
        compile(seq![setting("sort_tag"@, LiteralView::Str(tag))], lexed, name) == Ok::<
            AttrView,
            AttrErrorView,
        >(
            AttrView {
                view: None,
                field: Some(
                    FieldAttrView { sort_tag: Some(tag), cmp: true, ..FieldAttrView::initial() },
                ),
            },
        ),
{
    Key::lemma_names_are_distinct(Key::SortTag);
    lemma_setting_alone("sort_tag"@, LiteralView::Str(tag), lexed, name);
}

/// `title` alone makes both records present, though it sets nothing in the
/// rendering record.
pub proof fn law_title_alone(title: Seq<char>, lexed: Seq<Lexed>, name: Seq<char>)
    ensures
        compile(seq![setting("title"@, LiteralView::Str(title))], lexed, name) == Ok::<
            AttrView,
            AttrErrorView,
        >(
            AttrView {
                view: Some(ViewAttrView::initial()),
                field: Some(FieldAttrView { title: Some(title), ..FieldAttrView::initial() }),
            },
        ),
{
    Key::lemma_names_are_distinct(Key::Title);
    lemma_setting_alone("title"@, LiteralView::Str(title), lexed, name);
}

/// A pair whose literal is not of the kind that its key takes is refused
/// with a mismatch that names the field, the key and the kind: a string
/// is never read as a number.
pub proof fn law_mismatch_alone(key: Key, value: LiteralView, lexed: Seq<Lexed>, name: Seq<char>)
    requires
        !accepts(key, value),
    ensures
        compile(seq![setting(key.name(), value)], lexed, name) == Err::<AttrView, AttrErrorView>(
            AttrErrorView::LiteralTypeMismatch { field: name, key: key.name(), expected: key.kind() },
        ),
{
    Key::lemma_names_are_distinct(key);
    lemma_setting_alone(key.name(), value, lexed, name);
}

/// A pair whose key is not in the dispatch table is refused with an error
/// that names the field and the key.
pub proof fn law_unknown_key_alone(
    key: Seq<char>,
    value: LiteralView,
    lexed: Seq<Lexed>,
    name: Seq<char>,
)
    requires
        Key::of_name(key) is None,
    ensures
        compile(seq![setting(key, value)], lexed, name) == Err::<AttrView, AttrErrorView>(
            AttrErrorView::UnknownKey { field: name, key },
        ),
{
    lemma_setting_alone(key, value, lexed, name);
}

/// The first reading of cross-reference directives only: every target is
/// added, in the order of the directives.
proof fn lemma_links_collected(targets: Seq<Seq<char>>, name: Seq<char>, n: nat)
    requires
        n <= targets.len(),
    ensures
        collect_links(
            DraftView::initial(),
            Seq::new(targets.len(), |i: int| link(targets[i])),
            name,
            n,
        ) == Ok::<DraftView, AttrErrorView>(
            DraftView {
                field: FieldAttrView {
                    link: targets.subrange(0, n as int),
                    ..FieldAttrView::initial()
                },
                field_seen: n > 0,
                ..DraftView::initial()
            },
        ),
    decreases n,
{
    let annotations = Seq::new(targets.len(), |i: int| link(targets[i]));
    if n == 0 {
        assert(targets.subrange(0, 0) =~= Seq::empty());
    } else {
        lemma_links_collected(targets, name, (n - 1) as nat);
        assert(annotations[n - 1] == link(targets[n - 1]));
        assert(link(targets[n - 1]).body->List_0[0] == ArgumentView::Literal(
            LiteralView::Str(targets[n - 1]),
        ));
        assert(link_target(annotations[n - 1], name) == Ok::<Option<Seq<char>>, AttrErrorView>(
            Some(targets[n - 1]),
        ));
        assert(targets.subrange(0, n - 1).push(targets[n - 1]) =~= targets.subrange(0, n as int));
    }
}

/// The second reading passes over cross-reference directives.
proof fn lemma_links_passed_over(
    draft: DraftView,
    targets: Seq<Seq<char>>,
    lexed: Seq<Lexed>,
    name: Seq<char>,
    n: nat,
)
    requires
        n <= targets.len(),
    ensures
        apply_directives(
            draft,
            Seq::new(targets.len(), |i: int| link(targets[i])),
            lexed,
            name,
            n,
        ) == Ok::<DraftView, AttrErrorView>(draft),
    decreases n,
{
    let annotations = Seq::new(targets.len(), |i: int| link(targets[i]));
    if n > 0 {
        lemma_links_passed_over(draft, targets, lexed, name, (n - 1) as nat);
        lemma_namespaces_differ();
        assert(annotations[n - 1] == link(targets[n - 1]));
        assert(!is_settings(annotations[n - 1]));
    }
}

/// Cross-reference directives, each with one string target, give a
/// code-generation record whose links are the targets in the order of the
/// directives, and no rendering record.
pub proof fn law_links_in_order(targets: Seq<Seq<char>>, lexed: Seq<Lexed>, name: Seq<char>)
    requires
        targets.len() > 0,
    ensures
        compile(Seq::new(targets.len(), |i: int| link(targets[i])), lexed, name) == Ok::<
            AttrView,
            AttrErrorView,
        >(
            AttrView {
                view: None,
                field: Some(FieldAttrView { link: targets, ..FieldAttrView::initial() }),
            },
        ),
{
    lemma_links_collected(targets, name, targets.len());
    assert(targets.subrange(0, targets.len() as int) =~= targets);
    let linked = DraftView {
        field: FieldAttrView { link: targets, ..FieldAttrView::initial() },
        field_seen: true,
        ..DraftView::initial()
    };
    lemma_links_passed_over(linked, targets, lexed, name, targets.len());
}

/// A cross-reference directive that does not hold exactly one string
/// literal is fatal wherever it stands: the field gets no records, not
/// records with a link missing.
pub proof fn law_bad_link_is_fatal(
    annotations: Seq<AnnotationView>,
    at: int,
    lexed: Seq<Lexed>,
    name: Seq<char>,
)
    requires
        0 <= at < annotations.len(),
        is_link(annotations[at]),
        !well_formed_link(annotations[at]),
    ensures
        compile(annotations, lexed, name) is Err,
{
    let before = collect_links(DraftView::initial(), annotations, name, at as nat);
    assert(link_target(annotations[at], name) is Err);
    assert(collect_links(DraftView::initial(), annotations, name, (at + 1) as nat) is Err);
    lemma_link_error_stays(
        DraftView::initial(),
        annotations,
        name,
        (at + 1) as nat,
        annotations.len(),
    );
}

/// An argument of a `bttr` directive that is no pair, has an unknown key
/// or has a literal of the wrong kind is fatal wherever it stands: the
/// field gets no records.
pub proof fn law_refused_argument_is_fatal(
    annotations: Seq<AnnotationView>,
    at: int,
    position: int,
    lexed: Seq<Lexed>,
    name: Seq<char>,
)
    requires
        0 <= at < annotations.len(),
        is_settings(annotations[at]),
        annotations[at].body matches BodyView::List(arguments) && 0 <= position
            < arguments.len() && refused(arguments[position]),
    ensures
        compile(annotations, lexed, name) is Err,
{
    match collect_links(DraftView::initial(), annotations, name, annotations.len()) {
        Ok(linked) => {
            let arguments = annotations[at].body->List_0;
            match apply_directives(linked, annotations, lexed, name, at as nat) {
                Ok(before) => {
                    match apply_arguments(before, arguments, lexed[at], name, position as nat) {
                        Ok(current) => {
                            assert(apply_argument(
                                current,
                                arguments[position],
                                lexed[at][position],
                                name,
                            ) is Err);
                            assert(apply_arguments(
                                before,
                                arguments,
                                lexed[at],
                                name,
                                (position + 1) as nat,
                            ) is Err);
                        },
                        Err(_) => {
                            assert(apply_arguments(
                                before,
                                arguments,
                                lexed[at],
                                name,
                                (position + 1) as nat,
                            ) is Err);
                        },
                    }
                    lemma_argument_error_stays(
                        before,
                        arguments,
                        lexed[at],
                        name,
                        (position + 1) as nat,
                        arguments.len(),
                    );
                    assert(apply_directive(before, annotations[at], lexed[at], name) is Err);
                },
                Err(_) => {},
            }
            assert(apply_directives(linked, annotations, lexed, name, (at + 1) as nat) is Err);
            lemma_directive_error_stays(
                linked,
                annotations,
                lexed,
                name,
                (at + 1) as nat,
                annotations.len(),
            );
        },
        Err(_) => {},
    }
}

/// The outcome depends on the lexer only through the answers it is asked
/// for: the same annotations with the same answers there compile to the
/// same outcome.
pub proof fn law_same_answers_same_outcome(
    annotations: Seq<AnnotationView>,
    first: Seq<Lexed>,
    second: Seq<Lexed>,
    name: Seq<char>,
)
    requires
        forall|i: int|
            0 <= i < annotations.len() ==> same_answers(
                #[trigger] annotations[i],
                first[i],
                second[i],
            ),
    ensures
        compile(annotations, first, name) == compile(annotations, second, name),
{
    match collect_links(DraftView::initial(), annotations, name, annotations.len()) {
        Ok(linked) => {
            lemma_directives_read_answers_asked_for(
                linked,
                annotations,
                first,
                second,
                name,
                annotations.len(),
            );
        },
        Err(_) => {},
    }
}

/// Where no argument gives a string for `depth` or `prefix`, the
/// annotations have one outcome only: compiling them again gives the same
/// records, or the same error.
pub proof fn law_outcome_is_unique(
    annotations: Seq<AnnotationView>,
    name: Seq<char>,
    first: Result<AttrView, AttrErrorView>,
    second: Result<AttrView, AttrErrorView>,
)
    requires
        lexer_not_asked(annotations),
        compiles_to(annotations, name, first),
        compiles_to(annotations, name, second),
    ensures
        first == second,
{
    let one = choose|lexed: Seq<Lexed>| first == #[trigger] compile(annotations, lexed, name);
    let other = choose|lexed: Seq<Lexed>| second == #[trigger] compile(annotations, lexed, name);
    assert forall|i: int| 0 <= i < annotations.len() implies same_answers(
        #[trigger] annotations[i],
        one[i],
        other[i],
    ) by {
        assert(asks_nothing(annotations[i]));
    }
    law_same_answers_same_outcome(annotations, one, other, name);
}

/// Whether the argument is a pair whose key makes the code-generation
/// record present.
pub open spec fn argument_touches_field(argument: ArgumentView) -> bool {
    match argument {
        ArgumentView::Pair { key, .. } => match Key::of_name(key) {
            Some(known) => known.touches_field(),
            None => false,
        },
        _ => false,
    }
}

/// Whether the argument is a pair whose key makes the rendering record
/// present.
pub open spec fn argument_touches_view(argument: ArgumentView) -> bool {
    match argument {
        ArgumentView::Pair { key, .. } => match Key::of_name(key) {
            Some(known) => known.touches_view(),
            None => false,
        },
        _ => false,
    }
}

/// Whether one of the first `n` elements has the property.
pub open spec fn some_among<T>(elements: Seq<T>, n: nat, property: spec_fn(T) -> bool) -> bool {
    exists|i: int| 0 <= i < n && property(#[trigger] elements[i])
}

/// One of the first `n` elements has a property if and only if one of
/// those before the last has it, or the last.
pub proof fn lemma_some_among_one_more<T>(elements: Seq<T>, n: nat, property: spec_fn(T) -> bool)
    requires
        n > 0,
    ensures
        some_among(elements, n, property) == (some_among(elements, (n - 1) as nat, property)
            || property(elements[n - 1])),
{
    if some_among(elements, n, property) {
        let i = choose|i: int| 0 <= i < n && property(#[trigger] elements[i]);
        if i < n - 1 {
            assert(some_among(elements, (n - 1) as nat, property));
        }
    }
    if some_among(elements, (n - 1) as nat, property) {
        let i = choose|i: int| 0 <= i < n - 1 && property(#[trigger] elements[i]);
        assert(0 <= i < n && property(elements[i]));
    }
    if property(elements[n - 1]) {
        assert(some_among(elements, n, property));
    }
}

/// The property of touching the code-generation record.
pub open spec fn field_argument() -> spec_fn(ArgumentView) -> bool {
    |argument: ArgumentView| argument_touches_field(argument)
}

/// The property of touching the rendering record.
pub open spec fn view_argument() -> spec_fn(ArgumentView) -> bool {
    |argument: ArgumentView| argument_touches_view(argument)
}

/// Whether the annotation touches the code-generation record: it is a
/// cross-reference directive, or a key-value directive with a key that
/// belongs to that record.
pub open spec fn touches_field(annotation: AnnotationView) -> bool {
    is_link(annotation) || (is_settings(annotation) && match annotation.body {
        BodyView::List(arguments) => some_among(arguments, arguments.len(), field_argument()),
        _ => false,
    })
}

/// Whether the annotation touches the rendering record: it is a key-value
/// directive with `title` or a key that belongs to that record.
pub open spec fn touches_view(annotation: AnnotationView) -> bool {
    is_settings(annotation) && match annotation.body {
        BodyView::List(arguments) => some_among(arguments, arguments.len(), view_argument()),
        _ => false,
    }
}

/// The property of being a cross-reference directive.
pub open spec fn link_directive() -> spec_fn(AnnotationView) -> bool {
    |annotation: AnnotationView| is_link(annotation)
}

/// The property of being a key-value directive that touches the
/// code-generation record.
pub open spec fn field_settings() -> spec_fn(AnnotationView) -> bool {
    |annotation: AnnotationView| is_settings(annotation) && touches_field(annotation)
}

/// The property of touching the rendering record.
pub open spec fn view_settings() -> spec_fn(AnnotationView) -> bool {
    |annotation: AnnotationView| touches_view(annotation)
}

/// The first reading marks the code-generation record if and only if it
/// meets a cross-reference directive, and leaves the other mark alone.
proof fn lemma_links_mark_field(
    draft: DraftView,
    annotations: Seq<AnnotationView>,
    name: Seq<char>,
    n: nat,
)
    ensures
        collect_links(draft, annotations, name, n) matches Ok(done) ==> done.view_seen
            == draft.view_seen && done.view == draft.view && done.field_seen == (draft.field_seen
            || some_among(annotations, n, link_directive())),
    decreases n,
{
    if n > 0 {
        lemma_links_mark_field(draft, annotations, name, (n - 1) as nat);
        lemma_some_among_one_more(annotations, n, link_directive());
    }
}

/// A pair that is accepted marks the records that its key touches, and no
/// other.
proof fn lemma_argument_marks(
    draft: DraftView,
    argument: ArgumentView,
    lexed: Option<proc_macro2::TokenStream>,
    name: Seq<char>,
)
    ensures
        apply_argument(draft, argument, lexed, name) matches Ok(done) ==> done.field_seen == (
        draft.field_seen || argument_touches_field(argument)) && done.view_seen == (
        draft.view_seen || argument_touches_view(argument)),
{
}

/// The arguments of a directive mark a record if and only if one of them
/// touches it.
proof fn lemma_arguments_mark(
    draft: DraftView,
    arguments: Seq<ArgumentView>,
    lexed: Lexed,
    name: Seq<char>,
    n: nat,
)
    ensures
        apply_arguments(draft, arguments, lexed, name, n) matches Ok(done) ==> done.field_seen
            == (draft.field_seen || some_among(arguments, n, field_argument()))
            && done.view_seen == (draft.view_seen || some_among(arguments, n, view_argument())),
    decreases n,
{
    if n > 0 {
        lemma_arguments_mark(draft, arguments, lexed, name, (n - 1) as nat);
        lemma_some_among_one_more(arguments, n, field_argument());
        lemma_some_among_one_more(arguments, n, view_argument());
        match apply_arguments(draft, arguments, lexed, name, (n - 1) as nat) {
            Ok(before) => {
                lemma_argument_marks(before, arguments[n - 1], lexed[n - 1], name);
            },
            Err(_) => {},
        }
    }
}

/// The second reading marks a record if and only if it meets a key-value
/// directive that touches it.
proof fn lemma_directives_mark(
    draft: DraftView,
    annotations: Seq<AnnotationView>,
    lexed: Seq<Lexed>,
    name: Seq<char>,
    n: nat,
)
    ensures
        apply_directives(draft, annotations, lexed, name, n) matches Ok(done) ==> done.field_seen
            == (draft.field_seen || some_among(annotations, n, field_settings()))
            && done.view_seen == (draft.view_seen || some_among(annotations, n, view_settings())),
    decreases n,
{
    if n > 0 {
        lemma_directives_mark(draft, annotations, lexed, name, (n - 1) as nat);
        lemma_some_among_one_more(annotations, n, field_settings());
        lemma_some_among_one_more(annotations, n, view_settings());
        match apply_directives(draft, annotations, lexed, name, (n - 1) as nat) {
            Ok(before) => {
                let last = annotations[n - 1];
                if is_settings(last) {
                    match last.body {
                        BodyView::List(arguments) => {
                            lemma_arguments_mark(
                                before,
                                arguments,
                                lexed[n - 1],
                                name,
                                arguments.len(),
                            );
                        },
                        _ => {},
                    }
                }
                lemma_namespaces_differ();
            },
            Err(_) => {},
        }
    }
}

/// Where the annotations are accepted, each record is present if and only
/// if some directive touched it: the code-generation record for a
/// cross-reference or one of its keys, the rendering record for `title` or
/// one of its keys. Whether a record holds anything but defaults plays no
/// part, and the rendering record can be there without the other.
pub proof fn law_present_iff_touched(
    annotations: Seq<AnnotationView>,
    lexed: Seq<Lexed>,
    name: Seq<char>,
)
    ensures
        compile(annotations, lexed, name) matches Ok(attr) ==> (attr.field is Some <==> exists|
            i: int,
        | 0 <= i < annotations.len() && touches_field(#[trigger] annotations[i])) && (
        attr.view is Some <==> exists|i: int|
            0 <= i < annotations.len() && touches_view(#[trigger] annotations[i])),
{
    let n = annotations.len();
    lemma_links_mark_field(DraftView::initial(), annotations, name, n);
    match collect_links(DraftView::initial(), annotations, name, n) {
        Ok(linked) => {
            lemma_directives_mark(linked, annotations, lexed, name, n);
            if compile(annotations, lexed, name) is Ok {
                lemma_namespaces_differ();
                if some_among(annotations, n, link_directive()) {
                    let i = choose|i: int|
                        0 <= i < n && link_directive()(#[trigger] annotations[i]);
                    assert(touches_field(annotations[i]));
                }
                if some_among(annotations, n, field_settings()) {
                    let i = choose|i: int|
                        0 <= i < n && field_settings()(#[trigger] annotations[i]);
                    assert(touches_field(annotations[i]));
                }
                if exists|i: int| 0 <= i < n && touches_field(#[trigger] annotations[i]) {
                    let i = choose|i: int| 0 <= i < n && touches_field(#[trigger] annotations[i]);
                    if is_link(annotations[i]) {
                        assert(link_directive()(annotations[i]));
                    } else {
                        assert(field_settings()(annotations[i]));
                    }
                }
                if some_among(annotations, n, view_settings()) {
                    let i = choose|i: int|
                        0 <= i < n && view_settings()(#[trigger] annotations[i]);
                    assert(touches_view(annotations[i]));
                }
                if exists|i: int| 0 <= i < n && touches_view(#[trigger] annotations[i]) {
                    let i = choose|i: int| 0 <= i < n && touches_view(#[trigger] annotations[i]);
                    assert(view_settings()(annotations[i]));
                }
            }
        },
        Err(_) => {},
    }
}

/// Annotations of other namespaces are passed over, bodies unread: two
/// lists that differ only in annotations that are no directives compile to
/// the same outcome.
pub proof fn law_only_directives_are_read(
    first: Seq<AnnotationView>,
    second: Seq<AnnotationView>,
    lexed: Seq<Lexed>,
    name: Seq<char>,
)
    requires
        first.len() == second.len(),
        forall|i: int|
            0 <= i < first.len() ==> #[trigger] first[i] == second[i] || (!is_directive(first[i])
                && !is_directive(second[i])),
    ensures
        compile(first, lexed, name) == compile(second, lexed, name),
{
    lemma_links_read_from_directives(DraftView::initial(), first, second, name, first.len());
    match collect_links(DraftView::initial(), first, name, first.len()) {
        Ok(linked) => {
            lemma_settings_read_from_directives(linked, first, second, lexed, name, first.len());
        },
        Err(_) => {},
    }
}

/// The first reading looks at directives only.
proof fn lemma_links_read_from_directives(
    draft: DraftView,
    first: Seq<AnnotationView>,
    second: Seq<AnnotationView>,
    name: Seq<char>,
    n: nat,
)
    requires
        n <= first.len() == second.len(),
        forall|i: int|
            0 <= i < first.len() ==> #[trigger] first[i] == second[i] || (!is_directive(first[i])
                && !is_directive(second[i])),
    ensures
        collect_links(draft, first, name, n) == collect_links(draft, second, name, n),
    decreases n,
{
    if n > 0 {
        lemma_links_read_from_directives(draft, first, second, name, (n - 1) as nat);
        assert(first[n - 1] == second[n - 1] || (!is_directive(first[n - 1]) && !is_directive(
            second[n - 1],
        )));
    }
}

/// The second reading looks at directives only.
proof fn lemma_settings_read_from_directives(
    draft: DraftView,
    first: Seq<AnnotationView>,
    second: Seq<AnnotationView>,
    lexed: Seq<Lexed>,
    name: Seq<char>,
    n: nat,
)
    requires
        n <= first.len() == second.len(),
        forall|i: int|
            0 <= i < first.len() ==> #[trigger] first[i] == second[i] || (!is_directive(first[i])
                && !is_directive(second[i])),
    ensures
        apply_directives(draft, first, lexed, name, n) == apply_directives(
            draft,
            second,
            lexed,
            name,
            n,
        ),
    decreases n,
{
    if n > 0 {
        lemma_settings_read_from_directives(draft, first, second, lexed, name, (n - 1) as nat);
        assert(first[n - 1] == second[n - 1] || (!is_directive(first[n - 1]) && !is_directive(
            second[n - 1],
        )));
    }
}

} // verus!
