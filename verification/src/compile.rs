//! From the annotations of a field to its records.
//!
//! The annotations are read twice, in order both times: first the `blink`
//! directives, each of which adds one cross-reference, then the `bttr`
//! directives, whose `key = literal` pairs are applied one after the other.
//! Annotations of any other namespace are passed over. The first directive
//! that is not acceptable ends the work with its error.

use vstd::prelude::*;
use crate::annotation::{
    annotation_views, argument_views, Annotation, AnnotationView, Argument, ArgumentView, Body,
    BodyView, Literal, LiteralView,
};
use crate::attr::{AttrView, BelowAttr};
use crate::draft::{attr_outcome, draft_outcome, Draft, DraftView};
use crate::error::{AttrError, AttrErrorView};
use crate::key::{is_word, Key};
use crate::tokens::lex;

verus! {

/// What the lexer made of the string of each argument of one directive:
/// the tokens, or `None` where it refused the string.
pub type Lexed = Seq<Option<proc_macro2::TokenStream>>;

/// Whether the annotation is a cross-reference directive.
pub open spec fn is_link(annotation: AnnotationView) -> bool {
    annotation.namespace == "blink"@
}

/// Whether the annotation is a key-value directive.
pub open spec fn is_settings(annotation: AnnotationView) -> bool {
    annotation.namespace == "bttr"@
}

/// The cross-reference that the annotation adds for the field called
/// `name`: none if it is no `blink` directive, else the one string literal
/// that it must hold.
pub open spec fn link_target(annotation: AnnotationView, name: Seq<char>) -> Result<
    Option<Seq<char>>,
    AttrErrorView,
> {
    if !is_link(annotation) {
        Ok(None)
    } else {
        match annotation.body {
            BodyView::List(arguments) => if arguments.len() != 1 {
                Err(AttrErrorView::UnsupportedNamespaceArity { field: name })
            } else {
                match arguments[0] {
                    ArgumentView::Literal(LiteralView::Str(target)) => Ok(Some(target)),
                    _ => Err(AttrErrorView::UnsupportedNamespaceArity { field: name }),
                }
            },
            _ => Err(AttrErrorView::MetaStructureError { field: name }),
        }
    }
}

/// The draft after the cross-references of the first `n` annotations were
/// added to it.
pub open spec fn collect_links(
    draft: DraftView,
    annotations: Seq<AnnotationView>,
    name: Seq<char>,
    n: nat,
) -> Result<DraftView, AttrErrorView>
    decreases n,
{
    if n == 0 {
        Ok(draft)
    } else {
        match collect_links(draft, annotations, name, (n - 1) as nat) {
            Ok(before) => match link_target(annotations[n - 1], name) {
                Ok(Some(target)) => Ok(before.add_link(target)),
                Ok(None) => Ok(before),
                Err(error) => Err(error),
            },
            Err(error) => Err(error),
        }
    }
}

/// Whether the lexer is asked about the argument: it is where the argument
/// gives a string for `depth` or `prefix`.
pub open spec fn needs_lexing(argument: ArgumentView) -> bool {
    match argument {
        ArgumentView::Pair { key, value: LiteralView::Str(_) } => match Key::of_name(key) {
            Some(key) => key.is_expression(),
            None => false,
        },
        _ => false,
    }
}

/// The effect of one argument of a `bttr` directive on the draft, where
/// `lexed` is the lexer's answer for it.
pub open spec fn apply_argument(
    draft: DraftView,
    argument: ArgumentView,
    lexed: Option<proc_macro2::TokenStream>,
    name: Seq<char>,
) -> Result<DraftView, AttrErrorView> {
    match argument {
        ArgumentView::Pair { key, value } => match Key::of_name(key) {
            Some(known) => draft.set(known, value, lexed, name),
            None => Err(AttrErrorView::UnknownKey { field: name, key }),
        },
        _ => Err(AttrErrorView::MetaStructureError { field: name }),
    }
}

/// The draft after the first `n` arguments of a `bttr` directive were
/// applied to it, in order.
pub open spec fn apply_arguments(
    draft: DraftView,
    arguments: Seq<ArgumentView>,
    lexed: Lexed,
    name: Seq<char>,
    n: nat,
) -> Result<DraftView, AttrErrorView>
    decreases n,
{
    if n == 0 {
        Ok(draft)
    } else {
        match apply_arguments(draft, arguments, lexed, name, (n - 1) as nat) {
            Ok(before) => apply_argument(before, arguments[n - 1], lexed[n - 1], name),
            Err(error) => Err(error),
        }
    }
}

/// The effect of one annotation on the draft in the second reading: none
/// unless it is a `bttr` directive, whose body must be a list.
pub open spec fn apply_directive(
    draft: DraftView,
    annotation: AnnotationView,
    lexed: Lexed,
    name: Seq<char>,
) -> Result<DraftView, AttrErrorView> {
    if !is_settings(annotation) {
        Ok(draft)
    } else {
        match annotation.body {
            BodyView::List(arguments) => apply_arguments(
                draft,
                arguments,
                lexed,
                name,
                arguments.len(),
            ),
            _ => Err(AttrErrorView::MetaStructureError { field: name }),
        }
    }
}

/// The draft after the `bttr` directives among the first `n` annotations
/// were applied to it, in order.
pub open spec fn apply_directives(
    draft: DraftView,
    annotations: Seq<AnnotationView>,
    lexed: Seq<Lexed>,
    name: Seq<char>,
    n: nat,
) -> Result<DraftView, AttrErrorView>
    decreases n,
{
    if n == 0 {
        Ok(draft)
    } else {
        match apply_directives(draft, annotations, lexed, name, (n - 1) as nat) {
            Ok(before) => apply_directive(before, annotations[n - 1], lexed[n - 1], name),
            Err(error) => Err(error),
        }
    }
}

/// The outcome for the field called `name` with these annotations, where
/// `lexed[i][j]` is the lexer's answer for argument `j` of annotation `i`.
pub open spec fn compile(annotations: Seq<AnnotationView>, lexed: Seq<Lexed>, name: Seq<char>)
    -> Result<AttrView, AttrErrorView> {
    match collect_links(DraftView::initial(), annotations, name, annotations.len()) {
        Ok(linked) => match apply_directives(linked, annotations, lexed, name, annotations.len()) {
            Ok(done) => Ok(done.assemble()),
            Err(error) => Err(error),
        },
        Err(error) => Err(error),
    }
}

/// Whether the annotation is a directive of one of the two families. The
/// body of any other annotation is not looked at.
pub open spec fn is_directive(annotation: AnnotationView) -> bool {
    is_link(annotation) || is_settings(annotation)
}

/// Whether `outcome` is what the annotations compile to for some answers
/// of the lexer.
pub open spec fn compiles_to(
    annotations: Seq<AnnotationView>,
    name: Seq<char>,
    outcome: Result<AttrView, AttrErrorView>,
) -> bool {
    exists|lexed: Seq<Lexed>| outcome == #[trigger] compile(annotations, lexed, name)
}

/// Whether two rows of answers say the same wherever the lexer is asked
/// about an argument of the annotation.
pub open spec fn same_answers(annotation: AnnotationView, first: Lexed, second: Lexed) -> bool {
    match annotation.body {
        BodyView::List(arguments) => forall|j: int|
            0 <= j < arguments.len() && needs_lexing(#[trigger] arguments[j]) ==> first[j]
                == second[j],
        _ => true,
    }
}

/// Whether the lexer is asked about no argument of the annotation.
pub open spec fn asks_nothing(annotation: AnnotationView) -> bool {
    match annotation.body {
        BodyView::List(arguments) => forall|j: int|
            0 <= j < arguments.len() ==> !needs_lexing(#[trigger] arguments[j]),
        _ => true,
    }
}

/// Whether the lexer is asked about no argument of any annotation.
pub open spec fn lexer_not_asked(annotations: Seq<AnnotationView>) -> bool {
    forall|i: int| 0 <= i < annotations.len() ==> asks_nothing(#[trigger] annotations[i])
}

/// An error among the first `m` annotations is the outcome of the first
/// reading, however many follow.
pub proof fn lemma_link_error_stays(
    draft: DraftView,
    annotations: Seq<AnnotationView>,
    name: Seq<char>,
    m: nat,
    n: nat,
)
    requires
        m <= n,
        collect_links(draft, annotations, name, m) is Err,
    ensures
        collect_links(draft, annotations, name, n) == collect_links(draft, annotations, name, m),
    decreases n,
{
    if m < n {
        lemma_link_error_stays(draft, annotations, name, m, (n - 1) as nat);
    }
}

/// An error among the first `m` arguments is the outcome of the
/// directive, however many follow.
pub proof fn lemma_argument_error_stays(
    draft: DraftView,
    arguments: Seq<ArgumentView>,
    lexed: Lexed,
    name: Seq<char>,
    m: nat,
    n: nat,
)
    requires
        m <= n,
        apply_arguments(draft, arguments, lexed, name, m) is Err,
    ensures
        apply_arguments(draft, arguments, lexed, name, n) == apply_arguments(
            draft,
            arguments,
            lexed,
            name,
            m,
        ),
    decreases n,
{
    if m < n {
        lemma_argument_error_stays(draft, arguments, lexed, name, m, (n - 1) as nat);
    }
}

/// An error among the first `m` annotations is the outcome of the second
/// reading, however many follow.
pub proof fn lemma_directive_error_stays(
    draft: DraftView,
    annotations: Seq<AnnotationView>,
    lexed: Seq<Lexed>,
    name: Seq<char>,
    m: nat,
    n: nat,
)
    requires
        m <= n,
        apply_directives(draft, annotations, lexed, name, m) is Err,
    ensures
        apply_directives(draft, annotations, lexed, name, n) == apply_directives(
            draft,
            annotations,
            lexed,
            name,
            m,
        ),
    decreases n,
{
    if m < n {
        lemma_directive_error_stays(draft, annotations, lexed, name, m, (n - 1) as nat);
    }
}

/// The lexer's answers matter only where it is asked: two rows of answers
/// that agree there give the same outcome for the first `n` arguments.
pub proof fn lemma_arguments_read_answers_asked_for(
    draft: DraftView,
    arguments: Seq<ArgumentView>,
    first: Lexed,
    second: Lexed,
    name: Seq<char>,
    n: nat,
)
    requires
        n <= arguments.len(),
        forall|j: int|
            0 <= j < n && needs_lexing(#[trigger] arguments[j]) ==> first[j] == second[j],
    ensures
        apply_arguments(draft, arguments, first, name, n) == apply_arguments(
            draft,
            arguments,
            second,
            name,
            n,
        ),
    decreases n,
{
    if n > 0 {
        lemma_arguments_read_answers_asked_for(
            draft,
            arguments,
            first,
            second,
            name,
            (n - 1) as nat,
        );
        let last = arguments[n - 1];
        assert(needs_lexing(last) ==> first[n - 1] == second[n - 1]);
    }
}

/// Two tables of answers that agree wherever the lexer is asked give the
/// same outcome for the first `n` annotations.
pub proof fn lemma_directives_read_answers_asked_for(
    draft: DraftView,
    annotations: Seq<AnnotationView>,
    first: Seq<Lexed>,
    second: Seq<Lexed>,
    name: Seq<char>,
    n: nat,
)
    requires
        n <= annotations.len(),
        forall|i: int|
            0 <= i < n ==> same_answers(#[trigger] annotations[i], first[i], second[i]),
    ensures
        apply_directives(draft, annotations, first, name, n) == apply_directives(
            draft,
            annotations,
            second,
            name,
            n,
        ),
    decreases n,
{
    if n > 0 {
        lemma_directives_read_answers_asked_for(
            draft,
            annotations,
            first,
            second,
            name,
            (n - 1) as nat,
        );
        let last = annotations[n - 1];
        assert(same_answers(last, first[n - 1], second[n - 1]));
        match apply_directives(draft, annotations, first, name, (n - 1) as nat) {
            Ok(before) => {
                if is_settings(last) {
                    match last.body {
                        BodyView::List(arguments) => {
                            lemma_arguments_read_answers_asked_for(
                                before,
                                arguments,
                                first[n - 1],
                                second[n - 1],
                                name,
                                arguments.len(),
                            );
                        },
                        _ => {},
                    }
                }
            },
            Err(_) => {},
        }
    }
}

/// Whether an annotation of this namespace is a directive, so that its
/// body has to be read.
pub fn names_directive(namespace: &String) -> (yes: bool)
    ensures
        yes == (namespace@ == "blink"@ || namespace@ == "bttr"@),
{
    is_word(namespace, "blink") || is_word(namespace, "bttr")
}

/// The mathematical value of what [`link_of`] returns.
pub open spec fn link_outcome(outcome: Result<Option<String>, AttrError>) -> Result<
    Option<Seq<char>>,
    AttrErrorView,
> {
    match outcome {
        Ok(Some(target)) => Ok(Some(target@)),
        Ok(None) => Ok(None),
        Err(error) => Err(error@),
    }
}

/// The cross-reference that the annotation adds, if it is a `blink`
/// directive: such a directive holds exactly one string literal.
pub fn link_of(annotation: &Annotation, field_name: &String) -> (outcome: Result<
    Option<String>,
    AttrError,
>)
    ensures
        link_outcome(outcome) == link_target(annotation@, field_name@),
{
    if !is_word(&annotation.namespace, "blink") {
        return Ok(None);
    }
    match &annotation.body {
        Body::List(arguments) => {
            if arguments.len() != 1 {
                return Err(AttrError::UnsupportedNamespaceArity { field: field_name.clone() });
            }
            assert(argument_views(arguments@)[0] == arguments@[0]@);
            match &arguments[0] {
                Argument::Literal(Literal::Str(target)) => Ok(Some(target.clone())),
                _ => Err(AttrError::UnsupportedNamespaceArity { field: field_name.clone() }),
            }
        },
        _ => Err(AttrError::MetaStructureError { field: field_name.clone() }),
    }
}

/// First reading: adds the cross-reference of every `blink` directive to
/// the draft, in order.
pub fn read_links(draft: Draft, annotations: &[Annotation], field_name: &String) -> (outcome:
    Result<Draft, AttrError>)
    ensures
        draft_outcome(outcome) == collect_links(
            draft@,
            annotation_views(annotations@),
            field_name@,
            annotations@.len(),
        ),
{
    let ghost start = draft@;
    let ghost views = annotation_views(annotations@);
    let mut current = draft;
    let mut i: usize = 0;
    while i < annotations.len()
        invariant
            i <= annotations@.len(),
            start == draft@,
            views == annotation_views(annotations@),
            Ok::<DraftView, AttrErrorView>(current@) == collect_links(
                start,
                views,
                field_name@,
                i as nat,
            ),
        decreases annotations@.len() - i,
    {
        assert(views[i as int] == annotations@[i as int]@);
        match link_of(&annotations[i], field_name) {
            Ok(Some(target)) => {
                current = current.add_link(target);
            },
            Ok(None) => {},
            Err(error) => {
                proof {
                    assert(collect_links(start, views, field_name@, (i + 1) as nat) == Err::<
                        DraftView,
                        AttrErrorView,
                    >(error@));
                    lemma_link_error_stays(
                        start,
                        views,
                        field_name@,
                        (i + 1) as nat,
                        annotations@.len(),
                    );
                }
                return Err(error);
            },
        }
        i = i + 1;
    }
    Ok(current)
}

/// Asks the lexer about the argument where it gives a string for `depth`
/// or `prefix`, and nowhere else: for any other key or literal there is no
/// answer. Where the lexer is asked, the answer is the lexer's.
fn lexed_for(key: Key, value: &Literal) -> (lexed: Option<proc_macro2::TokenStream>)
    ensures
        !(key.is_expression() && value@ is Str) ==> lexed is None,
{
    if key.takes_expression() {
        match value {
            Literal::Str(text) => match lex(text.as_str()) {
                Ok(tokens) => Some(tokens),
                Err(_) => None,
            },
            _ => None,
        }
    } else {
        None
    }
}

/// Applies one argument of a `bttr` directive to the draft. The argument
/// must be a `key = literal` pair with a key of the dispatch table and a
/// literal of the kind that the key takes. For `depth` and `prefix` the
/// lexer decides whether the string is accepted.
pub fn set_argument(draft: Draft, argument: &Argument, field_name: &String) -> (outcome: Result<
    Draft,
    AttrError,
>)
    ensures
        exists|lexed: Option<proc_macro2::TokenStream>|
            draft_outcome(outcome) == #[trigger] apply_argument(
                draft@,
                argument@,
                lexed,
                field_name@,
            ),
        !needs_lexing(argument@) ==> draft_outcome(outcome) == apply_argument(
            draft@,
            argument@,
            None,
            field_name@,
        ),
{
    match argument {
        Argument::Pair { key, value } => match Key::lookup(key) {
            Some(known) => {
                let lexed = lexed_for(known, value);
                let outcome = draft.set(known, value, lexed, field_name);
                assert(draft_outcome(outcome) == apply_argument(
                    draft@,
                    argument@,
                    lexed,
                    field_name@,
                ));
                outcome
            },
            None => {
                let outcome = Err(
                    AttrError::UnknownKey { field: field_name.clone(), key: key.clone() },
                );
                assert(draft_outcome(outcome) == apply_argument(
                    draft@,
                    argument@,
                    None,
                    field_name@,
                ));
                outcome
            },
        },
        _ => {
            let outcome = Err(AttrError::MetaStructureError { field: field_name.clone() });
            assert(draft_outcome(outcome) == apply_argument(draft@, argument@, None, field_name@));
            outcome
        },
    }
}

/// Applies the arguments of a `bttr` directive to the draft, in order.
fn set_arguments(draft: Draft, arguments: &Vec<Argument>, field_name: &String) -> (outcome:
    Result<Draft, AttrError>)
    ensures
        exists|lexed: Lexed|
            draft_outcome(outcome) == #[trigger] apply_arguments(
                draft@,
                argument_views(arguments@),
                lexed,
                field_name@,
                arguments@.len(),
            ),
{
    let ghost start = draft@;
    let ghost views = argument_views(arguments@);
    let ghost mut lexed: Lexed = Seq::empty();
    let mut current = draft;
    let mut j: usize = 0;
    while j < arguments.len()
        invariant
            j <= arguments@.len(),
            start == draft@,
            views == argument_views(arguments@),
            lexed.len() == j,
            Ok::<DraftView, AttrErrorView>(current@) == apply_arguments(
                start,
                views,
                lexed,
                field_name@,
                j as nat,
            ),
        decreases arguments@.len() - j,
    {
        let ghost before = current@;
        let ghost earlier = lexed;
        let outcome = set_argument(current, &arguments[j], field_name);
        proof {
            assert(views[j as int] == arguments@[j as int]@);
            let answer = choose|answer: Option<proc_macro2::TokenStream>|
                draft_outcome(outcome) == #[trigger] apply_argument(
                    before,
                    views[j as int],
                    answer,
                    field_name@,
                );
            lexed = earlier.push(answer);
            lemma_arguments_read_answers_asked_for(
                start,
                views,
                earlier,
                lexed,
                field_name@,
                j as nat,
            );
            assert(draft_outcome(outcome) == apply_arguments(
                start,
                views,
                lexed,
                field_name@,
                (j + 1) as nat,
            ));
        }
        match outcome {
            Ok(next) => {
                current = next;
            },
            Err(error) => {
                proof {
                    lemma_argument_error_stays(
                        start,
                        views,
                        lexed,
                        field_name@,
                        (j + 1) as nat,
                        arguments@.len(),
                    );
                    assert(Err::<DraftView, AttrErrorView>(error@) == apply_arguments(
                        start,
                        views,
                        lexed,
                        field_name@,
                        arguments@.len(),
                    ));
                }
                return Err(error);
            },
        }
        j = j + 1;
    }
    Ok(current)
}

/// Second reading of one annotation: applies it to the draft if it is a
/// `bttr` directive, and passes it over if not.
fn set_directive(draft: Draft, annotation: &Annotation, field_name: &String) -> (outcome:
    Result<Draft, AttrError>)
    ensures
        exists|lexed: Lexed|
            draft_outcome(outcome) == #[trigger] apply_directive(
                draft@,
                annotation@,
                lexed,
                field_name@,
            ),
{
    if !is_word(&annotation.namespace, "bttr") {
        assert(draft_outcome(Ok(draft)) == apply_directive(
            draft@,
            annotation@,
            Seq::empty(),
            field_name@,
        ));
        return Ok(draft);
    }
    match &annotation.body {
        Body::List(arguments) => {
            let outcome = set_arguments(draft, arguments, field_name);
            proof {
                let lexed = choose|lexed: Lexed|
                    draft_outcome(outcome) == #[trigger] apply_arguments(
                        draft@,
                        argument_views(arguments@),
                        lexed,
                        field_name@,
                        arguments@.len(),
                    );
                assert(draft_outcome(outcome) == apply_directive(
                    draft@,
                    annotation@,
                    lexed,
                    field_name@,
                ));
            }
            outcome
        },
        _ => {
            let outcome = Err(AttrError::MetaStructureError { field: field_name.clone() });
            assert(draft_outcome(outcome) == apply_directive(
                draft@,
                annotation@,
                Seq::empty(),
                field_name@,
            ));
            outcome
        },
    }
}

/// Second reading: applies every `bttr` directive to the draft, in order.
fn set_directives(draft: Draft, annotations: &[Annotation], field_name: &String) -> (outcome:
    Result<Draft, AttrError>)
    ensures
        exists|lexed: Seq<Lexed>|
            draft_outcome(outcome) == #[trigger] apply_directives(
                draft@,
                annotation_views(annotations@),
                lexed,
                field_name@,
                annotations@.len(),
            ),
{
    let ghost start = draft@;
    let ghost views = annotation_views(annotations@);
    let ghost mut lexed: Seq<Lexed> = Seq::empty();
    let mut current = draft;
    let mut i: usize = 0;
    while i < annotations.len()
        invariant
            i <= annotations@.len(),
            start == draft@,
            views == annotation_views(annotations@),
            lexed.len() == i,
            Ok::<DraftView, AttrErrorView>(current@) == apply_directives(
                start,
                views,
                lexed,
                field_name@,
                i as nat,
            ),
        decreases annotations@.len() - i,
    {
        let ghost before = current@;
        let ghost earlier = lexed;
        let outcome = set_directive(current, &annotations[i], field_name);
        proof {
            assert(views[i as int] == annotations@[i as int]@);
            let row = choose|row: Lexed|
                draft_outcome(outcome) == #[trigger] apply_directive(
                    before,
                    views[i as int],
                    row,
                    field_name@,
                );
            lexed = earlier.push(row);
            assert forall|k: int| 0 <= k < i implies same_answers(
                #[trigger] views[k],
                earlier[k],
                lexed[k],
            ) by {
                assert(earlier[k] == lexed[k]);
            }
            lemma_directives_read_answers_asked_for(
                start,
                views,
                earlier,
                lexed,
                field_name@,
                i as nat,
            );
            assert(draft_outcome(outcome) == apply_directives(
                start,
                views,
                lexed,
                field_name@,
                (i + 1) as nat,
            ));
        }
        match outcome {
            Ok(next) => {
                current = next;
            },
            Err(error) => {
                proof {
                    lemma_directive_error_stays(
                        start,
                        views,
                        lexed,
                        field_name@,
                        (i + 1) as nat,
                        annotations@.len(),
                    );
                    assert(Err::<DraftView, AttrErrorView>(error@) == apply_directives(
                        start,
                        views,
                        lexed,
                        field_name@,
                        annotations@.len(),
                    ));
                }
                return Err(error);
            },
        }
        i = i + 1;
    }
    Ok(current)
}

/// Compiles the annotations of the field called `field_name` into its
/// records.
///
/// The outcome is the one that [`compile`] gives for the answers that the
/// lexer gave. Where no argument gives a string for `depth` or `prefix`
/// the lexer is not asked, and the outcome is the one that [`compile`]
/// gives for any answers.
pub fn parse_attribute(annotations: &[Annotation], field_name: &str) -> (outcome: Result<
    BelowAttr,
    AttrError,
>)
    ensures
        compiles_to(annotation_views(annotations@), field_name@, attr_outcome(outcome)),
        lexer_not_asked(annotation_views(annotations@)) ==> attr_outcome(outcome) == compile(
            annotation_views(annotations@),
            Seq::empty(),
            field_name@,
        ),
        annotations@.len() == 0 ==> attr_outcome(outcome) == Ok::<AttrView, AttrErrorView>(
            AttrView::absent(),
        ),
{
    let ghost views = annotation_views(annotations@);
    let name = field_name.to_owned();
    if annotations.len() == 0 {
        let outcome = Ok(BelowAttr::default());
        assert(attr_outcome(outcome) == compile(views, Seq::empty(), field_name@));
        return outcome;
    }
    let linked = match read_links(Draft::new(), annotations, &name) {
        Ok(linked) => linked,
        Err(error) => {
            let outcome = Err(error);
            assert(attr_outcome(outcome) == compile(views, Seq::empty(), field_name@));
            return outcome;
        },
    };
    let ghost after_links = linked@;
    let settled = set_directives(linked, annotations, &name);
    let outcome = match settled {
        Ok(done) => Ok(done.assemble()),
        Err(error) => Err(error),
    };
    proof {
        let lexed = choose|lexed: Seq<Lexed>|
            draft_outcome(settled) == #[trigger] apply_directives(
                after_links,
                views,
                lexed,
                field_name@,
                annotations@.len(),
            );
        assert(attr_outcome(outcome) == compile(views, lexed, field_name@));
        if lexer_not_asked(views) {
            assert forall|i: int| 0 <= i < views.len() implies same_answers(
                #[trigger] views[i],
                lexed[i],
                Seq::<Lexed>::empty()[i],
            ) by {
                assert(asks_nothing(views[i]));
            }
            lemma_directives_read_answers_asked_for(
                after_links,
                views,
                lexed,
                Seq::empty(),
                field_name@,
                views.len(),
            );
        }
    }
    outcome
}

} // verus!
