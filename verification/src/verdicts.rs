//! What syn says of the texts of a declaration.
//!
//! The grammars read the structure of a declaration. Whether a name is an
//! identifier, whether a field's type is a type, whether an attribute, a
//! visibility, a path or an expression is one, is for syn to say. What is
//! to be asked is fixed here, as a list of questions in the order of the
//! declaration. syn's verdicts come back as a list of booleans, and what
//! follows from them is decided here again, for every list of verdicts.
use crate::schema::FieldKind;
use crate::schema::ParseFault;
use crate::schema::SchemaNode;
use crate::text::texts;
use vstd::prelude::*;

verus! {

/// What a text is meant to be.
#[derive(Clone, Copy, Debug, PartialEq, Eq, Structural)]
pub enum TextKind {
    /// The name of a type, a field or a feature.
    Name,
    /// The type of a field.
    Type,
    /// A visibility.
    Visibility,
    /// An attribute, with `#` and its brackets.
    Attribute,
    /// The path of a variant.
    Path,
    /// An expression.
    Expression,
}

/// A text with what it is meant to be.
pub struct Question {
    pub kind: TextKind,
    pub text: String,
}

/// A question with its text as a sequence of characters.
pub struct QuestionModel {
    pub kind: TextKind,
    pub text: Seq<char>,
}

impl View for Question {
    type V = QuestionModel;

    open spec fn view(&self) -> QuestionModel {
        QuestionModel { kind: self.kind, text: self.text@ }
    }
}

/// The views of a sequence of questions.
pub open spec fn question_models(questions: Seq<Question>) -> Seq<QuestionModel> {
    Seq::new(questions.len(), |i: int| questions[i]@)
}

/// `syn::parse_str` for `syn::Ident`: whether syn takes the whole text as
/// one identifier that is no keyword. The text is lexed anew on the way,
/// by the lexer that the process has at that moment: nothing is claimed of
/// the verdict.
#[verifier::external_body]
fn parses_as_ident(text: &str) -> bool {
    syn::parse_str::<syn::Ident>(text).is_ok()
}

/// `syn::parse_str` for `syn::Type`: whether syn takes the whole text as
/// one type. Nothing is claimed of the verdict.
#[verifier::external_body]
fn parses_as_type(text: &str) -> bool {
    syn::parse_str::<syn::Type>(text).is_ok()
}

/// `syn::parse_str` for `syn::Visibility`: whether syn takes the whole
/// text as one visibility. Nothing is claimed of the verdict.
#[verifier::external_body]
fn parses_as_visibility(text: &str) -> bool {
    syn::parse_str::<syn::Visibility>(text).is_ok()
}

/// `syn::Attribute::parse_outer`, run on the text by `Parser::parse_str`:
/// whether syn takes the whole text as outer attributes. Nothing is
/// claimed of the verdict.
#[verifier::external_body]
fn parses_as_attribute(text: &str) -> bool {
    syn::parse::Parser::parse_str(syn::Attribute::parse_outer, text).is_ok()
}

/// `syn::parse_str` for `syn::Path`: whether syn takes the whole text as
/// one path. Nothing is claimed of the verdict.
#[verifier::external_body]
fn parses_as_path(text: &str) -> bool {
    syn::parse_str::<syn::Path>(text).is_ok()
}

/// `syn::parse_str` for `syn::Expr`: whether syn takes the whole text as
/// one expression. Nothing is claimed of the verdict.
#[verifier::external_body]
fn parses_as_expression(text: &str) -> bool {
    syn::parse_str::<syn::Expr>(text).is_ok()
}

/// The fault that a refused text of a kind stands for.
pub open spec fn fault_of(kind: TextKind) -> ParseFault {
    match kind {
        TextKind::Name => ParseFault::InvalidName,
        TextKind::Type => ParseFault::InvalidType,
        TextKind::Visibility => ParseFault::InvalidVisibility,
        TextKind::Attribute => ParseFault::InvalidAttribute,
        TextKind::Path => ParseFault::InvalidPath,
        TextKind::Expression => ParseFault::InvalidExpression,
    }
}

/// Whether the question at `index` is refused: whether its verdict is
/// `false`, or missing.
pub open spec fn refused_at(verdicts: Seq<bool>, index: int) -> bool {
    index >= verdicts.len() || !verdicts[index]
}

/// Whether `index` is the first question that is refused.
pub open spec fn first_refused_at(questions: Seq<QuestionModel>, verdicts: Seq<bool>, index: int) -> bool {
    &&& 0 <= index < questions.len()
    &&& refused_at(verdicts, index)
    &&& forall|before: int| 0 <= before < index ==> !#[trigger] refused_at(verdicts, before)
}

/// What the verdicts mean for the declaration: the fault of the first
/// question that is refused, or none where every question is accepted.
pub open spec fn refusal(questions: Seq<QuestionModel>, verdicts: Seq<bool>) -> Option<ParseFault> {
    if exists|index: int| first_refused_at(questions, verdicts, index) {
        Some(
            fault_of(
                questions[choose|index: int| first_refused_at(questions, verdicts, index)].kind,
            ),
        )
    } else {
        None
    }
}

/// There is at most one first refused question, and none exactly where
/// every question is accepted.
pub proof fn lemma_refusal(questions: Seq<QuestionModel>, verdicts: Seq<bool>)
    ensures
        forall|index: int|
            first_refused_at(questions, verdicts, index) ==> refusal(questions, verdicts) == Some(
                fault_of(questions[index].kind),
            ),
        refusal(questions, verdicts) is None <==> (forall|index: int|
            0 <= index < questions.len() ==> !#[trigger] refused_at(verdicts, index)),
{
    assert forall|index: int| first_refused_at(questions, verdicts, index) implies refusal(
        questions,
        verdicts,
    ) == Some(fault_of(questions[index].kind)) by {
        let chosen = choose|other: int| first_refused_at(questions, verdicts, other);
        if chosen < index {
            assert(refused_at(verdicts, chosen));
        } else if index < chosen {
            assert(refused_at(verdicts, index));
        }
    }
    if exists|index: int| 0 <= index < questions.len() && refused_at(verdicts, index) {
        lemma_some_first_refused(questions, verdicts, questions.len() as int);
    }
}

/// Where a question before `upto` is refused, a first such question
/// exists.
proof fn lemma_some_first_refused(questions: Seq<QuestionModel>, verdicts: Seq<bool>, upto: int)
    requires
        0 <= upto <= questions.len(),
        exists|index: int| 0 <= index < upto && refused_at(verdicts, index),
    ensures
        exists|index: int| first_refused_at(questions, verdicts, index),
    decreases upto,
{
    if exists|index: int| 0 <= index < upto - 1 && refused_at(verdicts, index) {
        lemma_some_first_refused(questions, verdicts, upto - 1);
    } else {
        assert(refused_at(verdicts, upto - 1));
        assert(first_refused_at(questions, verdicts, upto - 1));
    }
}

/// The fault of a refused text of a kind.
pub fn fault_for(kind: TextKind) -> (fault: ParseFault)
    ensures
        fault == fault_of(kind),
{
    match kind {
        TextKind::Name => ParseFault::InvalidName,
        TextKind::Type => ParseFault::InvalidType,
        TextKind::Visibility => ParseFault::InvalidVisibility,
        TextKind::Attribute => ParseFault::InvalidAttribute,
        TextKind::Path => ParseFault::InvalidPath,
        TextKind::Expression => ParseFault::InvalidExpression,
    }
}

/// What follows from syn's verdicts on the questions: the fault of the
/// first question that is refused, where a question without a verdict
/// counts as refused; nothing where every question is accepted.
pub fn first_refused(questions: &Vec<Question>, verdicts: &Vec<bool>) -> (fault: Option<ParseFault>)
    ensures
        fault == refusal(question_models(questions@), verdicts@),
        fault is None <==> (verdicts.len() >= questions.len() && forall|i: int|
            0 <= i < questions.len() ==> verdicts[i]),
{
    let ghost models = question_models(questions@);
    proof {
        lemma_refusal(models, verdicts@);
    }
    let mut at: usize = 0;
    while at < questions.len()
        invariant
            at <= questions.len(),
            models == question_models(questions@),
            forall|before: int| 0 <= before < at ==> !#[trigger] refused_at(verdicts@, before),
        decreases questions.len() - at,
    {
        if at >= verdicts.len() || !verdicts[at] {
            proof {
                assert(first_refused_at(models, verdicts@, at as int));
                lemma_refusal(models, verdicts@);
            }
            return Some(fault_for(questions[at].kind));
        }
        at += 1;
    }
    proof {
        lemma_refusal(models, verdicts@);
        assert forall|i: int| 0 <= i < questions.len() implies verdicts[i] by {
            assert(!refused_at(verdicts@, i));
        }
        if questions.len() > 0 {
            assert(!refused_at(verdicts@, questions.len() - 1));
        }
    }
    None
}

/// Ask syn one question. The verdict is syn's; nothing follows from the
/// question alone.
pub fn ask(question: &Question) -> bool {
    match question.kind {
        TextKind::Name => parses_as_ident(question.text.as_str()),
        TextKind::Type => parses_as_type(question.text.as_str()),
        TextKind::Visibility => parses_as_visibility(question.text.as_str()),
        TextKind::Attribute => parses_as_attribute(question.text.as_str()),
        TextKind::Path => parses_as_path(question.text.as_str()),
        TextKind::Expression => parses_as_expression(question.text.as_str()),
    }
}

/// Ask syn each of the questions, in order: one verdict for each.
pub fn ask_all(questions: &Vec<Question>) -> (verdicts: Vec<bool>)
    ensures
        verdicts.len() == questions.len(),
{
    let mut verdicts: Vec<bool> = Vec::new();
    let mut at: usize = 0;
    while at < questions.len()
        invariant
            at <= questions.len(),
            verdicts.len() == at,
        decreases questions.len() - at,
    {
        verdicts.push(ask(&questions[at]));
        at += 1;
    }
    verdicts
}

/// The questions on a run of annotations: whether each is an attribute.
pub open spec fn annotation_questions(annotations: Seq<Seq<char>>) -> Seq<QuestionModel> {
    Seq::new(
        annotations.len(),
        |i: int| QuestionModel { kind: TextKind::Attribute, text: annotations[i] },
    )
}

/// The question on a visibility, where one is written.
pub open spec fn visibility_questions(visibility: Seq<char>) -> Seq<QuestionModel> {
    if visibility.len() == 0 {
        Seq::empty()
    } else {
        seq![QuestionModel { kind: TextKind::Visibility, text: visibility }]
    }
}

/// The questions on what is written before a name, and on the name.
pub open spec fn heading_questions(
    annotations: Seq<Seq<char>>,
    visibility: Seq<char>,
    name: Seq<char>,
) -> Seq<QuestionModel> {
    annotation_questions(annotations) + visibility_questions(visibility) + seq![
        QuestionModel { kind: TextKind::Name, text: name },
    ]
}

/// The questions on a node, in the order of its declaration: its
/// attributes, its visibility, its name, then its fields.
pub open spec fn node_questions(node: SchemaNode) -> Seq<QuestionModel>
    decreases node, node.fields.len() + 1,
{
    heading_questions(texts(node.annotations@), node.visibility@, node.ident@) + field_questions(
        node,
        node.fields.len() as nat,
    )
}

/// The questions on the first `upto` fields of a node: for each its
/// attributes, its visibility and its name, then its type, or the questions
/// on the node that it holds.
pub open spec fn field_questions(node: SchemaNode, upto: nat) -> Seq<QuestionModel>
    decreases node, upto,
{
    if upto == 0 || upto > node.fields.len() {
        Seq::empty()
    } else {
        let field = node.fields[upto - 1];
        field_questions(node, (upto - 1) as nat) + heading_questions(
            texts(field.annotations@),
            field.visibility@,
            field.name@,
        ) + (match field.kind {
            FieldKind::Leaf(ty) => seq![QuestionModel { kind: TextKind::Type, text: ty@ }],
            FieldKind::Nested(child) => node_questions(child),
        })
    }
}

/// Append the questions on what is written before a name, and on the
/// name.
pub fn heading(annotations: &Vec<String>, visibility: &String, name: &String, out: &mut Vec<Question>)
    ensures
        question_models(final(out)@) == question_models(old(out)@) + heading_questions(
            texts(annotations@),
            visibility@,
            name@,
        ),
{
    let ghost start = question_models(out@);
    let mut at: usize = 0;
    while at < annotations.len()
        invariant
            at <= annotations.len(),
            question_models(out@) == start + annotation_questions(texts(annotations@)).subrange(
                0,
                at as int,
            ),
        decreases annotations.len() - at,
    {
        let ghost before = question_models(out@);
        out.push(Question { kind: TextKind::Attribute, text: annotations[at].clone() });
        assert(question_models(out@) =~= before.push(
            QuestionModel { kind: TextKind::Attribute, text: annotations[at as int]@ },
        ));
        assert(question_models(out@) =~= start + annotation_questions(
            texts(annotations@),
        ).subrange(0, at + 1));
        at += 1;
    }
    assert(annotation_questions(texts(annotations@)).subrange(0, at as int)
        =~= annotation_questions(texts(annotations@)));
    let ghost middle = question_models(out@);
    if visibility.as_str().unicode_len() > 0 {
        out.push(Question { kind: TextKind::Visibility, text: visibility.clone() });
        assert(question_models(out@) =~= middle + visibility_questions(visibility@));
    } else {
        assert(question_models(out@) =~= middle + visibility_questions(visibility@));
    }
    let ghost later = question_models(out@);
    out.push(Question { kind: TextKind::Name, text: name.clone() });
    assert(question_models(out@) =~= later.push(
        QuestionModel { kind: TextKind::Name, text: name@ },
    ));
    assert(question_models(out@) =~= start + heading_questions(
        texts(annotations@),
        visibility@,
        name@,
    ));
}

/// Append the questions on a node.
pub fn question_node(node: &SchemaNode, out: &mut Vec<Question>)
    ensures
        question_models(final(out)@) == question_models(old(out)@) + node_questions(*node),
    decreases node, node.fields.len() + 1,
{
    heading(&node.annotations, &node.visibility, &node.ident, out);
    let ghost start = question_models(out@);
    let mut at: usize = 0;
    assert(question_models(out@) =~= start + field_questions(*node, 0));
    while at < node.fields.len()
        invariant
            at <= node.fields.len(),
            question_models(out@) == start + field_questions(*node, at as nat),
        decreases node.fields.len() - at,
    {
        let field = &node.fields[at];
        heading(&field.annotations, &field.visibility, &field.name, out);
        let ghost middle = question_models(out@);
        match &field.kind {
            FieldKind::Leaf(ty) => {
                out.push(Question { kind: TextKind::Type, text: ty.clone() });
                assert(question_models(out@) =~= middle.push(
                    QuestionModel { kind: TextKind::Type, text: ty@ },
                ));
            },
            FieldKind::Nested(child) => {
                question_node(child, out);
            },
        }
        assert(question_models(out@) =~= start + field_questions(*node, (at + 1) as nat));
        at += 1;
    }
    assert(question_models(out@) =~= question_models(old(out)@) + node_questions(*node));
}

/// The questions on a node.
pub fn questions_of(node: &SchemaNode) -> (questions: Vec<Question>)
    ensures
        question_models(questions@) == node_questions(*node),
{
    let mut questions: Vec<Question> = Vec::new();
    assert(question_models(questions@) =~= Seq::<QuestionModel>::empty());
    question_node(node, &mut questions);
    assert(question_models(questions@) =~= node_questions(*node));
    questions
}

} // verus!
