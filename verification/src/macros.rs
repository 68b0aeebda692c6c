//! The compilers from end to end: from the text of a declaration to the
//! text of what is generated for it.
//!
//! Two things on the way are not decided here: the lexer of the process
//! turns the text into tokens, and syn says whether a name, a type, an
//! attribute or a visibility is one. Each function that follows such a
//! step takes its result as an argument and says exactly what it makes of
//! it. The functions that take the text say what holds whatever the two
//! answered.
use crate::accessors::accessor_outcome;
use crate::accessors::expand;
use crate::accessors::Accessor;
use crate::compiler::compile;
use crate::emit::config_text;
use crate::emit::generate;
use crate::emit_features::features_text;
use crate::emit_features::generate_features;
use crate::feature_grammar::parse_feature_schema;
use crate::feature_grammar::parse_features;
use crate::features::compile_features;
use crate::features::decl_models;
use crate::features::FeatureSchema;
use crate::features::FeatureSchemaModel;
use crate::features::Features;
use crate::grammar::parse_config;
use crate::grammar::parse_declaration;
use crate::schema::ParseFault;
use crate::schema::SchemaError;
use crate::schema::SchemaFault;
use crate::schema::SchemaNode;
use crate::tokens::token_models;
use crate::tokens::tokenize;
use crate::tokens::Token;
use crate::tokens::TokenModel;
use crate::verdicts::ask_all;
use crate::verdicts::first_refused;
use crate::verdicts::node_questions;
use crate::verdicts::question_models;
use crate::verdicts::questions_of;
use crate::verdicts::refusal;
use crate::verdicts::visibility_questions;
use crate::verdicts::Question;
use crate::verdicts::QuestionModel;
use crate::verdicts::TextKind;
use vstd::prelude::*;

verus! {

/// What compiling a declared node gives for given verdicts of syn: the
/// fault of the first text that syn refuses, else the first fault of the
/// schema where it is not valid, else the text generated for the node.
pub open spec fn config_result(
    node: SchemaNode,
    verdicts: Seq<bool>,
    outcome: Result<String, SchemaError>,
) -> bool {
    match refusal(node_questions(node), verdicts) {
        Some(fault) => outcome matches Err(e) && e@ == SchemaFault::Parse(fault),
        None => match outcome {
            Ok(text) => node.valid() && text@ == config_text(node),
            Err(e) => node.first_error() == Some(e@),
        },
    }
}

/// What compiling a configuration declaration gives, said over its
/// tokens: the fault of the grammar where there is one, else the result
/// for a node that the tokens declare and some verdicts of syn, one for
/// each question on the node.
pub open spec fn config_outcome(tokens: Seq<TokenModel>, outcome: Result<String, SchemaError>) -> bool {
    match parse_declaration(tokens) {
        Err(fault) => outcome matches Err(e) && e@ == SchemaFault::Parse(fault),
        Ok(model) => exists|node: SchemaNode, verdicts: Seq<bool>|
            {
                &&& node@ == model
                &&& verdicts.len() == node_questions(node).len()
                &&& #[trigger] config_result(node, verdicts, outcome)
            },
    }
}

/// What is asked of syn for a feature schema: whether its visibility is
/// one, and whether the name of the enumeration and the name of each
/// feature is an identifier.
pub open spec fn feature_questions(schema: FeatureSchemaModel) -> Seq<QuestionModel> {
    visibility_questions(schema.visibility) + seq![
        QuestionModel { kind: TextKind::Name, text: schema.name },
    ] + Seq::new(
        schema.features.len(),
        |i: int| QuestionModel { kind: TextKind::Name, text: schema.features[i].name },
    )
}

/// What compiling a feature schema gives for given verdicts of syn: the
/// fault of the first text that syn refuses, else the text generated for
/// the schema.
pub open spec fn features_result(
    schema: FeatureSchemaModel,
    verdicts: Seq<bool>,
    outcome: Result<String, SchemaError>,
) -> bool {
    match refusal(feature_questions(schema), verdicts) {
        Some(fault) => outcome matches Err(e) && e@ == SchemaFault::Parse(fault),
        None => outcome matches Ok(text) && exists|features: Features| #[trigger]
            features.compiled_from_model(schema) && text@ == features_text(features),
    }
}

/// What compiling a feature declaration gives, said over its tokens: the
/// fault of the grammar where there is one, else the result for the
/// schema that the tokens declare and some verdicts of syn, one for each
/// question on the schema.
pub open spec fn features_outcome(tokens: Seq<TokenModel>, outcome: Result<String, SchemaError>) -> bool {
    match parse_features(tokens) {
        Err(fault) => outcome matches Err(e) && e@ == SchemaFault::Parse(fault),
        Ok(schema) => exists|verdicts: Seq<bool>|
            verdicts.len() == feature_questions(schema).len() && #[trigger] features_result(
                schema,
                verdicts,
                outcome,
            ),
    }
}

/// Compile a declared node, given syn's verdicts on the questions of
/// [`questions_of`]. Nothing is generated where syn refuses a text or the
/// schema is not valid.
pub fn compile_asked(node: SchemaNode, verdicts: &Vec<bool>) -> (outcome: Result<String, SchemaError>)
    ensures
        config_result(node, verdicts@, outcome),
{
    let questions = questions_of(&node);
    match first_refused(&questions, verdicts) {
        Some(fault) => {
            return Err(SchemaError::Parse(fault));
        },
        None => {},
    }
    match compile(node) {
        Ok(compiled) => Ok(generate(&compiled.root)),
        Err(e) => Err(e),
    }
}

/// Compile the tokens of a configuration declaration. Nothing is
/// generated for a declaration that leaves the grammar, for one of which
/// syn refuses a text, or for a schema that is not valid.
pub fn compile_config_tokens(tokens: &Vec<Token>) -> (outcome: Result<String, SchemaError>)
    ensures
        config_outcome(token_models(tokens@), outcome),
{
    let node = match parse_config(tokens) {
        Ok(node) => node,
        Err(fault) => {
            return Err(SchemaError::Parse(fault));
        },
    };
    let ghost declared = node;
    let questions = questions_of(&node);
    let verdicts = ask_all(&questions);
    let outcome = compile_asked(node, &verdicts);
    assert(declared@ == parse_declaration(token_models(tokens@))->Ok_0);
    assert(config_result(declared, verdicts@, outcome));
    outcome
}

/// What is asked of syn for a feature schema.
pub fn questions_of_features(schema: &FeatureSchema) -> (questions: Vec<Question>)
    ensures
        question_models(questions@) == feature_questions(schema@),
{
    let mut questions: Vec<Question> = Vec::new();
    if schema.visibility.as_str().unicode_len() > 0 {
        questions.push(Question { kind: TextKind::Visibility, text: schema.visibility.clone() });
    }
    questions.push(Question { kind: TextKind::Name, text: schema.name.clone() });
    let ghost start = question_models(questions@);
    assert(start =~= visibility_questions(schema.visibility@) + seq![
        QuestionModel { kind: TextKind::Name, text: schema.name@ },
    ]);
    let mut at: usize = 0;
    while at < schema.features.len()
        invariant
            at <= schema.features.len(),
            questions.len() == start.len() + at,
            question_models(questions@).subrange(0, start.len() as int) == start,
            forall|i: int|
                0 <= i < at ==> #[trigger] questions[start.len() + i]@ == (QuestionModel {
                    kind: TextKind::Name,
                    text: schema.features[i].name@,
                }),
        decreases schema.features.len() - at,
    {
        let ghost before = question_models(questions@);
        questions.push(Question { kind: TextKind::Name, text: schema.features[at].name.clone() });
        assert(question_models(questions@).subrange(0, start.len() as int) =~= before.subrange(
            0,
            start.len() as int,
        ));
        at += 1;
    }
    proof {
        let found = question_models(questions@);
        let wanted = feature_questions(schema@);
        assert(found.len() == wanted.len());
        assert forall|i: int| 0 <= i < found.len() implies found[i] == wanted[i] by {
            if i < start.len() {
                assert(found.subrange(0, start.len() as int)[i] == found[i]);
            } else {
                assert(questions[start.len() + (i - start.len())]@ == found[i]);
                assert(decl_models(schema.features@)[i - start.len()].name
                    == schema.features[i - start.len()].name@);
            }
        }
        assert(found =~= wanted);
    }
    questions
}

/// Compile a feature schema, given syn's verdicts on the questions of
/// [`questions_of_features`].
pub fn compile_features_asked(schema: &FeatureSchema, verdicts: &Vec<bool>) -> (outcome: Result<
    String,
    SchemaError,
>)
    ensures
        features_result(schema@, verdicts@, outcome),
{
    let questions = questions_of_features(schema);
    match first_refused(&questions, verdicts) {
        Some(fault) => {
            return Err(SchemaError::Parse(fault));
        },
        None => {},
    }
    let features = compile_features(schema);
    let text = generate_features(&features);
    assert(features.compiled_from_model(schema@));
    Ok(text)
}

/// Compile the tokens of a feature declaration.
pub fn compile_feature_tokens(tokens: &Vec<Token>) -> (outcome: Result<String, SchemaError>)
    ensures
        features_outcome(token_models(tokens@), outcome),
{
    let schema = match parse_feature_schema(tokens) {
        Ok(schema) => schema,
        Err(fault) => {
            return Err(SchemaError::Parse(fault));
        },
    };
    let questions = questions_of_features(&schema);
    let verdicts = ask_all(&questions);
    let outcome = compile_features_asked(&schema, &verdicts);
    assert(features_result(schema@, verdicts@, outcome));
    outcome
}

/// Define a configuration as a set of nested structs: from the text of
/// the declaration to the text of the snapshot types, the compact types,
/// the conversions between them, the projections and the restart
/// comparison. The text is lexed, and the tokens that came back are
/// compiled.
pub fn config_struct(item: &str) -> (outcome: Result<String, SchemaError>)
    ensures
        (outcome matches Err(e) && e@ == SchemaFault::Parse(ParseFault::NotTokens))
            || exists|tokens: Seq<TokenModel>| #[trigger] config_outcome(tokens, outcome),
{
    match tokenize(item) {
        Some(tokens) => {
            let outcome = compile_config_tokens(&tokens);
            assert(config_outcome(token_models(tokens@), outcome));
            outcome
        },
        None => Err(SchemaError::Parse(ParseFault::NotTokens)),
    }
}

/// Define the features of an application: from the text of the
/// declaration to the text of the enumeration, the state record with its
/// defaults, the lookup by feature and the builder. The text is lexed, and
/// the tokens that came back are compiled.
pub fn define_features(item: &str) -> (outcome: Result<String, SchemaError>)
    ensures
        (outcome matches Err(e) && e@ == SchemaFault::Parse(ParseFault::NotTokens))
            || exists|tokens: Seq<TokenModel>| #[trigger] features_outcome(tokens, outcome),
{
    match tokenize(item) {
        Some(tokens) => {
            let outcome = compile_feature_tokens(&tokens);
            assert(features_outcome(token_models(tokens@), outcome));
            outcome
        },
        None => Err(SchemaError::Parse(ParseFault::NotTokens)),
    }
}

/// What expanding an accessor on a text gives: the lexer refuses the
/// text, or the outcome is that of the accessor on some tokens.
pub open spec fn expansion(
    accessor: Accessor,
    registry: Seq<char>,
    outcome: Result<String, SchemaError>,
) -> bool {
    (outcome matches Err(e) && e@ == SchemaFault::Parse(ParseFault::NotTokens))
        || exists|tokens: Seq<TokenModel>| #[trigger]
        accessor_outcome(accessor, tokens, registry, outcome)
}

/// The expression that reads the feature whose variant `item` names from
/// the registry that the expression `registry` gives, and stops the
/// program where no tracker is registered; in a test build it takes the
/// feature's default instead.
pub fn feature_enabled(item: &str, registry: &str) -> (outcome: Result<String, SchemaError>)
    ensures
        expansion(Accessor::Enabled, registry@, outcome),
{
    expand(Accessor::Enabled, item, registry)
}

/// The expression that reads a feature and takes the value written after
/// the variant where no tracker is registered.
pub fn feature_enabled_or(item: &str, registry: &str) -> (outcome: Result<String, SchemaError>)
    ensures
        expansion(Accessor::EnabledOr, registry@, outcome),
{
    expand(Accessor::EnabledOr, item, registry)
}

/// The expression that reads a feature and takes its default where no
/// tracker is registered.
pub fn feature_enabled_or_default(item: &str, registry: &str) -> (outcome: Result<
    String,
    SchemaError,
>)
    ensures
        expansion(Accessor::EnabledOrDefault, registry@, outcome),
{
    expand(Accessor::EnabledOrDefault, item, registry)
}

/// The expression that reads a feature and returns an error where no
/// tracker is registered.
pub fn try_feature_enabled(item: &str, registry: &str) -> (outcome: Result<String, SchemaError>)
    ensures
        expansion(Accessor::TryEnabled, registry@, outcome),
{
    expand(Accessor::TryEnabled, item, registry)
}

} // verus!
