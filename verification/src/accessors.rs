//! The expressions that are generated for reading a feature: from the
//! path of a variant, as `Features::Foo` or `crate::generated::Features::Foo`,
//! to a call that asks a registry for the state of that feature.
//!
//! ```text
//! path := `::`? NAME ( `::` NAME )+
//! ```
use crate::features::cased;
use crate::features::default_fn_of;
use crate::features::to_case;
use crate::features::CaseStyle;
use crate::grammar::is_mark;
use crate::grammar::render_range;
use crate::grammar::token_is_mark;
use crate::schema::ParseFault;
use crate::schema::SchemaError;
use crate::schema::SchemaFault;
use crate::text::texts;
use crate::tokens::render;
use crate::tokens::token_models;
use crate::tokens::tokenize;
use crate::tokens::Token;
use crate::tokens::TokenModel;
use crate::verdicts::ask_all;
use crate::verdicts::first_refused;
use crate::verdicts::question_models;
use crate::verdicts::refusal;
use crate::verdicts::Question;
use crate::verdicts::QuestionModel;
use crate::verdicts::TextKind;
use vstd::prelude::*;
use vstd::string::StringExecFns;

verus! {

/// The path of a variant.
pub struct VariantPath {
    /// Whether the path starts at the crate root, with `::`.
    pub global: bool,
    /// The names of the path; the last is the variant, the one before it
    /// the enumeration.
    pub segments: Vec<String>,
}

/// A path with its names as sequences of characters.
pub struct PathSyntax {
    pub global: bool,
    pub segments: Seq<Seq<char>>,
}

impl View for VariantPath {
    type V = PathSyntax;

    open spec fn view(&self) -> PathSyntax {
        PathSyntax { global: self.global, segments: texts(self.segments@) }
    }
}

/// Whether `::` stands at `pos`.
pub open spec fn separator_at(tokens: Seq<TokenModel>, pos: int) -> bool {
    &&& 0 <= pos
    &&& pos + 1 < tokens.len()
    &&& tokens[pos] == TokenModel::Punct(':', true)
    &&& is_mark(tokens[pos + 1], ':')
}

/// The names that follow at `pos`, each after `::`, added to `seen`, and
/// the position after them.
pub open spec fn segments_from(tokens: Seq<TokenModel>, pos: int, seen: Seq<Seq<char>>) -> (
    Seq<Seq<char>>,
    int,
)
    decreases tokens.len() - pos,
{
    if separator_at(tokens, pos) && pos + 2 < tokens.len() && tokens[pos + 2] is Ident {
        segments_from(tokens, pos + 3, seen.push(tokens[pos + 2]->Ident_0))
    } else {
        (seen, pos)
    }
}

/// The path of a variant that starts the tokens, and the position after
/// it. A variant's path names at least the enumeration and the variant.
pub open spec fn parse_path(tokens: Seq<TokenModel>) -> Result<(PathSyntax, int), ParseFault> {
    let global = separator_at(tokens, 0);
    let start: int = if global {
        2
    } else {
        0
    };
    if !(start < tokens.len() && tokens[start] is Ident) {
        Err(ParseFault::ExpectedName)
    } else {
        let (segments, next) = segments_from(tokens, start + 1, seq![tokens[start]->Ident_0]);
        if segments.len() < 2 {
            Err(ParseFault::ExpectedName)
        } else {
            Ok((PathSyntax { global, segments }, next))
        }
    }
}

/// The path of the state record of the enumeration that a variant's path
/// names: the path without the variant, the enumeration's name followed by
/// `State`.
pub open spec fn state_path_of(path: PathSyntax) -> PathSyntax {
    PathSyntax {
        global: path.global,
        segments: path.segments.subrange(0, path.segments.len() - 2).push(
            path.segments[path.segments.len() - 2] + "State"@,
        ),
    }
}

/// The first `upto` names of a path, with `::` between them.
pub open spec fn segments_text(segments: Seq<Seq<char>>, upto: nat) -> Seq<char>
    decreases upto,
{
    if upto == 0 || upto > segments.len() {
        Seq::empty()
    } else if upto == 1 {
        segments[0]
    } else {
        segments_text(segments, (upto - 1) as nat) + "::"@ + segments[upto - 1]
    }
}

/// A path as text.
pub open spec fn path_text(path: PathSyntax) -> Seq<char> {
    (if path.global {
        "::"@
    } else {
        Seq::empty()
    }) + segments_text(path.segments, path.segments.len())
}

/// The call of the function that returns the default of the variant, on
/// the state record at `state`.
pub open spec fn default_call_text(variant: PathSyntax, state: PathSyntax) -> Seq<char> {
    "<"@ + path_text(state) + ">::"@ + default_fn_of(
        cased(variant.segments.last(), CaseStyle::Snake),
    ) + "()"@
}

/// The lookup of the variant in the registry `registry`, with the error
/// where the state cannot be told.
pub open spec fn try_text(variant: PathSyntax, state: PathSyntax, registry: Seq<char>) -> Seq<
    char,
> {
    "::conspiracy::feature_control::try_enabled::<"@ + path_text(state) + ">("@ + registry
        + ", "@ + path_text(variant) + ")"@
}

/// The lookup of the variant, with `fallback` where the state cannot be
/// told.
pub open spec fn or_text(
    variant: PathSyntax,
    state: PathSyntax,
    registry: Seq<char>,
    fallback: Seq<char>,
) -> Seq<char> {
    "::conspiracy::feature_control::enabled_or::<"@ + path_text(state) + ">("@ + registry + ", "@
        + path_text(variant) + ", "@ + fallback + ")"@
}

/// The lookup of the variant, with its default where the state cannot be
/// told.
pub open spec fn or_default_text(variant: PathSyntax, state: PathSyntax, registry: Seq<char>) -> Seq<
    char,
> {
    "match "@ + try_text(variant, state, registry) + " { Ok(state) => state, Err(_) => "@
        + default_call_text(variant, state) + " }"@
}

/// The lookup of the variant that stops the program where the state
/// cannot be told, but for a test build, which takes the default.
pub open spec fn unchecked_text(variant: PathSyntax, state: PathSyntax, registry: Seq<char>) -> Seq<
    char,
> {
    "::conspiracy::feature_control::resolve_unchecked("@ + try_text(variant, state, registry)
        + ", "@ + default_call_text(variant, state)
        + ", cfg!(test)).expect(\"No global tracker found, must be initialized with `set_global_tracker`\")"@
}

/// Whether `::` stands at `pos`.
pub fn separator_starts(tokens: &Vec<Token>, pos: usize) -> (found: bool)
    ensures
        found == separator_at(token_models(tokens@), pos as int),
{
    if pos < tokens.len() && pos + 1 < tokens.len() {
        let joint = match &tokens[pos] {
            Token::Punct(mark, joint) => *mark == ':' && *joint,
            _ => false,
        };
        joint && token_is_mark(&tokens[pos + 1], ':')
    } else {
        false
    }
}

/// The path of a variant that starts the tokens, and the position after
/// it.
pub fn read_path(tokens: &Vec<Token>) -> (parsed: Result<(VariantPath, usize), ParseFault>)
    ensures
        match parse_path(token_models(tokens@)) {
            Ok((path, next)) => parsed matches Ok((found, after)) && found@ == path && after == next
                && after <= tokens.len() && found.segments.len() >= 2,
            Err(fault) => parsed == Err::<(VariantPath, usize), ParseFault>(fault),
        },
{
    let ghost models = token_models(tokens@);
    let global = separator_starts(tokens, 0);
    let start: usize = if global {
        2
    } else {
        0
    };
    if !(start < tokens.len()) {
        return Err(ParseFault::ExpectedName);
    }
    let first = match &tokens[start] {
        Token::Ident(text) => text.clone(),
        _ => {
            return Err(ParseFault::ExpectedName);
        },
    };
    let mut segments: Vec<String> = Vec::new();
    segments.push(first);
    let mut pos: usize = start + 1;
    assert(texts(segments@) =~= seq![models[start as int]->Ident_0]);
    let mut more = true;
    while more
        invariant
            models == token_models(tokens@),
            start < tokens.len(),
            models[start as int] is Ident,
            pos <= tokens.len(),
            segments.len() >= 1,
            segments_from(models, start + 1, seq![models[start as int]->Ident_0]) == segments_from(
                models,
                pos as int,
                texts(segments@),
            ),
            !more ==> segments_from(models, pos as int, texts(segments@)) == (
                texts(segments@),
                pos as int,
            ),
        decreases
                tokens.len() - pos + (if more {
                    1int
                } else {
                    0int
                }),
    {
        if separator_starts(tokens, pos) && pos + 2 < tokens.len() {
            let ghost seen = texts(segments@);
            match &tokens[pos + 2] {
                Token::Ident(text) => {
                    segments.push(text.clone());
                    assert(texts(segments@) =~= seen.push(models[pos + 2]->Ident_0));
                    pos = pos + 3;
                },
                _ => {
                    more = false;
                },
            }
        } else {
            more = false;
        }
    }
    if segments.len() < 2 {
        return Err(ParseFault::ExpectedName);
    }
    Ok((VariantPath { global, segments }, pos))
}

/// The path of the state record of the enumeration that a variant's path
/// names.
pub fn get_associated_state_path(variant_path: &VariantPath) -> (state_path: VariantPath)
    requires
        variant_path.segments.len() >= 2,
    ensures
        state_path@ == state_path_of(variant_path@),
{
    let count = variant_path.segments.len();
    let mut segments: Vec<String> = Vec::new();
    let mut at: usize = 0;
    while at < count - 2
        invariant
            count == variant_path.segments.len(),
            count >= 2,
            at <= count - 2,
            segments.len() == at,
            forall|i: int| 0 <= i < at ==> #[trigger] segments[i]@ == variant_path.segments[i]@,
        decreases count - at,
    {
        segments.push(variant_path.segments[at].clone());
        at += 1;
    }
    segments.push(variant_path.segments[count - 2].clone().concat("State"));
    let state_path = VariantPath { global: variant_path.global, segments };
    assert(state_path@.segments =~= state_path_of(variant_path@).segments);
    state_path
}

/// Append a path as text.
pub fn write_path(path: &VariantPath, out: &mut String)
    ensures
        final(out)@ == old(out)@ + path_text(path@),
{
    if path.global {
        out.append("::");
    }
    let ghost start = out@;
    let mut at: usize = 0;
    assert(out@ =~= start + segments_text(texts(path.segments@), 0));
    while at < path.segments.len()
        invariant
            at <= path.segments.len(),
            out@ == start + segments_text(texts(path.segments@), at as nat),
        decreases path.segments.len() - at,
    {
        if at > 0 {
            out.append("::");
        }
        out.append(path.segments[at].as_str());
        assert(out@ =~= start + segments_text(texts(path.segments@), (at + 1) as nat));
        at += 1;
    }
    assert(out@ =~= old(out)@ + path_text(path@));
}

/// Append the call of the function that returns the default of the
/// variant, on the state record at `feature_state`.
pub fn generate_call_field_default_fn(variant: &VariantPath, feature_state: &VariantPath, out: &mut String)
    requires
        variant.segments.len() > 0,
    ensures
        final(out)@ == old(out)@ + default_call_text(variant@, feature_state@),
{
    out.append("<");
    write_path(feature_state, out);
    out.append(">::");
    out.append("default_");
    let last = &variant.segments[variant.segments.len() - 1];
    let field = to_case(last.as_str(), CaseStyle::Snake);
    out.append(field.as_str());
    out.append("()");
    assert(texts(variant.segments@).last() == last@);
    assert(out@ =~= old(out)@ + default_call_text(variant@, feature_state@));
}

/// Append the lookup of the variant with the error where the state cannot
/// be told.
pub fn write_try(variant: &VariantPath, feature_state: &VariantPath, registry: &str, out: &mut String)
    ensures
        final(out)@ == old(out)@ + try_text(variant@, feature_state@, registry@),
{
    out.append("::conspiracy::feature_control::try_enabled::<");
    write_path(feature_state, out);
    out.append(">(");
    out.append(registry);
    out.append(", ");
    write_path(variant, out);
    out.append(")");
    assert(out@ =~= old(out)@ + try_text(variant@, feature_state@, registry@));
}

/// Append the lookup of the variant with its default where the state
/// cannot be told.
pub fn feature_enable_or_default_inner(
    variant: &VariantPath,
    feature_state: &VariantPath,
    registry: &str,
    out: &mut String,
)
    requires
        variant.segments.len() > 0,
    ensures
        final(out)@ == old(out)@ + or_default_text(variant@, feature_state@, registry@),
{
    out.append("match ");
    write_try(variant, feature_state, registry, out);
    out.append(" { Ok(state) => state, Err(_) => ");
    generate_call_field_default_fn(variant, feature_state, out);
    out.append(" }");
    assert(out@ =~= old(out)@ + or_default_text(variant@, feature_state@, registry@));
}

/// Append the lookup of the variant that stops the program where the
/// state cannot be told, but for a test build.
pub fn use_default_in_cfg_test(
    variant: &VariantPath,
    feature_state: &VariantPath,
    registry: &str,
    out: &mut String,
)
    requires
        variant.segments.len() > 0,
    ensures
        final(out)@ == old(out)@ + unchecked_text(variant@, feature_state@, registry@),
{
    out.append("::conspiracy::feature_control::resolve_unchecked(");
    write_try(variant, feature_state, registry, out);
    out.append(", ");
    generate_call_field_default_fn(variant, feature_state, out);
    out.append(
        ", cfg!(test)).expect(\"No global tracker found, must be initialized with `set_global_tracker`\")",
    );
    assert(out@ =~= old(out)@ + unchecked_text(variant@, feature_state@, registry@));
}

/// The four ways to read a feature.
#[derive(Clone, Copy, Debug, PartialEq, Eq, Structural)]
pub enum Accessor {
    /// Stop the program where the state cannot be told; a test build
    /// takes the default.
    Enabled,
    /// Take the value given where the state cannot be told.
    EnabledOr,
    /// Take the default where the state cannot be told.
    EnabledOrDefault,
    /// Return the error where the state cannot be told.
    TryEnabled,
}

/// What is generated for an accessor, said over the tokens of what it is
/// applied to: a variant's path, for `EnabledOr` followed by a comma and
/// the value to fall back on.
pub open spec fn accessor_text(accessor: Accessor, tokens: Seq<TokenModel>, registry: Seq<char>) -> Result<
    Seq<char>,
    ParseFault,
> {
    match parse_path(tokens) {
        Err(fault) => Err(fault),
        Ok((path, next)) => match accessor {
            Accessor::EnabledOr => if !(next < tokens.len() && is_mark(tokens[next], ',')) {
                Err(ParseFault::ExpectedComma)
            } else if next + 1 >= tokens.len() {
                Err(ParseFault::ExpectedDefault)
            } else {
                Ok(
                    or_text(
                        path,
                        state_path_of(path),
                        registry,
                        render(tokens.subrange(next + 1, tokens.len() as int)),
                    ),
                )
            },
            _ => if next != tokens.len() {
                Err(ParseFault::TrailingTokens)
            } else {
                Ok(
                    match accessor {
                        Accessor::Enabled => unchecked_text(path, state_path_of(path), registry),
                        Accessor::EnabledOrDefault => or_default_text(
                            path,
                            state_path_of(path),
                            registry,
                        ),
                        _ => try_text(path, state_path_of(path), registry),
                    },
                )
            },
        },
    }
}

/// What is asked of syn for an accessor: whether the path is a path, and
/// for `EnabledOr` whether the value to fall back on is an expression.
/// Nothing is asked where the tokens leave the grammar.
pub open spec fn accessor_questions(accessor: Accessor, tokens: Seq<TokenModel>) -> Seq<
    QuestionModel,
> {
    match parse_path(tokens) {
        Err(_) => Seq::empty(),
        Ok((path, next)) => {
            let asked = seq![QuestionModel { kind: TextKind::Path, text: path_text(path) }];
            if accessor == Accessor::EnabledOr && 0 <= next && next + 1 < tokens.len() {
                asked.push(
                    QuestionModel {
                        kind: TextKind::Expression,
                        text: render(tokens.subrange(next + 1, tokens.len() as int)),
                    },
                )
            } else {
                asked
            }
        },
    }
}

/// What expanding an accessor gives for given verdicts of syn: the fault
/// of the grammar where there is one, else the fault of the first text
/// that syn refuses, else the expression.
pub open spec fn accessor_result(
    accessor: Accessor,
    tokens: Seq<TokenModel>,
    registry: Seq<char>,
    verdicts: Seq<bool>,
    outcome: Result<String, SchemaError>,
) -> bool {
    match accessor_text(accessor, tokens, registry) {
        Err(fault) => outcome matches Err(e) && e@ == SchemaFault::Parse(fault),
        Ok(text) => match refusal(accessor_questions(accessor, tokens), verdicts) {
            Some(fault) => outcome matches Err(e) && e@ == SchemaFault::Parse(fault),
            None => outcome matches Ok(found) && found@ == text,
        },
    }
}

/// What expanding an accessor gives, whatever syn says: the result for
/// some verdicts, one for each question.
pub open spec fn accessor_outcome(
    accessor: Accessor,
    tokens: Seq<TokenModel>,
    registry: Seq<char>,
    outcome: Result<String, SchemaError>,
) -> bool {
    exists|verdicts: Seq<bool>|
        verdicts.len() == accessor_questions(accessor, tokens).len() && #[trigger] accessor_result(
            accessor,
            tokens,
            registry,
            verdicts,
            outcome,
        )
}

/// The expression that the grammar gives for an accessor applied to
/// `tokens`, before syn is asked.
pub fn expand_parsed(accessor: Accessor, tokens: &Vec<Token>, registry: &str) -> (outcome: Result<
    String,
    ParseFault,
>)
    ensures
        match accessor_text(accessor, token_models(tokens@), registry@) {
            Ok(text) => outcome matches Ok(found) && found@ == text,
            Err(fault) => outcome == Err::<String, ParseFault>(fault),
        },
{
    let (variant, next) = match read_path(tokens) {
        Ok(found) => found,
        Err(fault) => {
            return Err(fault);
        },
    };
    let feature_state = get_associated_state_path(&variant);
    let mut out = String::new();
    match accessor {
        Accessor::EnabledOr => {
            if !(next < tokens.len() && token_is_mark(&tokens[next], ',')) {
                return Err(ParseFault::ExpectedComma);
            }
            if next + 1 >= tokens.len() {
                return Err(ParseFault::ExpectedDefault);
            }
            let fallback = render_range(tokens, next + 1, tokens.len());
            out.append("::conspiracy::feature_control::enabled_or::<");
            write_path(&feature_state, &mut out);
            out.append(">(");
            out.append(registry);
            out.append(", ");
            write_path(&variant, &mut out);
            out.append(", ");
            out.append(fallback.as_str());
            out.append(")");
            assert(out@ =~= or_text(variant@, feature_state@, registry@, fallback@));
        },
        Accessor::Enabled => {
            if next != tokens.len() {
                return Err(ParseFault::TrailingTokens);
            }
            use_default_in_cfg_test(&variant, &feature_state, registry, &mut out);
            assert(out@ =~= unchecked_text(variant@, feature_state@, registry@));
        },
        Accessor::EnabledOrDefault => {
            if next != tokens.len() {
                return Err(ParseFault::TrailingTokens);
            }
            feature_enable_or_default_inner(&variant, &feature_state, registry, &mut out);
            assert(out@ =~= or_default_text(variant@, feature_state@, registry@));
        },
        Accessor::TryEnabled => {
            if next != tokens.len() {
                return Err(ParseFault::TrailingTokens);
            }
            write_try(&variant, &feature_state, registry, &mut out);
            assert(out@ =~= try_text(variant@, feature_state@, registry@));
        },
    }
    Ok(out)
}

/// What is asked of syn for an accessor applied to `tokens`.
pub fn questions_of_accessor(accessor: Accessor, tokens: &Vec<Token>) -> (questions: Vec<Question>)
    ensures
        question_models(questions@) == accessor_questions(accessor, token_models(tokens@)),
{
    let mut questions: Vec<Question> = Vec::new();
    match read_path(tokens) {
        Err(_) => {
            assert(question_models(questions@) =~= Seq::<QuestionModel>::empty());
        },
        Ok((variant, next)) => {
            let mut text = String::new();
            write_path(&variant, &mut text);
            assert(text@ =~= path_text(variant@));
            questions.push(Question { kind: TextKind::Path, text });
            let is_or = match accessor {
                Accessor::EnabledOr => true,
                _ => false,
            };
            if is_or && next < tokens.len() && next + 1 < tokens.len() {
                let fallback = render_range(tokens, next + 1, tokens.len());
                questions.push(Question { kind: TextKind::Expression, text: fallback });
            }
            assert(question_models(questions@) =~= accessor_questions(
                accessor,
                token_models(tokens@),
            ));
        },
    }
    questions
}

/// The expression for an accessor applied to `tokens`, given syn's
/// verdicts on the questions of [`questions_of_accessor`].
pub fn expand_asked(accessor: Accessor, tokens: &Vec<Token>, registry: &str, verdicts: &Vec<bool>) -> (outcome:
    Result<String, SchemaError>)
    ensures
        accessor_result(accessor, token_models(tokens@), registry@, verdicts@, outcome),
{
    let text = match expand_parsed(accessor, tokens, registry) {
        Ok(text) => text,
        Err(fault) => {
            return Err(SchemaError::Parse(fault));
        },
    };
    let questions = questions_of_accessor(accessor, tokens);
    match first_refused(&questions, verdicts) {
        Some(fault) => Err(SchemaError::Parse(fault)),
        None => Ok(text),
    }
}

/// The expression that is generated for an accessor applied to `tokens`,
/// reading from the registry that the expression `registry` gives. syn is
/// asked whether the path is a path and the value to fall back on an
/// expression.
pub fn expand_accessor(accessor: Accessor, tokens: &Vec<Token>, registry: &str) -> (outcome: Result<
    String,
    SchemaError,
>)
    ensures
        accessor_outcome(accessor, token_models(tokens@), registry@, outcome),
{
    let questions = questions_of_accessor(accessor, tokens);
    let verdicts = ask_all(&questions);
    let outcome = expand_asked(accessor, tokens, registry, &verdicts);
    assert(accessor_result(accessor, token_models(tokens@), registry@, verdicts@, outcome));
    outcome
}

/// The expression for an accessor applied to the text `item`: the text is
/// lexed, and the accessor expanded on the tokens that came back.
pub fn expand(accessor: Accessor, item: &str, registry: &str) -> (outcome: Result<String, SchemaError>)
    ensures
        (outcome matches Err(e) && e@ == SchemaFault::Parse(ParseFault::NotTokens))
            || exists|tokens: Seq<TokenModel>| #[trigger]
            accessor_outcome(accessor, tokens, registry@, outcome),
{
    match tokenize(item) {
        Some(tokens) => {
            let outcome = expand_accessor(accessor, &tokens, registry);
            assert(accessor_outcome(accessor, token_models(tokens@), registry@, outcome));
            outcome
        },
        None => Err(SchemaError::Parse(ParseFault::NotTokens)),
    }
}

} // verus!
