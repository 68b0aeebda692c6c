use conspiracy::accessors::expand_asked;
use conspiracy::accessors::expand_parsed;
use conspiracy::accessors::questions_of_accessor;
use conspiracy::accessors::Accessor;
use conspiracy::feature_control::read_gate;
use conspiracy::feature_control::FeatureEnabledError;
use conspiracy::feature_grammar::parse_feature_schema;
use conspiracy::grammar::parse_config;
use conspiracy::macros::compile_asked;
use conspiracy::macros::compile_features_asked;
use conspiracy::macros::questions_of_features;
use conspiracy::schema::ParseFault;
use conspiracy::schema::SchemaError;
use conspiracy::tokens::Brackets;
use conspiracy::tokens::Token;
use conspiracy::verdicts::ask;
use conspiracy::verdicts::ask_all;
use conspiracy::verdicts::first_refused;
use conspiracy::verdicts::questions_of;
use conspiracy::verdicts::Question;
use conspiracy::verdicts::TextKind;

fn ident(text: &str) -> Token {
    Token::Ident(text.to_string())
}

fn mark(mark: char) -> Token {
    Token::Punct(mark, false)
}

// The tokens of `pub struct A { #[serde(default)] pub(crate) x: u8, b: struct B { } }`,
// written out.
fn declaration() -> Vec<Token> {
    vec![
        ident("pub"),
        ident("struct"),
        ident("A"),
        Token::Group(
            Brackets::Brace,
            vec![
                mark('#'),
                Token::Group(
                    Brackets::Bracket,
                    vec![
                        ident("serde"),
                        Token::Group(Brackets::Parenthesis, vec![ident("default")]),
                    ],
                ),
                ident("pub"),
                Token::Group(Brackets::Parenthesis, vec![ident("crate")]),
                ident("x"),
                mark(':'),
                ident("u8"),
                mark(','),
                ident("b"),
                mark(':'),
                ident("struct"),
                ident("B"),
                Token::Group(Brackets::Brace, vec![]),
            ],
        ),
    ]
}

fn asked(questions: &[Question]) -> Vec<(TextKind, &str)> {
    questions.iter().map(|q| (q.kind, q.text.as_str())).collect()
}

#[test]
fn questions_follow_the_declaration() {
    let node = parse_config(&declaration()).expect("the tokens follow the grammar");
    let questions = questions_of(&node);
    assert_eq!(
        vec![
            (TextKind::Visibility, "pub"),
            (TextKind::Name, "A"),
            (TextKind::Attribute, "#[serde (default ) ]"),
            (TextKind::Visibility, "pub(crate )"),
            (TextKind::Name, "x"),
            (TextKind::Type, "u8 "),
            (TextKind::Name, "b"),
            (TextKind::Name, "B"),
        ],
        asked(&questions)
    );
    // syn accepts each of them.
    assert_eq!(vec![true; 8], ask_all(&questions));
}

#[test]
fn the_first_refused_question_decides() {
    let node = parse_config(&declaration()).unwrap();
    let questions = questions_of(&node);
    let all = vec![true; 8];
    assert_eq!(None, first_refused(&questions, &all));

    let kinds = [
        ParseFault::InvalidVisibility,
        ParseFault::InvalidName,
        ParseFault::InvalidAttribute,
        ParseFault::InvalidVisibility,
        ParseFault::InvalidName,
        ParseFault::InvalidType,
        ParseFault::InvalidName,
        ParseFault::InvalidName,
    ];
    for (index, fault) in kinds.iter().enumerate() {
        let mut verdicts = all.clone();
        verdicts[index] = false;
        assert_eq!(Some(*fault), first_refused(&questions, &verdicts));
        // A later refusal changes nothing.
        verdicts[7] = false;
        assert_eq!(Some(*fault), first_refused(&questions, &verdicts));
    }
    // A question without a verdict counts as refused.
    assert_eq!(Some(ParseFault::InvalidType), first_refused(&questions, &vec![true; 5]));
    assert_eq!(Some(ParseFault::InvalidVisibility), first_refused(&questions, &vec![]));
    assert_eq!(None, first_refused(&vec![], &vec![]));
    assert_eq!(None, first_refused(&questions, &vec![true; 9]));
}

#[test]
fn compiling_goes_by_the_verdicts_it_is_given() {
    let node = parse_config(&declaration()).unwrap();
    let text = compile_asked(node, &vec![true; 8]).expect("every text is accepted");
    assert!(text.contains("pub struct A { #[serde (default ) ] pub(crate ) x: u8 , b: std::sync::Arc<B>, }"));

    let node = parse_config(&declaration()).unwrap();
    let mut verdicts = vec![true; 8];
    verdicts[5] = false;
    assert!(matches!(
        compile_asked(node, &verdicts),
        Err(SchemaError::Parse(ParseFault::InvalidType))
    ));

    // A refusal comes before a fault of the schema.
    let twice = vec![
        ident("struct"),
        ident("A"),
        Token::Group(
            Brackets::Brace,
            vec![ident("x"), mark(':'), ident("u8"), mark(','), ident("x"), mark(':'), ident("u8")],
        ),
    ];
    let node = parse_config(&twice).unwrap();
    assert!(matches!(
        compile_asked(node, &vec![true, true, true, true, false]),
        Err(SchemaError::Parse(ParseFault::InvalidType))
    ));
    let node = parse_config(&twice).unwrap();
    assert!(matches!(
        compile_asked(node, &vec![true; 5]),
        Err(SchemaError::DuplicateField { .. })
    ));
}

#[test]
fn feature_schemas_go_by_the_verdicts_they_are_given() {
    let tokens = vec![
        ident("pub"),
        ident("enum"),
        ident("Features"),
        Token::Group(
            Brackets::Brace,
            vec![
                ident("Foo"),
                Token::Punct('=', true),
                mark('>'),
                ident("true"),
                mark(','),
                ident("Bar"),
                Token::Punct('=', true),
                mark('>'),
                ident("false"),
            ],
        ),
    ];
    let schema = parse_feature_schema(&tokens).unwrap();
    let questions = questions_of_features(&schema);
    assert_eq!(
        vec![
            (TextKind::Visibility, "pub"),
            (TextKind::Name, "Features"),
            (TextKind::Name, "Foo"),
            (TextKind::Name, "Bar"),
        ],
        asked(&questions)
    );
    assert!(compile_features_asked(&schema, &vec![true; 4]).is_ok());
    assert!(matches!(
        compile_features_asked(&schema, &vec![false, true, true, true]),
        Err(SchemaError::Parse(ParseFault::InvalidVisibility))
    ));
    assert!(matches!(
        compile_features_asked(&schema, &vec![true, true, true, false]),
        Err(SchemaError::Parse(ParseFault::InvalidName))
    ));
}

#[test]
fn accessors_go_by_the_verdicts_they_are_given() {
    let tokens = vec![
        ident("Features"),
        Token::Punct(':', true),
        mark(':'),
        ident("Foo"),
        mark(','),
        ident("true"),
    ];
    let questions = questions_of_accessor(Accessor::EnabledOr, &tokens);
    assert_eq!(
        vec![(TextKind::Path, "Features::Foo"), (TextKind::Expression, "true ")],
        asked(&questions)
    );
    let expected = "::conspiracy::feature_control::enabled_or::<FeaturesState>(&R, Features::Foo, true )";
    assert_eq!(Ok(expected.to_string()), expand_parsed(Accessor::EnabledOr, &tokens, "&R"));
    assert_eq!(
        expected,
        expand_asked(Accessor::EnabledOr, &tokens, "&R", &vec![true, true]).unwrap()
    );
    assert!(matches!(
        expand_asked(Accessor::EnabledOr, &tokens, "&R", &vec![false, true]),
        Err(SchemaError::Parse(ParseFault::InvalidPath))
    ));
    assert!(matches!(
        expand_asked(Accessor::EnabledOr, &tokens, "&R", &vec![true, false]),
        Err(SchemaError::Parse(ParseFault::InvalidExpression))
    ));
    // A fault of the grammar comes before a refusal.
    assert!(matches!(
        expand_asked(Accessor::TryEnabled, &tokens, "&R", &vec![false]),
        Err(SchemaError::Parse(ParseFault::TrailingTokens))
    ));
    assert_eq!(1, questions_of_accessor(Accessor::TryEnabled, &tokens).len());
    assert_eq!(0, questions_of_accessor(Accessor::TryEnabled, &vec![mark(',')]).len());
}

#[test]
fn syn_answers_each_kind_of_question() {
    let question = |kind, text: &str| Question { kind, text: text.to_string() };
    assert!(ask(&question(TextKind::Name, "foo")));
    assert!(!ask(&question(TextKind::Name, "fn")));
    assert!(!ask(&question(TextKind::Name, "a b")));
    assert!(ask(&question(TextKind::Type, "Vec < u8 >")));
    assert!(!ask(&question(TextKind::Type, "1 + 2")));
    assert!(ask(&question(TextKind::Visibility, "pub(crate )")));
    assert!(!ask(&question(TextKind::Visibility, "pub(nowhere )")));
    assert!(ask(&question(TextKind::Attribute, "#[serde (default ) ]")));
    assert!(!ask(&question(TextKind::Attribute, "#[1 ]")));
    assert!(ask(&question(TextKind::Path, "crate::Features::Foo")));
    assert!(!ask(&question(TextKind::Path, "Features::fn")));
    assert!(ask(&question(TextKind::Expression, "1 + 1 == 2")));
    assert!(!ask(&question(TextKind::Expression, "+")));
}

#[test]
fn a_checked_read_asks_the_tracker_only_where_one_is_published_and_held() {
    assert!(read_gate(true, true).is_ok());
    assert!(matches!(read_gate(false, true), Err(FeatureEnabledError::NoGlobalTracker)));
    assert!(matches!(read_gate(true, false), Err(FeatureEnabledError::NoGlobalTracker)));
    assert!(matches!(read_gate(false, false), Err(FeatureEnabledError::NoGlobalTracker)));
}
