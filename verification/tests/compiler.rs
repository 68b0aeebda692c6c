use conspiracy::compiler::build_restart_comparison;
use conspiracy::compiler::compact_ty_name;
use conspiracy::compiler::compile;
use conspiracy::grammar::parse_config;
use conspiracy::grammar::ConspiracyAttribute;
use conspiracy::grammar::try_set_attribute;
use conspiracy::macros::config_struct;
use conspiracy::macros::define_features;
use conspiracy::macros::feature_enabled;
use conspiracy::macros::feature_enabled_or;
use conspiracy::macros::feature_enabled_or_default;
use conspiracy::macros::try_feature_enabled;
use conspiracy::schema::FieldKind;
use conspiracy::schema::ParseFault;
use conspiracy::schema::SchemaError;
use conspiracy::schema::SchemaNode;
use conspiracy::text::find_first_repeat;
use conspiracy::tokens::render_tokens;
use conspiracy::tokens::tokenize;
use conspiracy::tokens::Brackets;
use conspiracy::tokens::Token;

fn schema_of(text: &str) -> SchemaNode {
    let tokens = tokenize(text).expect("the declaration is a sequence of tokens");
    parse_config(&tokens).expect("the declaration follows the grammar")
}

fn fault_of(text: &str) -> ParseFault {
    match config_struct(text) {
        Err(SchemaError::Parse(fault)) => fault,
        other => panic!("expected a fault of the grammar, got {:?}", other),
    }
}

fn feature_fault_of(text: &str) -> ParseFault {
    match define_features(text) {
        Err(SchemaError::Parse(fault)) => fault,
        other => panic!("expected a fault of the grammar, got {:?}", other),
    }
}

#[test]
fn tokens_come_from_the_lexer() {
    let tokens = tokenize("a: Vec<u8>, 'x' -> \"s\" (1)").unwrap();
    assert_eq!(12, tokens.len());
    assert!(matches!(&tokens[0], Token::Ident(text) if text == "a"));
    assert!(matches!(&tokens[1], Token::Punct(':', false)));
    assert!(matches!(&tokens[3], Token::Punct('<', false)));
    assert!(matches!(&tokens[5], Token::Punct('>', true)));
    assert!(matches!(&tokens[6], Token::Punct(',', false)));
    assert!(matches!(&tokens[7], Token::Literal(text) if text == "'x'"));
    assert!(matches!(&tokens[8], Token::Punct('-', true)));
    assert!(matches!(&tokens[9], Token::Punct('>', false)));
    assert!(matches!(&tokens[10], Token::Literal(text) if text == "\"s\""));
    assert!(matches!(&tokens[11], Token::Group(Brackets::Parenthesis, _)));
    let tokens = tokenize("f(1) [x] {y}").unwrap();
    assert!(matches!(&tokens[1], Token::Group(Brackets::Parenthesis, inner) if inner.len() == 1));
    assert!(matches!(&tokens[2], Token::Group(Brackets::Bracket, _)));
    assert!(matches!(&tokens[3], Token::Group(Brackets::Brace, _)));
    assert_eq!("f (1 ) [x ] {y } ", render_tokens(&tokens));
    assert!(tokenize("struct A { ").is_none());
    assert!(tokenize("\"open").is_none());
    assert_eq!(0, tokenize("").unwrap().len());
}

#[test]
fn declaration_is_read_into_the_schema() {
    let schema = schema_of(
        "#[serde(deny_unknown_fields)] pub struct Top { #[serde(default)] foo: u32, #[conspiracy(restart)] pub(crate) bar: #[derive(Default)] pub struct Inner { map: HashMap<String, Vec<u8>>, call: fn(u8, u8) -> u8 }, }",
    );
    assert_eq!("Top", schema.ident);
    assert_eq!("pub", schema.visibility);
    assert_eq!(vec!["#[serde (deny_unknown_fields ) ]".to_string()], schema.annotations);
    assert_eq!(2, schema.fields.len());

    let foo = &schema.fields[0];
    assert_eq!("foo", foo.name);
    assert_eq!("", foo.visibility);
    assert!(!foo.restart);
    assert_eq!(vec!["#[serde (default ) ]".to_string()], foo.annotations);
    assert!(matches!(&foo.kind, FieldKind::Leaf(ty) if ty == "u32 "));

    let bar = &schema.fields[1];
    assert_eq!("bar", bar.name);
    assert_eq!("pub(crate )", bar.visibility);
    assert!(bar.restart);
    assert!(bar.annotations.is_empty());
    match &bar.kind {
        FieldKind::Nested(inner) => {
            assert_eq!("Inner", inner.ident);
            assert_eq!("pub", inner.visibility);
            assert_eq!(vec!["#[derive (Default ) ]".to_string()], inner.annotations);
            assert_eq!(2, inner.fields.len());
            assert!(matches!(&inner.fields[0].kind, FieldKind::Leaf(ty) if ty == "HashMap < String , Vec < u8 >>"));
            assert!(matches!(&inner.fields[1].kind, FieldKind::Leaf(ty) if ty == "fn (u8 , u8 ) -> u8 "));
            assert!(!inner.fields[0].restart);
        }
        FieldKind::Leaf(_) => panic!("bar holds a node"),
    }
}

#[test]
fn tag_on_a_node_tags_each_of_its_fields() {
    let schema = schema_of("#[conspiracy(restart)] struct Top { a: u8, b: struct Inner { c: u8 } }");
    assert!(schema.annotations.is_empty());
    assert!(schema.fields[0].restart);
    assert!(schema.fields[1].restart);
    match &schema.fields[1].kind {
        FieldKind::Nested(inner) => assert!(!inner.fields[0].restart),
        FieldKind::Leaf(_) => panic!("b holds a node"),
    }
    let paths = build_restart_comparison(&schema);
    assert_eq!(vec![vec!["a".to_string()], vec!["b".to_string()]], paths);
}

#[test]
fn empty_node_and_trailing_comma_are_accepted() {
    assert_eq!(0, schema_of("struct Empty {}").fields.len());
    assert_eq!(1, schema_of("struct One { a: u8 }").fields.len());
    assert_eq!(1, schema_of("struct One { a: u8, }").fields.len());
    assert_eq!(2, schema_of("struct Two { a: u8, b: struct B {} }").fields.len());
}

#[test]
fn each_fault_of_the_grammar_is_reported() {
    assert_eq!(ParseFault::NotTokens, fault_of("struct A { a: u8 "));
    assert_eq!(ParseFault::ExpectedKeyword, fault_of(""));
    assert_eq!(ParseFault::ExpectedKeyword, fault_of("pub enum A { }"));
    assert_eq!(ParseFault::ExpectedName, fault_of("pub struct"));
    assert_eq!(ParseFault::ExpectedName, fault_of("struct { }"));
    assert_eq!(ParseFault::InvalidName, fault_of("struct fn { }"));
    assert_eq!(ParseFault::ExpectedBody, fault_of("struct A"));
    assert_eq!(ParseFault::ExpectedBody, fault_of("struct A ( a: u8 )"));
    assert_eq!(ParseFault::ExpectedName, fault_of("struct A { : u8 }"));
    assert_eq!(ParseFault::InvalidName, fault_of("struct A { type: u8 }"));
    assert_eq!(ParseFault::ExpectedColon, fault_of("struct A { a u8 }"));
    assert_eq!(ParseFault::ExpectedColon, fault_of("struct A { a }"));
    assert_eq!(ParseFault::ExpectedType, fault_of("struct A { a: }"));
    assert_eq!(ParseFault::ExpectedType, fault_of("struct A { a: , b: u8 }"));
    assert_eq!(ParseFault::InvalidType, fault_of("struct A { a: 1 + 2 }"));
    assert_eq!(ParseFault::InvalidType, fault_of("struct A { a: u8 b: u8 }"));
    assert_eq!(ParseFault::ExpectedComma, fault_of("struct A { a: struct B { } b: u8 }"));
    assert_eq!(
        ParseFault::RepeatedTag,
        fault_of("struct A { #[conspiracy(restart)] #[conspiracy(restart)] a: u8 }")
    );
    assert_eq!(ParseFault::TrailingTokens, fault_of("struct A { } struct B { }"));
    assert_eq!(ParseFault::InvalidVisibility, fault_of("pub(nowhere) struct A { }"));
    assert_eq!(ParseFault::InvalidVisibility, fault_of("struct A { pub(u8, u8) a: u8 }"));
    assert_eq!(ParseFault::InvalidAttribute, fault_of("#[123] struct A { }"));
    assert_eq!(ParseFault::InvalidAttribute, fault_of("struct A { #[] a: u8 }"));
    // The first text that syn refuses decides, in the order of the declaration.
    assert_eq!(ParseFault::InvalidType, fault_of("struct A { a: 1 + 2, type: u8 }"));
    assert_eq!(ParseFault::InvalidName, fault_of("struct A { type: u8, a: 1 + 2 }"));
    assert_eq!(ParseFault::InvalidName, fault_of("struct A { b: struct fn { c: 1 + 2 } }"));
    assert_eq!(ParseFault::ExpectedName, fault_of("struct A { a: pub struct }"));
}

#[test]
fn each_fault_of_the_feature_grammar_is_reported() {
    assert_eq!(ParseFault::NotTokens, feature_fault_of("enum A { "));
    assert_eq!(ParseFault::ExpectedKeyword, feature_fault_of("struct A { }"));
    assert_eq!(ParseFault::ExpectedName, feature_fault_of("pub enum { }"));
    assert_eq!(ParseFault::InvalidName, feature_fault_of("enum enum { }"));
    assert_eq!(ParseFault::ExpectedBody, feature_fault_of("enum A"));
    assert_eq!(ParseFault::TrailingTokens, feature_fault_of("enum A { } ;"));
    assert_eq!(ParseFault::ExpectedName, feature_fault_of("enum A { => true }"));
    assert_eq!(ParseFault::InvalidName, feature_fault_of("enum A { fn => true }"));
    assert_eq!(ParseFault::ExpectedArrow, feature_fault_of("enum A { Foo = true }"));
    assert_eq!(ParseFault::ExpectedArrow, feature_fault_of("enum A { Foo }"));
    assert_eq!(ParseFault::ExpectedDefault, feature_fault_of("enum A { Foo => 1 }"));
    assert_eq!(ParseFault::ExpectedDefault, feature_fault_of("enum A { Foo => }"));
    assert_eq!(ParseFault::ExpectedComma, feature_fault_of("enum A { Foo => true Bar => false }"));
    assert_eq!(
        ParseFault::RepeatedTag,
        feature_fault_of("enum A { #[conspiracy(restart)] #[conspiracy(restart)] Foo => true }")
    );
    assert_eq!(ParseFault::InvalidVisibility, feature_fault_of("pub(nowhere) enum A { }"));
}

#[test]
fn duplicate_names_are_refused_before_anything_is_generated() {
    match config_struct("struct A { x: u8, y: u16, x: u32 }") {
        Err(SchemaError::DuplicateField { node, field }) => {
            assert_eq!("A", node);
            assert_eq!("x", field);
        }
        other => panic!("expected a duplicate field, got {:?}", other),
    }
    match config_struct("struct A { b: struct B { p: u8, q: u8, p: u8 }, c: struct C { z: u8, z: u8 } }") {
        Err(SchemaError::DuplicateField { node, field }) => {
            assert_eq!("B", node);
            assert_eq!("p", field);
        }
        other => panic!("expected a duplicate field, got {:?}", other),
    }
    match config_struct("struct A { b: struct B { x: u8 }, c: struct C { d: struct B { y: u8 } } }") {
        Err(SchemaError::DuplicateType { name }) => assert_eq!("B", name),
        other => panic!("expected a duplicate type, got {:?}", other),
    }
    // A node that holds a node of its own type is a duplicate type.
    match config_struct("struct A { a: struct A { x: u8 } }") {
        Err(SchemaError::DuplicateType { name }) => assert_eq!("A", name),
        other => panic!("expected a duplicate type, got {:?}", other),
    }
    // A clash of types is reported before a clash of fields.
    match config_struct("struct A { x: u8, x: u8, b: struct A { } }") {
        Err(SchemaError::DuplicateType { name }) => assert_eq!("A", name),
        other => panic!("expected a duplicate type, got {:?}", other),
    }
    let valid = schema_of("struct A { x: u8, b: struct B { x: u8 } }");
    assert!(valid.validate().is_ok());
    assert!(valid.find_field_clash().is_none());
}

#[test]
fn schema_errors_read_as_sentences() {
    assert_eq!(
        "the field `x` is declared twice in `A`",
        config_struct("struct A { x: u8, x: u8 }").unwrap_err().message()
    );
    assert_eq!(
        "the type `A` is declared twice: every type in a config struct hierarchy must be unique",
        config_struct("struct A { a: struct A { } }").unwrap_err().message()
    );
    assert_eq!(
        "You can't use multiple conspiracy attributes on a single field",
        config_struct("struct A { #[conspiracy(restart)] #[conspiracy(restart)] a: u8 }")
            .unwrap_err()
            .message()
    );
    assert_eq!("expected `,`", ParseFault::ExpectedComma.message());
    assert_eq!("expected a type", ParseFault::ExpectedType.message());
}

#[test]
fn first_repeat_is_the_first_position_that_repeats() {
    let names: Vec<String> = ["a", "b", "c", "b", "a"].iter().map(|s| s.to_string()).collect();
    assert_eq!(Some(3), find_first_repeat(&names));
    let names: Vec<String> = ["a", "b", "c"].iter().map(|s| s.to_string()).collect();
    assert_eq!(None, find_first_repeat(&names));
    assert_eq!(None, find_first_repeat(&Vec::new()));
}

#[test]
fn compiled_schema_holds_restart_paths_and_projections() {
    let compiled = compile(schema_of(
        "pub struct A { foo: u32, bar: struct B { #[conspiracy(restart)] foo: u32, #[conspiracy(restart)] bar: pub struct C { foo: u32, #[conspiracy(restart)] baz: u32 } }, d: struct D { e: struct E { } } }",
    ))
    .expect("the schema is valid");

    let paths: Vec<Vec<&str>> = compiled
        .restart
        .iter()
        .map(|path| path.iter().map(|name| name.as_str()).collect())
        .collect();
    assert_eq!(
        vec![vec!["bar", "foo"], vec!["bar", "bar"], vec!["bar", "bar", "baz"]],
        paths
    );

    let projections: Vec<(&str, &str, Vec<&str>)> = compiled
        .projections
        .iter()
        .map(|p| {
            (
                p.ancestor.as_str(),
                p.descendant.as_str(),
                p.path.iter().map(|name| name.as_str()).collect(),
            )
        })
        .collect();
    assert_eq!(
        vec![
            ("A", "B", vec!["bar"]),
            ("B", "C", vec!["bar"]),
            ("A", "C", vec!["bar", "bar"]),
            ("A", "D", vec!["d"]),
            ("D", "E", vec!["e"]),
            ("A", "E", vec!["d", "e"]),
        ],
        projections
    );
    assert_eq!("CompactA", compact_ty_name(&compiled.root.ident));
}

#[test]
fn generated_text_of_a_small_schema() {
    let text = config_struct("pub struct A { #[conspiracy(restart)] x: u8, b: struct B { y: u8 } }").unwrap();
    let expected = [
        "impl ::conspiracy::config::RestartRequired for A { #[inline] fn restart_required(&self, other: &Self) -> bool { self.x != other.x } }\n",
        "pub struct CompactB { pub y: u8 , }\n",
        "impl CompactB { pub fn arcify(self) -> std::sync::Arc<B> { std::sync::Arc::new(B { y: self.y, }) } }\n",
        "pub struct CompactA { pub x: u8 , pub b: CompactB, }\n",
        "impl CompactA { pub fn arcify(self) -> std::sync::Arc<A> { std::sync::Arc::new(A { x: self.x, b: self.b.arcify(), }) } }\n",
        "impl ::conspiracy::config::AsField<B> for A { #[inline] fn share(&self) -> std::sync::Arc<B> { self.b.clone() } }\n",
        "#[derive(Clone, PartialEq, ::serde::Serialize, ::serde::Deserialize)]\n",
        "struct B { y: u8 , }\n",
        "impl B { pub fn compact(&self) -> CompactB { CompactB { y: self.y.clone(), } } }\n",
        "#[derive(Clone, PartialEq, ::serde::Serialize, ::serde::Deserialize)]\n",
        "pub struct A { x: u8 , b: std::sync::Arc<B>, }\n",
        "impl A { pub fn compact(&self) -> CompactA { CompactA { x: self.x.clone(), b: (*self.b).clone().compact(), } } }\n",
    ]
    .join("");
    assert_eq!(expected, text);

    let text = config_struct("struct Plain { x: u8 }").unwrap();
    assert!(text.starts_with(
        "impl ::conspiracy::config::RestartRequired for Plain { #[inline] fn restart_required(&self, other: &Self) -> bool { false } }\n"
    ));
    let text = config_struct("struct Two { #[conspiracy(restart)] x: u8, #[conspiracy(restart)] y: u8 }").unwrap();
    assert!(text.contains("{ self.x != other.x || self.y != other.y }"));
}

#[test]
fn generated_text_of_a_small_feature_schema() {
    let text = define_features("pub enum Features { #[conspiracy(restart)] Foo => false, BarBaz => true }").unwrap();
    let expected = [
        "pub enum Features { Foo, BarBaz, }\n",
        "impl Features { pub fn builder() -> FeaturesStateBuilder { FeaturesState::builder() } }\n",
        "#[derive(::serde::Serialize, ::serde::Deserialize, Debug, PartialEq)]\n",
        "pub struct FeaturesState { foo: bool, bar_baz: bool, }\n",
        "impl FeaturesState { pub fn builder() -> FeaturesStateBuilder { FeaturesStateBuilder::new() } pub fn default_foo() -> bool { false } pub fn default_bar_baz() -> bool { true } }\n",
        "impl ::conspiracy::config::RestartRequired for FeaturesState { #[inline] fn restart_required(&self, other: &Self) -> bool { self.foo != other.foo } }\n",
        "impl Default for FeaturesState { fn default() -> Self { Self { foo: Self::default_foo(), bar_baz: Self::default_bar_baz(), } } }\n",
        "impl ::conspiracy::feature_control::AsFeature for FeaturesState { type Feature = Features; #[inline] fn as_feature(&self, feature: Features) -> bool { match feature { Features::Foo => self.foo, Features::BarBaz => self.bar_baz, } } fn name() -> String { String::from(\"FeaturesState\") } }\n",
        "impl ::conspiracy::feature_control::FeatureSet for Features { type State = FeaturesState; }\n",
        "pub struct FeaturesStateBuilder { state: FeaturesState, }\n",
        "impl FeaturesStateBuilder { pub fn new() -> Self { Self { state: FeaturesState::default() } } pub fn build(self) -> FeaturesState { self.state } pub fn foo(mut self, value: bool) -> Self { self.state.foo = value; self } pub fn bar_baz(mut self, value: bool) -> Self { self.state.bar_baz = value; self } }\n",
    ]
    .join("");
    assert_eq!(expected, text);

    let empty = define_features("enum EmptyFeatures {}").unwrap();
    assert!(empty.starts_with("enum EmptyFeatures { }\n"));
    assert!(empty.contains("-> bool { false }"));
    assert!(define_features("enum SingleFeature { Foo => true, }").is_ok());
    assert!(define_features("enum SingleFeatureNoTrailingComma { Foo => true }").is_ok());
    assert!(define_features("enum MultipleFeaturesNoTrailingComma { Foo => true, Bar => true }").is_ok());
}

#[test]
fn accessors_expand_to_calls_on_the_registry() {
    assert_eq!(
        "::conspiracy::feature_control::try_enabled::<FeaturesState>(registry(), Features::Foo)",
        try_feature_enabled("Features::Foo", "registry()").unwrap()
    );
    assert_eq!(
        "::conspiracy::feature_control::enabled_or::<crate::generated::FeaturesState>(&R, crate::generated::Features::Bar, expected_bar )",
        feature_enabled_or("crate::generated::Features::Bar, expected_bar", "&R").unwrap()
    );
    assert_eq!(
        "match ::conspiracy::feature_control::try_enabled::<::a::FeaturesState>(&R, ::a::Features::UseQuic) { Ok(state) => state, Err(_) => <::a::FeaturesState>::default_use_quic() }",
        feature_enabled_or_default("::a::Features::UseQuic", "&R").unwrap()
    );
    assert_eq!(
        "::conspiracy::feature_control::resolve_unchecked(::conspiracy::feature_control::try_enabled::<FeaturesState>(&R, Features::Foo), <FeaturesState>::default_foo(), cfg!(test)).expect(\"No global tracker found, must be initialized with `set_global_tracker`\")",
        feature_enabled("Features::Foo", "&R").unwrap()
    );
    assert!(matches!(
        try_feature_enabled("Foo", "&R"),
        Err(SchemaError::Parse(ParseFault::ExpectedName))
    ));
    assert!(matches!(
        try_feature_enabled("", "&R"),
        Err(SchemaError::Parse(ParseFault::ExpectedName))
    ));
    assert!(matches!(
        try_feature_enabled("Features::Foo, true", "&R"),
        Err(SchemaError::Parse(ParseFault::TrailingTokens))
    ));
    assert!(matches!(
        feature_enabled_or("Features::Foo", "&R"),
        Err(SchemaError::Parse(ParseFault::ExpectedComma))
    ));
    assert!(matches!(
        feature_enabled_or("Features::Foo,", "&R"),
        Err(SchemaError::Parse(ParseFault::ExpectedDefault))
    ));
    assert!(matches!(
        feature_enabled("Features::(", "&R"),
        Err(SchemaError::Parse(ParseFault::NotTokens))
    ));
    assert!(matches!(
        try_feature_enabled("Features::fn", "&R"),
        Err(SchemaError::Parse(ParseFault::InvalidPath))
    ));
    assert!(matches!(
        feature_enabled_or("Features::Foo, +", "&R"),
        Err(SchemaError::Parse(ParseFault::InvalidExpression))
    ));
    assert!(matches!(
        feature_enabled_or("Features::fn, +", "&R"),
        Err(SchemaError::Parse(ParseFault::InvalidPath))
    ));
}

#[test]
fn a_field_takes_one_attribute() {
    let mut noted = None;
    try_set_attribute(&mut noted, ConspiracyAttribute::Restart);
    assert_eq!(Some(ConspiracyAttribute::Restart), noted);

    // A second tag on one field never reaches the slot: the parser refuses it.
    let tokens = tokenize("struct A { #[conspiracy(restart)] #[conspiracy(restart)] a: u8 }").unwrap();
    assert_eq!(Err(ParseFault::RepeatedTag), parse_config(&tokens).map(|_| ()));
    let tokens = tokenize("#[conspiracy(restart)] #[serde(x)] #[conspiracy(restart)] struct A { }").unwrap();
    assert_eq!(Err(ParseFault::RepeatedTag), parse_config(&tokens).map(|_| ()));
    let tokens = tokenize("struct A { #[conspiracy(restart)] a: u8, #[conspiracy(restart)] b: u8 }").unwrap();
    assert!(parse_config(&tokens).is_ok());
}
