use conspiracy::feature_control::AsFeature;
use conspiracy::feature_grammar::parse_feature_schema;
use conspiracy::features::compile_features;
use conspiracy::features::FeatureState;
use conspiracy::features::Features;
use conspiracy::tokens::tokenize;

fn features_of(text: &str) -> Features {
    let tokens = tokenize(text).expect("the declaration is a sequence of tokens");
    let schema = parse_feature_schema(&tokens).expect("the declaration follows the grammar");
    compile_features(&schema)
}

fn one_requires_restart() -> Features {
    features_of("pub enum OneRequiresRestart { #[conspiracy(restart)] Foo => false, Bar => false, }")
}

fn some_require_restart() -> Features {
    features_of(
        "pub enum SomeRequireRestart { #[conspiracy(restart)] Foo => false, Bar => false, #[conspiracy(restart)] Cow => true, }",
    )
}

fn all_require_restart() -> Features {
    features_of(
        "pub enum AllRequireRestart { #[conspiracy(restart)] Foo => false, #[conspiracy(restart)] Bar => false, #[conspiracy(restart)] Cow => true, }",
    )
}

fn flipped(features: &Features, names: &[&str]) -> FeatureState {
    let mut builder = features.builder();
    for name in names {
        let position = features
            .position_of(&name.to_string())
            .expect("the feature is declared");
        builder = builder.set(position, !features.default_of(position));
    }
    builder.build()
}

#[test]
fn no_change_no_restart() {
    let one = one_requires_restart();
    let some = some_require_restart();
    let all = all_require_restart();
    assert!(!one.default_state().restart_required(&one.default_state(), &one));
    assert!(!some.default_state().restart_required(&some.default_state(), &some));
    assert!(!all.default_state().restart_required(&all.default_state(), &all));
}

#[test]
fn untracked_change_no_restart() {
    let one = one_requires_restart();
    let other = flipped(&one, &["Bar"]);
    assert!(!one.default_state().restart_required(&other, &one));

    let some = some_require_restart();
    let other = flipped(&some, &["Bar"]);
    assert!(!some.default_state().restart_required(&other, &some));
}

#[test]
fn tracked_change_restart() {
    let one = one_requires_restart();
    let other = flipped(&one, &["Foo"]);
    assert!(one.default_state().restart_required(&other, &one));

    let some = some_require_restart();
    let other = flipped(&some, &["Cow"]);
    assert!(some.default_state().restart_required(&other, &some));

    let other = flipped(&some, &["Bar"]);
    assert!(!some.default_state().restart_required(&other, &some));
    let other = flipped(&some, &["Bar", "Cow"]);
    assert!(some.default_state().restart_required(&other, &some));

    let all = all_require_restart();
    let other = flipped(&all, &["Bar", "Cow"]);
    assert!(all.default_state().restart_required(&other, &all));
}

#[test]
fn defaults_builder_and_lookup() {
    let features = features_of("enum Features { Foo => false, Bar => true }");
    assert_eq!(2, features.features.len());
    assert!(!features.default_of(0));
    assert!(features.default_of(1));

    let state = features.default_state();
    assert_eq!(&vec![false, true], state.values());
    assert!(!state.as_feature(0));
    assert!(state.as_feature(1));
    assert!(!state.as_feature(2));

    let state = features.builder().set(0, true).set(1, false).build();
    assert_eq!(&vec![true, false], state.values());
    assert!(state.as_feature(0));
    assert!(!state.as_feature(1));
    assert_eq!("FeatureState", FeatureState::name());

    assert_eq!(Some(1), features.position_of(&"Bar".to_string()));
    assert_eq!(None, features.position_of(&"Cow".to_string()));
}

#[test]
fn names_follow_the_two_styles() {
    let features = features_of("pub enum MyAppFeatures { OptimizedHashComputation => true, UseQuic => false, }");
    assert_eq!("pub", features.visibility);
    assert_eq!("MyAppFeatures", features.name);
    assert_eq!("MyAppFeaturesState", features.state_name);
    assert_eq!("MyAppFeaturesStateBuilder", features.state_builder_name);
    assert_eq!("OptimizedHashComputation", features.features[0].variant);
    assert_eq!("optimized_hash_computation", features.features[0].field);
    assert_eq!("default_optimized_hash_computation", features.features[0].default_fn);
    assert_eq!("UseQuic", features.features[1].variant);
    assert_eq!("use_quic", features.features[1].field);
    assert!(features.features[0].default);
    assert!(!features.features[1].default);
    assert!(!features.features[0].restart);
}
