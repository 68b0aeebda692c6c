use conspiracy::feature_control::enabled_or;
use conspiracy::feature_control::fall_back;
use conspiracy::feature_control::resolve_unchecked;
use conspiracy::feature_control::try_enabled;
use conspiracy::feature_control::AsFeature;
use conspiracy::feature_control::FeatureEnabledError;
use conspiracy::feature_control::TrackerRegistry;
use conspiracy::feature_grammar::parse_feature_schema;
use conspiracy::features::compile_features;
use conspiracy::features::FeatureState;
use conspiracy::tokens::tokenize;

// What is generated for
//
//     pub enum Features { Foo => true, Bar => false, }
//
// written out by hand.

#[derive(Clone, Copy)]
pub enum Features {
    Foo,
    Bar,
}

pub struct FeaturesState {
    foo: bool,
    bar: bool,
}

impl FeaturesState {
    pub fn default_foo() -> bool {
        true
    }

    pub fn default_bar() -> bool {
        false
    }
}

impl Default for FeaturesState {
    fn default() -> Self {
        Self {
            foo: Self::default_foo(),
            bar: Self::default_bar(),
        }
    }
}

impl AsFeature for FeaturesState {
    type Feature = Features;

    fn as_feature(&self, feature: Features) -> bool {
        match feature {
            Features::Foo => self.foo,
            Features::Bar => self.bar,
        }
    }

    fn name() -> String {
        String::from("FeaturesState")
    }
}

fn default_of(feature: Features) -> bool {
    match feature {
        Features::Foo => FeaturesState::default_foo(),
        Features::Bar => FeaturesState::default_bar(),
    }
}

// What `feature_enabled!` stands for in a test build.
fn feature_enabled(registry: &TrackerRegistry, feature: Features) -> bool {
    resolve_unchecked(
        try_enabled::<FeaturesState>(registry, feature),
        default_of(feature),
        true,
    )
    .expect("a test build always has a value")
}

// What `feature_enabled_or_default!` stands for.
fn feature_enabled_or_default(registry: &TrackerRegistry, feature: Features) -> bool {
    match try_enabled::<FeaturesState>(registry, feature) {
        Ok(state) => state,
        Err(_) => default_of(feature),
    }
}

#[test]
fn no_global_registered_no_panic_under_cfg_test() {
    let registry = TrackerRegistry::new();

    // We're in a test build, so this should return default rather than panic.
    let bar_feature: bool = feature_enabled(&registry, Features::Bar);
    assert_eq!(FeaturesState::default_bar(), bar_feature);

    let bar_feature: bool = feature_enabled_or_default(&registry, Features::Bar);
    assert_eq!(FeaturesState::default_bar(), bar_feature);

    // Confirm the failure gets replaced with default, so default must be inverse
    let expected_bar = !FeaturesState::default_bar();
    assert_eq!(
        expected_bar,
        enabled_or::<FeaturesState>(&registry, Features::Bar, expected_bar)
    );

    assert_eq!(
        expected_bar,
        enabled_or::<FeaturesState>(&registry, crate::Features::Bar, expected_bar)
    );

    let foo_feature: Result<bool, FeatureEnabledError> =
        try_enabled::<FeaturesState>(&registry, Features::Foo);
    assert!(foo_feature.is_err());

    assert!(feature_enabled(&registry, Features::Foo));
    assert!(!feature_enabled(&registry, Features::Bar));
}

#[test]
fn test_mode_accessor_returns_the_defaults() {
    // Feature schema `{Foo => false, Bar => true}`, no tracker registered.
    let tokens = tokenize("enum Features { Foo => false, Bar => true }").unwrap();
    let features = compile_features(&parse_feature_schema(&tokens).unwrap());
    let registry = TrackerRegistry::new();

    let foo = features.position_of(&"Foo".to_string()).unwrap();
    let lookup = try_enabled::<FeatureState>(&registry, foo);
    assert_eq!(Some(false), resolve_unchecked(lookup, features.default_of(foo), true));

    let bar = features.position_of(&"Bar".to_string()).unwrap();
    let lookup = try_enabled::<FeatureState>(&registry, bar);
    assert_eq!(Some(true), resolve_unchecked(lookup, features.default_of(bar), true));
}

#[test]
fn unchecked_read_without_tracker_is_fatal_outside_tests() {
    let registry = TrackerRegistry::new();
    let lookup = try_enabled::<FeaturesState>(&registry, Features::Foo);
    assert!(matches!(lookup, Err(FeatureEnabledError::NoGlobalTracker)));
    assert_eq!(None, resolve_unchecked(lookup, true, false));
    assert_eq!(Some(true), resolve_unchecked(Ok(true), false, false));
    assert_eq!(Some(false), resolve_unchecked(Ok(false), true, true));
    assert_eq!(
        "No global tracker was set. `set_global_tracker` must be called first",
        FeatureEnabledError::NoGlobalTracker.message()
    );
}

#[test]
fn fallback_is_taken_only_where_the_lookup_failed() {
    assert!(fall_back(Ok(true), false));
    assert!(!fall_back(Ok(false), true));
    assert!(fall_back(Err(FeatureEnabledError::NoGlobalTracker), true));
    assert!(!fall_back(Err(FeatureEnabledError::NoGlobalTracker), false));

    let registry = TrackerRegistry::new();
    assert!(enabled_or::<FeaturesState>(&registry, Features::Foo, true));
    assert!(!enabled_or::<FeaturesState>(&registry, Features::Foo, false));
}
