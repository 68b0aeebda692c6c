use std::sync::Arc;

use conspiracy::config::ConfigFetcher;
use conspiracy::feature_control::feature_state_inner;
use conspiracy::feature_control::global_tracker_set;
use conspiracy::feature_control::resolve_unchecked;
use conspiracy::feature_control::set_global_tracker;
use conspiracy::feature_control::set_global_tracker_from_ref;
use conspiracy::feature_control::tracker::ConspiracyFeatureTracker;
use conspiracy::feature_control::tracker::StaticFetcher;
use conspiracy::feature_control::try_enabled;
use conspiracy::feature_control::try_feature_state;
use conspiracy::feature_control::typed_state;
use conspiracy::feature_control::AsFeature;
use conspiracy::feature_control::ErasedState;
use conspiracy::feature_control::FeatureEnabledError;
use conspiracy::feature_control::FeatureSet;
use conspiracy::feature_control::FeatureTracker;
use conspiracy::feature_control::SetGlobalTrackerError;
use conspiracy::feature_control::SetGlobalTrackerError::GlobalTrackerAlreadySet;
use conspiracy::feature_control::TrackerRegistry;

// What is generated for
//
//     pub enum Features { Foo => false, Bar => false, }
//
// written out by hand.

#[derive(Clone, Copy)]
pub enum Features {
    Foo,
    Bar,
}

impl Features {
    pub fn builder() -> FeaturesStateBuilder {
        FeaturesState::builder()
    }
}

#[derive(Debug, PartialEq)]
pub struct FeaturesState {
    foo: bool,
    bar: bool,
}

impl FeaturesState {
    pub fn builder() -> FeaturesStateBuilder {
        FeaturesStateBuilder::new()
    }

    pub fn default_foo() -> bool {
        false
    }

    pub fn default_bar() -> bool {
        false
    }
}

impl Default for FeaturesState {
    fn default() -> Self {
        Self {
            foo: Self::default_foo(),
            bar: Self::default_bar(),
        }
    }
}

impl AsFeature for FeaturesState {
    type Feature = Features;

    fn as_feature(&self, feature: Features) -> bool {
        match feature {
            Features::Foo => self.foo,
            Features::Bar => self.bar,
        }
    }

    fn name() -> String {
        String::from("FeaturesState")
    }
}

impl FeatureSet for Features {
    type State = FeaturesState;
}

pub struct FeaturesStateBuilder {
    state: FeaturesState,
}

impl FeaturesStateBuilder {
    pub fn new() -> Self {
        Self {
            state: FeaturesState::default(),
        }
    }

    pub fn build(self) -> FeaturesState {
        self.state
    }

    pub fn foo(mut self, value: bool) -> Self {
        self.state.foo = value;
        self
    }

    pub fn bar(mut self, value: bool) -> Self {
        self.state.bar = value;
        self
    }
}

// A second, unrelated state type.
pub struct OtherState {
    on: bool,
}

#[derive(Clone, Copy)]
pub enum Other {
    On,
}

impl AsFeature for OtherState {
    type Feature = Other;

    fn as_feature(&self, _feature: Other) -> bool {
        self.on
    }

    fn name() -> String {
        String::from("OtherState")
    }
}

// What `feature_enabled!` stands for in a test build.
fn feature_enabled(registry: &TrackerRegistry, feature: Features) -> bool {
    let default = FeaturesState::default().as_feature(feature);
    resolve_unchecked(try_enabled::<FeaturesState>(registry, feature), default, true)
        .expect("a test build always has a value")
}

#[test]
fn global_registered_overrides_defaults_always_ok() {
    let registry = TrackerRegistry::new();
    // Inverses confirm our mock state is being used rather than unwittingly returning defaults
    set_inverse_defaults_global(&registry).unwrap();

    // Second set will be rejected
    let failure = set_inverse_defaults_global(&registry).unwrap_err();
    assert!(std::matches!(failure, GlobalTrackerAlreadySet));

    let expected_foo = !FeaturesState::default_foo();
    let expected_bar = !FeaturesState::default_bar();

    assert_eq!(expected_foo, feature_enabled(&registry, Features::Foo));
    assert_eq!(expected_bar, feature_enabled(&registry, Features::Bar));
}

fn set_inverse_defaults_global(registry: &TrackerRegistry) -> Result<(), SetGlobalTrackerError> {
    let state = Features::builder()
        .foo(!FeaturesState::default_foo())
        .bar(!FeaturesState::default_bar())
        .build();

    ConspiracyFeatureTracker::<Features, StaticFetcher<Features>>::from_static(state)
        .set_as_global_tracker(registry)
}

#[test]
fn registry_goes_from_unset_to_set_once() {
    let registry = TrackerRegistry::new();
    assert!(!global_tracker_set(&registry));
    assert!(matches!(
        try_feature_state::<FeaturesState>(&registry),
        Err(FeatureEnabledError::NoGlobalTracker)
    ));

    ConspiracyFeatureTracker::<Features, StaticFetcher<Features>>::from_default()
        .set_as_global_tracker(&registry)
        .unwrap();
    assert!(global_tracker_set(&registry));

    let state = try_feature_state::<FeaturesState>(&registry).unwrap();
    assert_eq!(FeaturesState::default(), *state);

    for _ in 0..5 {
        let again = ConspiracyFeatureTracker::<Features, StaticFetcher<Features>>::from_static(
            Features::builder().foo(true).build(),
        )
        .set_as_global_tracker(&registry);
        assert!(matches!(again, Err(GlobalTrackerAlreadySet)));
    }
    // The winner's tracker is the one that is read.
    assert_eq!(Ok(false), try_enabled::<FeaturesState>(&registry, Features::Foo).map_err(|_| ()));
    assert!(global_tracker_set(&registry));
}

#[test]
fn mismatched_state_type_is_a_bad_cast() {
    let registry = TrackerRegistry::new();
    let tracker = ConspiracyFeatureTracker::<Features, StaticFetcher<Features>>::from_default();
    let outcome = set_global_tracker::<OtherState, _>(&registry, tracker);
    match outcome {
        Err(SetGlobalTrackerError::BadCast(error)) => {
            assert_eq!("OtherState", error.0);
            assert_eq!(
                "Expected global state type `OtherState`. This should be unreachable! The tracker's state type shouldn't vary",
                error.message()
            );
        }
        other => panic!("expected a bad cast, got {:?}", other),
    }
    // The registration itself went through.
    assert!(global_tracker_set(&registry));

    // A read with the wrong type fails, and the unchecked read of a build that is no test
    // build has no value to return.
    let lookup = try_enabled::<OtherState>(&registry, Other::On);
    match &lookup {
        Err(FeatureEnabledError::BadCast(error)) => assert_eq!("OtherState", error.0),
        other => panic!("expected a bad cast, got {:?}", other),
    }
    assert_eq!(None, resolve_unchecked(lookup, true, false));

    // A read with the type that the tracker has works.
    assert!(matches!(try_enabled::<FeaturesState>(&registry, Features::Bar), Ok(false)));
}

struct CountingTracker {
    state: Arc<FeaturesState>,
}

impl FeatureTracker for CountingTracker {
    fn static_feature_state(&self) -> ErasedState {
        ErasedState::new(self.state.clone())
    }
}

#[test]
fn boxed_tracker_registers_without_validation() {
    let registry = TrackerRegistry::new();
    let state = Arc::new(Features::builder().bar(true).build());
    let tracker: Box<dyn FeatureTracker> = Box::new(CountingTracker { state: state.clone() });
    assert!(set_global_tracker_from_ref(&registry, tracker).is_ok());
    let second: Box<dyn FeatureTracker> = Box::new(CountingTracker { state: state.clone() });
    assert!(matches!(
        set_global_tracker_from_ref(&registry, second),
        Err(GlobalTrackerAlreadySet)
    ));
    let read = try_feature_state::<FeaturesState>(&registry).unwrap();
    assert!(Arc::ptr_eq(&read, &state));

    let direct: Box<dyn FeatureTracker> = Box::new(CountingTracker { state: state.clone() });
    let typed = feature_state_inner::<FeaturesState>(&direct).unwrap();
    assert!(Arc::ptr_eq(&typed, &state));
    assert!(matches!(
        feature_state_inner::<OtherState>(&direct),
        Err(FeatureEnabledError::BadCast(_))
    ));
}

#[test]
fn static_fetcher_hands_out_the_state_it_was_made_from() {
    let tracker = ConspiracyFeatureTracker::<Features, StaticFetcher<Features>>::from_static(
        Features::builder().foo(true).build(),
    );
    let erased = tracker.static_feature_state();
    let registry = TrackerRegistry::new();
    let boxed: Box<dyn FeatureTracker> = Box::new(CountingTracker {
        state: Arc::new(Features::builder().foo(true).build()),
    });
    set_global_tracker_from_ref(&registry, boxed).unwrap();
    let _ = erased;
    assert!(matches!(try_enabled::<FeaturesState>(&registry, Features::Foo), Ok(true)));
    assert!(matches!(try_enabled::<FeaturesState>(&registry, Features::Bar), Ok(false)));
}

#[test]
fn exactly_one_of_many_registrations_wins() {
    let registry = TrackerRegistry::new();
    let attempts = 16;
    let outcomes: Vec<(bool, Result<(), SetGlobalTrackerError>)> = (0..attempts)
        .map(|index| {
            let foo = index % 2 == 1;
            let state = Features::builder().foo(foo).bar(!foo).build();
            let outcome = ConspiracyFeatureTracker::<Features, StaticFetcher<Features>>::from_static(state)
                .set_as_global_tracker(&registry);
            (foo, outcome)
        })
        .collect();

    let winners: Vec<bool> = outcomes
        .iter()
        .filter(|(_, outcome)| outcome.is_ok())
        .map(|(foo, _)| *foo)
        .collect();
    assert_eq!(vec![false], winners);
    let losers = outcomes
        .iter()
        .filter(|(_, outcome)| matches!(outcome, Err(GlobalTrackerAlreadySet)))
        .count();
    assert_eq!(attempts - 1, losers);

    // Every reader finds the registry set, with the winner's state.
    assert!(global_tracker_set(&registry));
    let state = try_feature_state::<FeaturesState>(&registry).unwrap();
    assert_eq!(winners[0], state.as_feature(Features::Foo));
    assert_eq!(!winners[0], state.as_feature(Features::Bar));
}

// A type of its own that gives the name of another.
pub struct TwinState;

impl AsFeature for TwinState {
    type Feature = Other;

    fn as_feature(&self, _feature: Other) -> bool {
        false
    }

    fn name() -> String {
        String::from("FeaturesState")
    }
}

#[test]
fn an_erased_state_is_typed_by_its_tag_and_by_what_it_is() {
    let state = Arc::new(Features::builder().foo(true).build());

    let erased = ErasedState::new(state.clone());
    assert!(erased.is_tagged::<FeaturesState>());
    assert!(!erased.is_tagged::<OtherState>());
    assert!(erased.is_tagged::<TwinState>());
    let typed = typed_state::<FeaturesState>(erased).unwrap();
    assert!(Arc::ptr_eq(&typed, &state));

    // Another tag is a bad cast.
    match typed_state::<OtherState>(ErasedState::new(state.clone())) {
        Err(FeatureEnabledError::BadCast(error)) => assert_eq!("OtherState", error.0),
        _ => panic!("expected a bad cast"),
    }
    // The same tag on another type is a bad cast too.
    match typed_state::<TwinState>(ErasedState::new(state.clone())) {
        Err(FeatureEnabledError::BadCast(error)) => assert_eq!("FeaturesState", error.0),
        _ => panic!("expected a bad cast"),
    }
    assert!(typed_state::<FeaturesState>(ErasedState::new(Arc::new(TwinState))).is_err());
}
