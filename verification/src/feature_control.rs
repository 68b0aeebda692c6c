//! Feature control: a write-once registry that holds the tracker from which
//! the state of an application's feature flags is read.
//!
//! A registry goes through three phases, forward only: uninitialized,
//! initializing, initialized. Registration claims the registry with one
//! compare-and-swap, stores the tracker and publishes it. Reads never change
//! the registry.
use std::any::Any;
use std::sync::atomic::AtomicUsize;
use std::sync::atomic::Ordering;
use std::sync::Arc;
use std::sync::OnceLock;
use vstd::prelude::*;

pub mod errors;
pub mod protocol;
pub mod tracker;

pub use errors::BadCastError;
pub use errors::FeatureEnabledError;
pub use errors::SetGlobalTrackerError;
pub use protocol::INITIALIZED;
pub use protocol::INITIALIZING;
pub use protocol::UNINITIALIZED;

verus! {

/// A record of feature states that can be asked for one feature.
pub trait AsFeature {
    /// The enumeration of the features that the record covers.
    type Feature;

    /// Whether the record has `feature` enabled.
    open spec fn enabled(&self, feature: Self::Feature) -> bool {
        arbitrary()
    }

    /// The name by which diagnostics call this record type.
    open spec fn record_name() -> Seq<char> {
        arbitrary()
    }

    /// Look a feature up by its tag.
    fn as_feature(&self, feature: Self::Feature) -> (on: bool)
        ensures
            on == self.enabled(feature),
    ;

    /// The name of this record type, for diagnostics.
    fn name() -> (name: String)
        ensures
            name@ == Self::record_name(),
    ;
}

/// An enumeration of features, with the record type that holds their state.
pub trait FeatureSet: Sized {
    /// One boolean per feature; its `Default` holds each feature's default.
    type State: AsFeature<Feature = Self> + Default + Send + Sync + 'static;
}

/// The pointer of a feature state behind `dyn Any`.
#[verifier::external_body]
pub struct ErasedPointer {
    inner: Arc<dyn Any + Send + Sync>,
}

/// A feature state whose type is known only at run time: the pointer that a
/// tracker hands out, with the name of the record type that it was made
/// from as a tag.
pub struct ErasedState {
    tag: String,
    pointer: ErasedPointer,
}

/// The source of feature state that a registry holds.
pub trait FeatureTracker: Send + Sync {
    /// The current feature state, with its type erased.
    fn static_feature_state(&self) -> ErasedState;
}

/// The unsizing coercion of `Arc<T>` to `Arc<dyn Any + Send + Sync>`.
/// Nothing is claimed of the result.
#[verifier::external_body]
fn erase_state<T: Send + Sync + 'static>(state: Arc<T>) -> ErasedPointer {
    ErasedPointer { inner: state }
}

/// `Arc::downcast` on `Arc<dyn Any + Send + Sync>`: the typed pointer if
/// the state is a `T`, else the pointer as it was. Which of the two comes
/// back depends on the type that was erased, of which nothing is claimed
/// here.
#[verifier::external_body]
fn downcast_state<T: Send + Sync + 'static>(pointer: ErasedPointer) -> Result<
    Arc<T>,
    ErasedPointer,
> {
    match pointer.inner.downcast::<T>() {
        Ok(typed) => Ok(typed),
        Err(inner) => Err(ErasedPointer { inner }),
    }
}

impl ErasedState {
    /// The name of the record type that the state was made from.
    pub closed spec fn tag(&self) -> Seq<char> {
        self.tag@
    }

    /// Erase the type of a feature state, and tag it with the name of its
    /// record type.
    pub fn new<T: AsFeature + Send + Sync + 'static>(state: Arc<T>) -> (erased: ErasedState)
        ensures
            erased.tag() == T::record_name(),
    {
        ErasedState { tag: T::name(), pointer: erase_state(state) }
    }

    /// Whether the state is tagged as a `T`.
    pub fn is_tagged<T: AsFeature>(&self) -> (tagged: bool)
        ensures
            tagged == (self.tag() == T::record_name()),
    {
        self.tag == T::name()
    }
}

/// `std::sync::OnceLock`, a cell that is written at most once. What it
/// holds can change under a shared reference, so nothing is said of it.
#[verifier::external_type_specification]
#[verifier::external_body]
#[verifier::reject_recursive_types(T)]
pub struct ExOnceLock<T>(OnceLock<T>);

/// `OnceLock::new`: an empty cell. Nothing is claimed of it.
pub assume_specification<T>[ OnceLock::<T>::new ]() -> OnceLock<T>;

/// `OnceLock::get`: what the cell holds at the moment of the call, if it
/// holds anything. Nothing is claimed of the result.
pub assume_specification<T>[ OnceLock::<T>::get ](cell: &OnceLock<T>) -> Option<&T>;

/// `OnceLock::get_or_init` with a closure that hands over `tracker`: the
/// content of the cell after the call, which is `tracker` where the cell
/// was empty. Nothing is claimed of the result.
#[verifier::external_body]
fn store_tracker(slot: &OnceLock<Box<dyn FeatureTracker>>, tracker: Box<dyn FeatureTracker>) -> &Box<
    dyn FeatureTracker,
> {
    slot.get_or_init(move || tracker)
}

/// A write-once slot for the tracker that a process reads its feature state
/// from.
pub struct TrackerRegistry {
    phase: AtomicUsize,
    slot: OnceLock<Box<dyn FeatureTracker>>,
}

/// What a registration attempt returns, given what its compare-and-swap
/// returned: the caller whose exchange succeeded goes on, every other
/// caller is told that the registry is taken.
pub fn claim_outcome(exchange: Result<usize, usize>) -> (outcome: Result<
    (),
    SetGlobalTrackerError,
>)
    ensures
        exchange is Ok <==> outcome is Ok,
        outcome matches Err(e) ==> e is GlobalTrackerAlreadySet,
{
    match exchange {
        Ok(_) => Ok(()),
        Err(_) => Err(SetGlobalTrackerError::GlobalTrackerAlreadySet),
    }
}

/// What registration returns once the tracker is stored, given whether the
/// state that the tracker handed out is of the expected type.
pub fn validation_outcome(state_matches: bool, expected: String) -> (outcome: Result<
    (),
    SetGlobalTrackerError,
>)
    ensures
        state_matches <==> outcome is Ok,
        outcome matches Err(e) ==> e.bad_cast_of(expected@),
{
    if state_matches {
        Ok(())
    } else {
        Err(SetGlobalTrackerError::BadCast(BadCastError(expected)))
    }
}

/// What a read returns, given whether the state that the tracker handed
/// out is tagged as a `T`, and the outcome of its downcast: the typed
/// pointer where both say that it is a `T`, else the error that names the
/// type that was expected.
pub fn cast_outcome<T>(tagged: bool, cast: Result<Arc<T>, ErasedPointer>, expected: String) -> (outcome:
    Result<Arc<T>, FeatureEnabledError>)
    ensures
        match cast {
            Ok(typed) => if tagged {
                outcome == Ok::<Arc<T>, FeatureEnabledError>(typed)
            } else {
                outcome matches Err(e) && e.bad_cast_of(expected@)
            },
            Err(_) => outcome matches Err(e) && e.bad_cast_of(expected@),
        },
{
    match cast {
        Ok(typed) => if tagged {
            Ok(typed)
        } else {
            Err(FeatureEnabledError::BadCast(BadCastError(expected)))
        },
        Err(_) => Err(FeatureEnabledError::BadCast(BadCastError(expected))),
    }
}

/// An erased state as a `T`: the state has to be tagged as a `T` and to
/// be one. A state with another tag is a bad cast.
pub fn typed_state<T: AsFeature + Send + Sync + 'static>(state: ErasedState) -> (typed: Result<
    Arc<T>,
    FeatureEnabledError,
>)
    ensures
        state.tag() != T::record_name() ==> typed is Err,
        typed matches Err(e) ==> e.bad_cast_of(T::record_name()),
{
    let tagged = state.is_tagged::<T>();
    cast_outcome(tagged, downcast_state::<T>(state.pointer), T::name())
}

/// What the unchecked accessor does with the outcome of a lookup.
///
/// With a value it returns the value. Without one, a test build falls back
/// on the feature's default, and any other build must stop: `None`.
pub fn resolve_unchecked(
    lookup: Result<bool, FeatureEnabledError>,
    default: bool,
    test_mode: bool,
) -> (resolved: Option<bool>)
    ensures
        resolved == (match lookup {
            Ok(on) => Some(on),
            Err(_) => if test_mode {
                Some(default)
            } else {
                None
            },
        }),
{
    match lookup {
        Ok(on) => Some(on),
        Err(_) => if test_mode {
            Some(default)
        } else {
            None
        },
    }
}

/// The feature that a lookup found, or the error of the lookup.
pub fn feature_of<S: AsFeature>(lookup: Result<Arc<S>, FeatureEnabledError>, feature: S::Feature) -> (on:
    Result<bool, FeatureEnabledError>)
    ensures
        match lookup {
            Ok(state) => on == Ok::<bool, FeatureEnabledError>(state.enabled(feature)),
            Err(e) => on == Err::<bool, FeatureEnabledError>(e),
        },
{
    match lookup {
        Ok(state) => Ok(state.as_feature(feature)),
        Err(e) => Err(e),
    }
}

impl TrackerRegistry {
    /// A registry that holds no tracker.
    pub fn new() -> TrackerRegistry {
        TrackerRegistry { phase: AtomicUsize::new(UNINITIALIZED), slot: OnceLock::new() }
    }

    /// Claim the registry, store the tracker and publish it. Only the caller
    /// whose claim succeeded writes the slot.
    fn install(&self, tracker: Box<dyn FeatureTracker>) -> (stored: Result<
        &Box<dyn FeatureTracker>,
        SetGlobalTrackerError,
    >)
        ensures
            stored matches Err(e) ==> e is GlobalTrackerAlreadySet,
    {
        let exchange = self.phase.compare_exchange(
            UNINITIALIZED,
            INITIALIZING,
            Ordering::SeqCst,
            Ordering::SeqCst,
        );
        match claim_outcome(exchange) {
            Ok(()) => {
                let stored = store_tracker(&self.slot, tracker);
                self.phase.store(INITIALIZED, Ordering::SeqCst);
                Ok(stored)
            },
            Err(e) => Err(e),
        }
    }
}

/// Registers a [`FeatureTracker`] as the tracker of `registry`. This can only
/// be done once: every later call, and every call that loses the race, gets
/// `GlobalTrackerAlreadySet`.
///
/// The winner's tracker stays registered even where its state turns out not
/// to be a `T`, which is reported as `BadCast`.
pub fn set_global_tracker<T: AsFeature + Send + Sync + 'static, C: FeatureTracker + 'static>(
    registry: &TrackerRegistry,
    tracker: C,
) -> (outcome: Result<(), SetGlobalTrackerError>)
    ensures
        outcome matches Err(e) ==> e is GlobalTrackerAlreadySet || e.bad_cast_of(T::record_name()),
{
    let boxed: Box<dyn FeatureTracker> = Box::new(tracker);
    match registry.install(boxed) {
        Ok(stored) => {
            let state = stored.static_feature_state();
            let typed = typed_state::<T>(state);
            validation_outcome(typed.is_ok(), T::name())
        },
        Err(e) => Err(e),
    }
}

/// Registers a tracker that is already boxed, without looking at its state.
pub fn set_global_tracker_from_ref(registry: &TrackerRegistry, tracker: Box<dyn FeatureTracker>) -> (outcome:
    Result<(), SetGlobalTrackerError>)
    ensures
        outcome matches Err(e) ==> e is GlobalTrackerAlreadySet,
{
    match registry.install(tracker) {
        Ok(_) => Ok(()),
        Err(e) => Err(e),
    }
}

/// Checks whether a tracker has been registered and published.
pub fn global_tracker_set(registry: &TrackerRegistry) -> bool {
    let word = registry.phase.load(Ordering::SeqCst);
    protocol::is_published(word)
}

/// The state that `tracker` hands out now, as a `T`.
pub fn feature_state_inner<T: AsFeature + Send + Sync + 'static>(
    tracker: &Box<dyn FeatureTracker>,
) -> (state: Result<Arc<T>, FeatureEnabledError>)
    ensures
        state matches Err(e) ==> e.bad_cast_of(T::record_name()),
{
    let erased = tracker.static_feature_state();
    typed_state::<T>(erased)
}

/// Uses the tracker of `registry` to get the current feature state. The
/// phase word is loaded first, and the slot is read only where the word
/// says that a tracker is published; [`read_gate`] decides from the two
/// whether the tracker is asked, and where it is not, `NoGlobalTracker` is
/// returned and no tracker is called.
pub fn try_feature_state<T: AsFeature + Send + Sync + 'static>(registry: &TrackerRegistry) -> (state:
    Result<Arc<T>, FeatureEnabledError>)
    ensures
        state matches Err(e) ==> e is NoGlobalTracker || e.bad_cast_of(T::record_name()),
{
    let published = global_tracker_set(registry);
    let found = if published {
        registry.slot.get()
    } else {
        None
    };
    match read_gate(published, found.is_some()) {
        Ok(()) => match found {
            Some(tracker) => feature_state_inner(tracker),
            None => Err(FeatureEnabledError::NoGlobalTracker),
        },
        Err(e) => Err(e),
    }
}

/// Whether `feature` is enabled in the state that the registry's tracker
/// hands out now: what a state of type `S` says of the feature, or the
/// error of the lookup.
pub fn try_enabled<S: AsFeature + Send + Sync + 'static>(
    registry: &TrackerRegistry,
    feature: S::Feature,
) -> (on: Result<bool, FeatureEnabledError>)
    ensures
        lookup_outcome::<S>(on, feature),
{
    let state = try_feature_state::<S>(registry);
    let ghost found = state;
    let on = feature_of(state, feature);
    proof {
        if let Ok(held) = found {
            assert(held.enabled(feature) == on->Ok_0);
        }
    }
    on
}

/// Whether `feature` is enabled, or `fallback` where that cannot be told:
/// what [`fall_back`] makes of the outcome of the lookup.
pub fn enabled_or<S: AsFeature + Send + Sync + 'static>(
    registry: &TrackerRegistry,
    feature: S::Feature,
    fallback: bool,
) -> (on: bool)
    ensures
        exists|lookup: Result<bool, FeatureEnabledError>| #[trigger]
            lookup_outcome::<S>(lookup, feature) && on == or_fallback(lookup, fallback),
{
    let lookup = try_enabled::<S>(registry, feature);
    let ghost seen = lookup;
    let on = fall_back(lookup, fallback);
    assert(lookup_outcome::<S>(seen, feature) && on == or_fallback(seen, fallback));
    on
}

/// Whether a checked read goes on to ask the tracker, given whether the
/// phase word says that a tracker is published and whether the slot holds
/// one: it does where both hold, and reports `NoGlobalTracker` in every
/// other case, so while a registration is still in progress too.
pub fn read_gate(published: bool, held: bool) -> (gate: Result<(), FeatureEnabledError>)
    ensures
        gate is Ok <==> (published && held),
        gate matches Err(e) ==> e is NoGlobalTracker,
{
    if published && held {
        Ok(())
    } else {
        Err(FeatureEnabledError::NoGlobalTracker)
    }
}

/// Whether `on` is what some state of type `S` says of `feature`.
pub open spec fn is_flag_of<S: AsFeature>(on: bool, feature: S::Feature) -> bool {
    exists|state: Arc<S>| #[trigger] state.enabled(feature) == on
}

/// What holds of every outcome of the lookup of `feature` in a state of
/// type `S`: a value is what some state says of the feature, and an error
/// says that no tracker is published or that the tracker's state is no `S`.
pub open spec fn lookup_outcome<S: AsFeature>(
    lookup: Result<bool, FeatureEnabledError>,
    feature: S::Feature,
) -> bool {
    match lookup {
        Ok(on) => is_flag_of::<S>(on, feature),
        Err(e) => e is NoGlobalTracker || e.bad_cast_of(S::record_name()),
    }
}

/// The value of a lookup, or `fallback` where the lookup failed.
pub open spec fn or_fallback(lookup: Result<bool, FeatureEnabledError>, fallback: bool) -> bool {
    match lookup {
        Ok(on) => on,
        Err(_) => fallback,
    }
}

/// The value of a lookup, or `fallback` where the lookup failed.
pub fn fall_back(lookup: Result<bool, FeatureEnabledError>, fallback: bool) -> (on: bool)
    ensures
        on == or_fallback(lookup, fallback),
{
    match lookup {
        Ok(on) => on,
        Err(_) => fallback,
    }
}

} // verus!
