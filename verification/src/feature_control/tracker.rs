//! Included [`FeatureTracker`] implementations.
use crate::config::share_pointer;
use crate::config::ConfigFetcher;
use crate::feature_control::set_global_tracker;
use crate::feature_control::AsFeature;
use crate::feature_control::ErasedState;
use crate::feature_control::FeatureSet;
use crate::feature_control::FeatureTracker;
use crate::feature_control::SetGlobalTrackerError;
use crate::feature_control::TrackerRegistry;
use std::marker::PhantomData;
use std::sync::Arc;
use vstd::prelude::*;

verus! {

/// A general purpose [`FeatureTracker`] that reads its state from a
/// [`ConfigFetcher`].
pub struct ConspiracyFeatureTracker<T: FeatureSet, F: ConfigFetcher<T::State>> {
    state_fetcher: F,
    phantom: PhantomData<T>,
}

/// A general purpose [`ConfigFetcher`] that supplies a static [`FeatureSet`]
/// value as a snapshot.
pub struct StaticFetcher<T: FeatureSet> {
    state: Arc<T::State>,
}

impl<T: FeatureSet> StaticFetcher<T> {
    /// The state that the fetcher hands out.
    pub closed spec fn held(&self) -> T::State {
        *self.state
    }
}

impl<T: FeatureSet> ConfigFetcher<T::State> for StaticFetcher<T> {
    closed spec fn yields(&self, snapshot: Arc<T::State>) -> bool {
        snapshot == self.state
    }

    fn latest_snapshot(&self) -> (snapshot: Arc<T::State>) {
        share_pointer(&self.state)
    }
}

impl<T: FeatureSet, F: ConfigFetcher<T::State>> ConspiracyFeatureTracker<T, F> {
    /// The fetcher that the tracker reads its state from.
    pub closed spec fn fetcher(&self) -> F {
        self.state_fetcher
    }
}

impl<T: FeatureSet> ConspiracyFeatureTracker<T, StaticFetcher<T>> {
    /// Initialize using the default value of `T`'s state.
    pub fn from_default() -> (tracker: Self)
        ensures
            call_ensures(T::State::default, (), tracker.fetcher().held()),
            forall|s: Arc<T::State>| #[trigger]
                tracker.fetcher().yields(s) ==> *s == tracker.fetcher().held(),
    {
        Self::from_static(T::State::default())
    }

    /// Use a state, as the generated builder makes one, for static values.
    pub fn from_static(state: T::State) -> (tracker: Self)
        ensures
            tracker.fetcher().held() == state,
            forall|s: Arc<T::State>| #[trigger] tracker.fetcher().yields(s) ==> *s == state,
    {
        ConspiracyFeatureTracker {
            state_fetcher: StaticFetcher { state: Arc::new(state) },
            phantom: PhantomData,
        }
    }
}

impl<T: FeatureSet + Send + Sync + 'static, F: ConfigFetcher<T::State> + Send + Sync + 'static> ConspiracyFeatureTracker<T, F> {
    /// Registers the tracker with `registry`, expecting `T`'s state type.
    pub fn set_as_global_tracker(self, registry: &TrackerRegistry) -> (outcome: Result<
        (),
        SetGlobalTrackerError,
    >)
        ensures
            outcome matches Err(e) ==> e is GlobalTrackerAlreadySet || e.bad_cast_of(
                T::State::record_name(),
            ),
    {
        set_global_tracker::<T::State, Self>(registry, self)
    }
}

impl<T: FeatureSet + Send + Sync, F: ConfigFetcher<T::State> + Send + Sync> FeatureTracker for ConspiracyFeatureTracker<T, F> {
    /// A snapshot of the fetcher, tagged as a state of `T`.
    fn static_feature_state(&self) -> (erased: ErasedState)
        ensures
            erased.tag() == T::State::record_name(),
    {
        ErasedState::new(self.state_fetcher.latest_snapshot())
    }
}

} // verus!
