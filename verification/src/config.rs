//! The fetcher pattern: code that has to follow configuration updates holds a
//! [`ConfigFetcher`] and asks it for a fresh snapshot at each transactional
//! boundary. A snapshot is an `Arc`, so handing one out is a pointer copy.
use std::marker::PhantomData;
use std::sync::Arc;
use vstd::prelude::*;

verus! {

/// Fetches the current state of configuration as a shared snapshot.
///
/// What a fetcher returns may change from one call to the next, so its
/// contract is a predicate over snapshots rather than a single value:
/// `yields(s)` holds of every snapshot that a call may hand out.
pub trait ConfigFetcher<T> {
    /// Holds of every snapshot that `latest_snapshot` may return. Where an
    /// implementation says nothing, any snapshot may come.
    open spec fn yields(&self, snapshot: Arc<T>) -> bool {
        true
    }

    /// Get a shared copy of the currently active configuration state.
    fn latest_snapshot(&self) -> (snapshot: Arc<T>)
        ensures
            self.yields(snapshot),
    ;
}

/// Express a config snapshot as a sub-config snapshot, so that code can
/// depend on the part of an application's configuration that concerns it.
pub trait AsField<T> {
    /// The sub-config that this config holds.
    open spec fn field(&self) -> Arc<T> {
        arbitrary()
    }

    /// Share a copy of a sub-config: the pointer that the config holds, not a
    /// copy of what it points to.
    fn share(&self) -> (child: Arc<T>)
        ensures
            child == self.field(),
    ;
}

/// Tells whether going from one snapshot to another calls for a restart.
pub trait RestartRequired {
    /// Holds when a field that triggers a restart differs between the two.
    open spec fn restart_differs(&self, other: &Self) -> bool {
        arbitrary()
    }

    /// Compare the fields that trigger a restart.
    fn restart_required(&self, other: &Self) -> (restart: bool)
        ensures
            restart == self.restart_differs(other),
    ;
}

/// The bounds of a fetcher that threads can share, as one trait.
pub trait ThreadSafeFetcher<T>: ConfigFetcher<T> + Send + Sync {

}

impl<T, F: ConfigFetcher<T> + Send + Sync> ThreadSafeFetcher<T> for F {

}

/// A shared instance of a `ConfigFetcher` that can be converted into
/// sub-config fetchers and shared across threads.
pub type SharedConfigFetcher<T> = Arc<Box<dyn ThreadSafeFetcher<T>>>;

impl<T, F: ConfigFetcher<T> + ?Sized> ConfigFetcher<T> for Box<F> {
    open spec fn yields(&self, snapshot: Arc<T>) -> bool {
        (**self).yields(snapshot)
    }

    fn latest_snapshot(&self) -> (snapshot: Arc<T>) {
        (**self).latest_snapshot()
    }
}

/// `Arc::clone`: another pointer to the same allocation, so the value it
/// points to is the one that `pointer` points to.
#[verifier::external_body]
pub(crate) fn share_pointer<T: ?Sized>(pointer: &Arc<T>) -> (shared: Arc<T>)
    ensures
        shared == *pointer,
{
    Arc::clone(pointer)
}

/// `Box::new` with the unsizing coercion to a trait object, then `Arc::new`:
/// the handle forwards `latest_snapshot` to the fetcher it was made from, so
/// it yields nothing that the fetcher does not yield.
#[verifier::external_body]
fn erase<T: 'static, F: ConfigFetcher<T> + Send + Sync + 'static>(fetcher: F) -> (shared:
    SharedConfigFetcher<T>)
    ensures
        forall|s: Arc<T>| #[trigger] shared.yields(s) ==> fetcher.yields(s),
{
    Arc::new(Box::new(fetcher))
}

/// Adapts a function that returns a snapshot to the fetcher interface.
#[verifier::reject_recursive_types(T)]
pub struct WrappedFetcher<T, F: Fn() -> Arc<T>> {
    inner: F,
    phantom: PhantomData<T>,
}

impl<T, F: Fn() -> Arc<T>> WrappedFetcher<T, F> {
    #[verifier::type_invariant]
    spec fn callable(&self) -> bool {
        self.inner.requires(())
    }
}

impl<T, F: Fn() -> Arc<T>> ConfigFetcher<T> for WrappedFetcher<T, F> {
    closed spec fn yields(&self, snapshot: Arc<T>) -> bool {
        self.inner.ensures((), snapshot)
    }

    fn latest_snapshot(&self) -> (snapshot: Arc<T>) {
        proof {
            use_type_invariant(self);
        }
        (self.inner)()
    }
}

/// Constructs a [`SharedConfigFetcher`] from a closure that returns a new
/// snapshot. Every call of the fetcher is one call of the closure.
pub fn shared_fetcher_from_fn<T: Send + Sync + 'static, F: Fn() -> Arc<T> + Send + Sync + 'static>(
    fetcher: F,
) -> (shared: SharedConfigFetcher<T>)
    requires
        fetcher.requires(()),
    ensures
        forall|s: Arc<T>| #[trigger] shared.yields(s) ==> fetcher.ensures((), s),
{
    erase(WrappedFetcher { inner: fetcher, phantom: PhantomData })
}

/// Constructs a [`SharedConfigFetcher`] from a static value: every call
/// returns `config`.
pub fn shared_fetcher_from_static<T: Send + Sync + 'static>(config: Arc<T>) -> (shared:
    SharedConfigFetcher<T>)
    ensures
        forall|s: Arc<T>| #[trigger] shared.yields(s) ==> s == config,
{
    let held: Ghost<Arc<T>> = Ghost(config);
    let source = move || -> (snapshot: Arc<T>)
        ensures
            snapshot == held@,
        { share_pointer(&config) };
    shared_fetcher_from_fn(source)
}

/// Converts an owned [`ConfigFetcher`] into a [`SharedConfigFetcher`].
pub fn into_shared_fetcher<T: Send + Sync + 'static, F: ConfigFetcher<T> + Send + Sync + 'static>(
    fetcher: F,
) -> (shared: SharedConfigFetcher<T>)
    ensures
        forall|s: Arc<T>| #[trigger] shared.yields(s) ==> fetcher.yields(s),
{
    erase(fetcher)
}

/// The snapshot that a sub-config fetcher derives from one snapshot of its
/// parent: the sub-config that the parent snapshot holds.
pub fn project_snapshot<T: AsField<T2>, T2>(snapshot: Arc<T>) -> (child: Arc<T2>)
    ensures
        child == snapshot.field(),
{
    snapshot.share()
}

/// A sub-config fetcher follows its parent generation by generation:
/// while the parent hands out `generation` and nothing else, a fetcher
/// that hands out only projections of what the parent hands out, as
/// [`as_shared_fetcher`] makes one, hands out the projection of
/// `generation` and nothing else.
pub proof fn lemma_sub_fetcher_follows_parent<T: AsField<T2>, T2, F: ConfigFetcher<T>, S: ConfigFetcher<T2>>(
    parent: F,
    sub: S,
    generation: Arc<T>,
)
    requires
        forall|p: Arc<T>| #[trigger] parent.yields(p) ==> p == generation,
        forall|s: Arc<T2>| #[trigger]
            sub.yields(s) ==> exists|p: Arc<T>| #[trigger] parent.yields(p) && s == p.field(),
    ensures
        forall|s: Arc<T2>| #[trigger] sub.yields(s) ==> s == generation.field(),
{
    assert forall|s: Arc<T2>| #[trigger] sub.yields(s) implies s == generation.field() by {
        let p = choose|p: Arc<T>| #[trigger] parent.yields(p) && s == p.field();
    }
}

/// Creates a [`SharedConfigFetcher`] for the sub-config of the given fetcher.
///
/// Each call of the new fetcher calls `fetcher` once and projects what came
/// back; nothing is kept between calls.
pub fn as_shared_fetcher<T, T2, F>(fetcher: &Arc<F>) -> (sub: SharedConfigFetcher<T2>) where
    F: ConfigFetcher<T> + ?Sized + Send + Sync + 'static,
    T: AsField<T2>,
    T2: Send + Sync + 'static,

    ensures
        forall|s: Arc<T2>| #[trigger]
            sub.yields(s) ==> exists|p: Arc<T>| #[trigger] fetcher.yields(p) && s == p.field(),
{
    let parent = share_pointer(fetcher);
    let upstream: Ghost<Arc<F>> = Ghost(parent);
    let source = move || -> (child: Arc<T2>)
        ensures
            exists|p: Arc<T>| #[trigger] upstream@.yields(p) && child == p.field(),
        {
            let snapshot: Arc<T> = parent.latest_snapshot();
            project_snapshot(snapshot)
        };
    shared_fetcher_from_fn(source)
}

} // verus!
