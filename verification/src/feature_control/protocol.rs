//! The registration protocol as a state machine over the registry's phase
//! word, and what holds of every interleaving of its steps.
use vstd::prelude::*;

verus! {

/// The phase word of a registry that holds no tracker.
pub const UNINITIALIZED: usize = 0;

/// The phase word while the winner of the claim stores its tracker.
pub const INITIALIZING: usize = 1;

/// The phase word once the tracker is published.
pub const INITIALIZED: usize = 2;

/// The three phases of a registry.
#[derive(Clone, Copy, Debug, PartialEq, Eq, Structural)]
pub enum TrackerPhase {
    Uninitialized,
    Initializing,
    Initialized,
}

/// One atomic step on the phase word.
#[derive(Clone, Copy, Debug, PartialEq, Eq, Structural)]
pub enum RegistryStep {
    /// A caller's compare-and-swap from uninitialized to initializing.
    Claim,
    /// The winner's store of initialized.
    Publish,
}

/// The phase that a word stands for.
pub open spec fn phase_of_word(word: usize) -> Option<TrackerPhase> {
    if word == UNINITIALIZED {
        Some(TrackerPhase::Uninitialized)
    } else if word == INITIALIZING {
        Some(TrackerPhase::Initializing)
    } else if word == INITIALIZED {
        Some(TrackerPhase::Initialized)
    } else {
        None
    }
}

/// Whether a claim that finds the word at `word` wins.
pub open spec fn claim_wins(word: usize) -> bool {
    word == UNINITIALIZED
}

/// The word after one step.
pub open spec fn word_after(word: usize, step: RegistryStep) -> usize {
    match step {
        RegistryStep::Claim => if claim_wins(word) {
            INITIALIZING
        } else {
            word
        },
        RegistryStep::Publish => INITIALIZED,
    }
}

/// The word after the steps of `trace`, in order.
pub open spec fn word_after_all(word: usize, trace: Seq<RegistryStep>) -> usize
    decreases trace.len(),
{
    if trace.len() == 0 {
        word
    } else {
        word_after_all(word_after(word, trace[0]), trace.drop_first())
    }
}

/// How many claims `trace` holds.
pub open spec fn claims(trace: Seq<RegistryStep>) -> nat
    decreases trace.len(),
{
    if trace.len() == 0 {
        0
    } else {
        (if trace[0] == RegistryStep::Claim {
            1nat
        } else {
            0nat
        }) + claims(trace.drop_first())
    }
}

/// How many claims of `trace` win, starting from `word`.
pub open spec fn winners(word: usize, trace: Seq<RegistryStep>) -> nat
    decreases trace.len(),
{
    if trace.len() == 0 {
        0
    } else {
        (if trace[0] == RegistryStep::Claim && claim_wins(word) {
            1nat
        } else {
            0nat
        }) + winners(word_after(word, trace[0]), trace.drop_first())
    }
}

/// A trace in which only the winner of a claim publishes: each publish
/// finds the word at initializing.
pub open spec fn only_winner_publishes(word: usize, trace: Seq<RegistryStep>) -> bool
    decreases trace.len(),
{
    if trace.len() == 0 {
        true
    } else {
        &&& trace[0] == RegistryStep::Publish ==> word == INITIALIZING
        &&& only_winner_publishes(word_after(word, trace[0]), trace.drop_first())
    }
}

/// The phase of a word, for a caller that is about to read.
pub fn phase_of(word: usize) -> (phase: Option<TrackerPhase>)
    ensures
        phase == phase_of_word(word),
{
    if word == UNINITIALIZED {
        Some(TrackerPhase::Uninitialized)
    } else if word == INITIALIZING {
        Some(TrackerPhase::Initializing)
    } else if word == INITIALIZED {
        Some(TrackerPhase::Initialized)
    } else {
        None
    }
}

/// Whether a reader that loaded `word` may use the tracker: only once it is
/// published.
pub fn is_published(word: usize) -> (published: bool)
    ensures
        published == (phase_of_word(word) == Some(TrackerPhase::Initialized)),
{
    word == INITIALIZED
}

/// Once the word has left uninitialized, no claim wins and the word never
/// returns to uninitialized.
pub proof fn lemma_claimed_registry_stays_claimed(word: usize, trace: Seq<RegistryStep>)
    requires
        word != UNINITIALIZED,
    ensures
        winners(word, trace) == 0,
        word_after_all(word, trace) != UNINITIALIZED,
    decreases trace.len(),
{
    if trace.len() > 0 {
        lemma_claimed_registry_stays_claimed(word_after(word, trace[0]), trace.drop_first());
    }
}

/// Of the claims on a fresh registry exactly one wins, however they
/// interleave with the winner's publish; every other claim loses.
pub proof fn lemma_exactly_one_claim_wins(trace: Seq<RegistryStep>)
    requires
        only_winner_publishes(UNINITIALIZED, trace),
    ensures
        claims(trace) > 0 ==> winners(UNINITIALIZED, trace) == 1,
        claims(trace) == 0 ==> winners(UNINITIALIZED, trace) == 0,
    decreases trace.len(),
{
    if trace.len() > 0 && trace[0] == RegistryStep::Claim {
        lemma_claimed_registry_stays_claimed(INITIALIZING, trace.drop_first());
    }
}

/// How many publishes `trace` holds.
pub open spec fn publishes(trace: Seq<RegistryStep>) -> nat
    decreases trace.len(),
{
    if trace.len() == 0 {
        0
    } else {
        (if trace[0] == RegistryStep::Publish {
            1nat
        } else {
            0nat
        }) + publishes(trace.drop_first())
    }
}

/// Where only the winner publishes, from initializing on there is at most
/// one publish, and the registry ends initialized exactly when there was
/// one.
pub proof fn lemma_winner_publishes_once(word: usize, trace: Seq<RegistryStep>)
    requires
        word == INITIALIZING || word == INITIALIZED,
        only_winner_publishes(word, trace),
    ensures
        publishes(trace) <= 1,
        word == INITIALIZED ==> publishes(trace) == 0,
        word_after_all(word, trace) == INITIALIZED <==> (word == INITIALIZED || publishes(trace)
            == 1),
    decreases trace.len(),
{
    if trace.len() > 0 {
        lemma_winner_publishes_once(word_after(word, trace[0]), trace.drop_first());
    }
}

/// On a fresh registry the tracker is published at most once, and every
/// reader that comes after the steps of `trace` finds it published exactly
/// when the winner has published.
pub proof fn lemma_published_by_the_winner(trace: Seq<RegistryStep>)
    requires
        only_winner_publishes(UNINITIALIZED, trace),
    ensures
        publishes(trace) <= 1,
        publishes(trace) <= winners(UNINITIALIZED, trace),
        word_after_all(UNINITIALIZED, trace) == INITIALIZED <==> publishes(trace) == 1,
    decreases trace.len(),
{
    if trace.len() > 0 && trace[0] == RegistryStep::Claim {
        lemma_winner_publishes_once(INITIALIZING, trace.drop_first());
        lemma_claimed_registry_stays_claimed(INITIALIZING, trace.drop_first());
    }
}

/// Once the tracker is published the registry stays initialized, whatever
/// steps follow.
pub proof fn lemma_initialized_is_terminal(trace: Seq<RegistryStep>)
    ensures
        word_after_all(INITIALIZED, trace) == INITIALIZED,
    decreases trace.len(),
{
    if trace.len() > 0 {
        lemma_initialized_is_terminal(trace.drop_first());
    }
}

} // verus!
