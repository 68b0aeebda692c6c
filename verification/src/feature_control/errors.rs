//! The closed set of errors that the feature tracker returns.
use vstd::prelude::*;
use vstd::std_specs::convert::FromSpecImpl;
use vstd::string::StringExecFns;

verus! {

/// Error returned when the type tracked by the global tracker doesn't match
/// the type used asserting the state of a feature. It holds the name of the
/// state type that was expected.
#[derive(Debug)]
pub struct BadCastError(pub String);

/// Error returned when setting the global tracker fails.
#[derive(Debug)]
pub enum SetGlobalTrackerError {
    /// Another registration came first.
    GlobalTrackerAlreadySet,
    /// The tracker was registered, but its state is not of the expected type.
    BadCast(BadCastError),
}

/// Error returned when the state of a feature could not be determined.
#[derive(Debug)]
pub enum FeatureEnabledError {
    /// No tracker has been registered yet.
    NoGlobalTracker,
    /// The registered tracker's state is not of the expected type.
    BadCast(BadCastError),
}

/// What `{:?}` prints for a [`BadCastError`] that holds `expected`.
pub uninterp spec fn bad_cast_debug(expected: Seq<char>) -> Seq<char>;

/// `format!` with `{:?}` on the error: the text that the derived `Debug`
/// prints, a function of the type name that the error holds.
#[verifier::external_body]
fn debug_text(error: &BadCastError) -> (text: String)
    ensures
        text@ == bad_cast_debug(error.0@),
{
    format!("{:?}", error)
}

pub open spec fn bad_cast_message(expected: Seq<char>) -> Seq<char> {
    "Expected global state type `"@ + expected
        + "`. This should be unreachable! The tracker's state type shouldn't vary"@
}

pub open spec fn already_set_message() -> Seq<char> {
    "A global tracker has already been set. `set_global_tracker` cannot be called multiple times"@
}

pub open spec fn no_tracker_message() -> Seq<char> {
    "No global tracker was set. `set_global_tracker` must be called first"@
}

impl BadCastError {
    /// The name of the state type that was expected.
    pub open spec fn expected(&self) -> Seq<char> {
        self.0@
    }

    /// The error as a sentence.
    pub fn message(&self) -> (text: String)
        ensures
            text@ == bad_cast_message(self.expected()),
    {
        let mut text = String::from_str("Expected global state type `");
        text.append(self.0.as_str());
        text.append("`. This should be unreachable! The tracker's state type shouldn't vary");
        text
    }
}

impl SetGlobalTrackerError {
    /// Holds of the error that reports a state that is not an `expected`.
    pub open spec fn bad_cast_of(&self, expected: Seq<char>) -> bool {
        self matches SetGlobalTrackerError::BadCast(e) && e.expected() == expected
    }

    /// What the error's message is.
    pub open spec fn message_spec(&self) -> Seq<char> {
        match self {
            SetGlobalTrackerError::GlobalTrackerAlreadySet => already_set_message(),
            SetGlobalTrackerError::BadCast(e) => bad_cast_debug(e.expected()),
        }
    }

    /// The error as a sentence.
    pub fn message(&self) -> (text: String)
        ensures
            text@ == self.message_spec(),
    {
        match self {
            SetGlobalTrackerError::GlobalTrackerAlreadySet => String::from_str(
                "A global tracker has already been set. `set_global_tracker` cannot be called multiple times",
            ),
            SetGlobalTrackerError::BadCast(e) => debug_text(e),
        }
    }
}

impl FeatureEnabledError {
    /// Holds of the error that reports a state that is not an `expected`.
    pub open spec fn bad_cast_of(&self, expected: Seq<char>) -> bool {
        self matches FeatureEnabledError::BadCast(e) && e.expected() == expected
    }

    /// What the error's message is.
    pub open spec fn message_spec(&self) -> Seq<char> {
        match self {
            FeatureEnabledError::NoGlobalTracker => no_tracker_message(),
            FeatureEnabledError::BadCast(e) => bad_cast_debug(e.expected()),
        }
    }

    /// The error as a sentence.
    pub fn message(&self) -> (text: String)
        ensures
            text@ == self.message_spec(),
    {
        match self {
            FeatureEnabledError::NoGlobalTracker => String::from_str(
                "No global tracker was set. `set_global_tracker` must be called first",
            ),
            FeatureEnabledError::BadCast(e) => debug_text(e),
        }
    }
}

impl From<BadCastError> for SetGlobalTrackerError {
    fn from(error: BadCastError) -> (wrapped: SetGlobalTrackerError) {
        SetGlobalTrackerError::BadCast(error)
    }
}

impl FromSpecImpl<BadCastError> for SetGlobalTrackerError {
    open spec fn obeys_from_spec() -> bool {
        true
    }

    open spec fn from_spec(error: BadCastError) -> SetGlobalTrackerError {
        SetGlobalTrackerError::BadCast(error)
    }
}

impl From<BadCastError> for FeatureEnabledError {
    fn from(error: BadCastError) -> (wrapped: FeatureEnabledError) {
        FeatureEnabledError::BadCast(error)
    }
}

impl FromSpecImpl<BadCastError> for FeatureEnabledError {
    open spec fn obeys_from_spec() -> bool {
        true
    }

    open spec fn from_spec(error: BadCastError) -> FeatureEnabledError {
        FeatureEnabledError::BadCast(error)
    }
}

} // verus!
