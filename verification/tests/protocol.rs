use conspiracy::feature_control::claim_outcome;
use conspiracy::feature_control::protocol::is_published;
use conspiracy::feature_control::protocol::phase_of;
use conspiracy::feature_control::protocol::TrackerPhase;
use conspiracy::feature_control::validation_outcome;
use conspiracy::feature_control::SetGlobalTrackerError;
use conspiracy::feature_control::INITIALIZED;
use conspiracy::feature_control::INITIALIZING;
use conspiracy::feature_control::UNINITIALIZED;

#[test]
fn phase_words_stand_for_the_three_phases() {
    assert_eq!(0, UNINITIALIZED);
    assert_eq!(1, INITIALIZING);
    assert_eq!(2, INITIALIZED);
    assert_eq!(Some(TrackerPhase::Uninitialized), phase_of(0));
    assert_eq!(Some(TrackerPhase::Initializing), phase_of(1));
    assert_eq!(Some(TrackerPhase::Initialized), phase_of(2));
    assert_eq!(None, phase_of(3));
    assert!(!is_published(UNINITIALIZED));
    assert!(!is_published(INITIALIZING));
    assert!(is_published(INITIALIZED));
}

#[test]
fn only_the_successful_exchange_claims_the_registry() {
    assert!(claim_outcome(Ok(UNINITIALIZED)).is_ok());
    assert!(matches!(
        claim_outcome(Err(INITIALIZING)),
        Err(SetGlobalTrackerError::GlobalTrackerAlreadySet)
    ));
    assert!(matches!(
        claim_outcome(Err(INITIALIZED)),
        Err(SetGlobalTrackerError::GlobalTrackerAlreadySet)
    ));
    assert_eq!(
        "A global tracker has already been set. `set_global_tracker` cannot be called multiple times",
        SetGlobalTrackerError::GlobalTrackerAlreadySet.message()
    );
}

#[test]
fn validation_reports_the_expected_type() {
    assert!(validation_outcome(true, "FeaturesState".to_string()).is_ok());
    match validation_outcome(false, "FeaturesState".to_string()) {
        Err(SetGlobalTrackerError::BadCast(error)) => {
            assert_eq!("FeaturesState", error.0);
            assert_eq!(
                "BadCastError(\"FeaturesState\")",
                SetGlobalTrackerError::BadCast(error).message()
            );
        }
        other => panic!("expected a bad cast, got {:?}", other),
    }
}
