//! Tests of the closed-enumeration wire tokens.

use vda5050::action::BlockingType;
use vda5050::action::value_eq;
use vda5050::common::Bits32;
use vda5050::common::ControlPoint;
use vda5050::common::Trajectory;
use vda5050::common::trajectory_eq;
use vda5050::common::Timestamp;
use vda5050::connection::ConnectionState;
use vda5050::factsheet::AgvClass;
use vda5050::factsheet::AgvKinematic;
use vda5050::factsheet::Support;
use vda5050::order::OrientationType;
use vda5050::state::ActionStatus;
use vda5050::state::EStop;
use vda5050::state::ErrorLevel;
use vda5050::state::InfoLevel;
use vda5050::state::OperatingMode;
use vda5050::value::ActionParameterValue;
use vda5050::value::ModelError;

#[test]
fn blocking_type_tokens_roundtrip() {
    for b in [BlockingType::NoBlocking, BlockingType::Soft, BlockingType::Hard] {
        assert_eq!(BlockingType::from_token(b.token()), Ok(b));
    }
    assert_eq!(BlockingType::Hard.token(), "HARD");
    assert_eq!(BlockingType::NoBlocking.token(), "NONE");
    assert_eq!(BlockingType::from_token("hard"), Err(ModelError::InvalidEnumValue));
    assert_eq!(BlockingType::from_token(""), Err(ModelError::InvalidEnumValue));
}

#[test]
fn connection_state_tokens_roundtrip() {
    for c in [
        ConnectionState::Online,
        ConnectionState::Offline,
        ConnectionState::ConnectionBroken,
    ] {
        assert_eq!(ConnectionState::from_token(c.token()), Ok(c));
    }
    assert_eq!(ConnectionState::ConnectionBroken.token(), "CONNECTIONBROKEN");
    assert_eq!(
        ConnectionState::from_token("DISCONNECTED"),
        Err(ModelError::InvalidEnumValue)
    );
}

#[test]
fn action_status_tokens_roundtrip() {
    for s in [
        ActionStatus::Waiting,
        ActionStatus::Initializing,
        ActionStatus::Paused,
        ActionStatus::Running,
        ActionStatus::Finished,
        ActionStatus::Failed,
    ] {
        assert_eq!(ActionStatus::from_token(s.token()), Ok(s));
    }
    assert_eq!(ActionStatus::from_token("DONE"), Err(ModelError::InvalidEnumValue));
}

#[test]
fn operating_mode_tokens_roundtrip() {
    for m in [
        OperatingMode::Automatic,
        OperatingMode::Semiautomatic,
        OperatingMode::Manual,
        OperatingMode::Service,
        OperatingMode::Teachin,
    ] {
        assert_eq!(OperatingMode::from_token(m.token()), Ok(m));
    }
    assert_eq!(OperatingMode::from_token("AUTO"), Err(ModelError::InvalidEnumValue));
}

#[test]
fn level_tokens_roundtrip() {
    for l in [ErrorLevel::Warning, ErrorLevel::Fatal] {
        assert_eq!(ErrorLevel::from_token(l.token()), Ok(l));
    }
    for l in [InfoLevel::Info, InfoLevel::Debug] {
        assert_eq!(InfoLevel::from_token(l.token()), Ok(l));
    }
    assert_eq!(ErrorLevel::from_token("INFO"), Err(ModelError::InvalidEnumValue));
    assert_eq!(InfoLevel::from_token("FATAL"), Err(ModelError::InvalidEnumValue));
}

#[test]
fn e_stop_tokens_roundtrip() {
    for e in [EStop::Autoack, EStop::Manual, EStop::Remote, EStop::Inactive] {
        assert_eq!(EStop::from_token(e.token()), Ok(e));
    }
    assert_eq!(EStop::Inactive.token(), "NONE");
    assert_eq!(EStop::from_token("ESTOP"), Err(ModelError::InvalidEnumValue));
}

#[test]
fn orientation_type_tokens_roundtrip() {
    for t in [OrientationType::Global, OrientationType::Tangential] {
        assert_eq!(OrientationType::from_token(t.token()), Ok(t));
    }
    assert_eq!(OrientationType::default(), OrientationType::Tangential);
    assert_eq!(
        OrientationType::from_token("RELATIVE"),
        Err(ModelError::InvalidEnumValue)
    );
}

#[test]
fn factsheet_tokens_roundtrip() {
    for k in [AgvKinematic::Diff, AgvKinematic::Omni, AgvKinematic::ThreeWheel] {
        assert_eq!(AgvKinematic::from_token(k.token()), Ok(k));
    }
    assert_eq!(AgvKinematic::ThreeWheel.token(), "THREEWHEEL");
    for c in [AgvClass::Forklift, AgvClass::Conveyor, AgvClass::Tugger, AgvClass::Carrier] {
        assert_eq!(AgvClass::from_token(c.token()), Ok(c));
    }
    assert_eq!(AgvClass::Forklift.token(), "FORKLIFT");
    for s in [Support::Supported, Support::Required] {
        assert_eq!(Support::from_token(s.token()), Ok(s));
    }
    assert_eq!(AgvClass::from_token("forklift"), Err(ModelError::InvalidEnumValue));
}

#[test]
fn timestamp_bounds_nanoseconds() {
    let t = Timestamp::new(1492256403, 120_000_000).unwrap();
    assert_eq!(t.seconds, 1492256403);
    assert_eq!(t.nanos, 120_000_000);
    assert!(Timestamp::new(0, 999_999_999).is_some());
    assert!(Timestamp::new(0, 1_000_000_000).is_none());
    assert!(Timestamp::new(-1, 0).is_some());
}

#[test]
fn content_equality_follows_the_values() {
    let a = ActionParameterValue::String("left".to_string());
    let b = ActionParameterValue::String("left".to_string());
    let c = ActionParameterValue::String("right".to_string());
    assert!(value_eq(&a, &b));
    assert!(!value_eq(&a, &c));
    assert!(!value_eq(&a, &ActionParameterValue::Null));
    assert!(value_eq(
        &ActionParameterValue::Integer(7),
        &ActionParameterValue::Integer(7),
    ));
    assert!(!value_eq(
        &ActionParameterValue::Integer(7),
        &ActionParameterValue::Integer(8),
    ));
}

#[test]
fn trajectory_equality_is_deep() {
    let p = ControlPoint { x: Bits32(1), y: Bits32(2), weight: None, orientation: None };
    let a = Trajectory { degree: 1, knot_vector: vec![Bits32(0), Bits32(1)], control_points: vec![p] };
    let b = Trajectory { degree: 1, knot_vector: vec![Bits32(0), Bits32(1)], control_points: vec![p] };
    let mut c = Trajectory { degree: 1, knot_vector: vec![Bits32(0), Bits32(1)], control_points: vec![p] };
    c.control_points[0].x = Bits32(9);
    assert!(trajectory_eq(&a, &b));
    assert!(!trajectory_eq(&a, &c));
}

#[test]
fn absent_required_field_is_reported() {
    assert_eq!(
        vda5050::value::require_field::<u64>(None),
        Err(ModelError::MissingRequiredField)
    );
    assert_eq!(vda5050::value::require_field(Some(7u64)), Ok(7));
}
