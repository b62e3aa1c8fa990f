use kemuri::clock::{Clock, FakeClock, RealClock};
use kemuri::ids::{CheckId, ConfigGeneration, IdParseError, ProfileId, RoundId, TargetId};
use kemuri::kinds::{AlertEventKind, AlertState, ProbeKind};
use kemuri::percentage::{Percentage, PercentageParseError};
use std::time::Duration;

#[test]
fn valid_target_id() {
    let id = TargetId::new("my-target_1.0").unwrap();
    assert_eq!(id.as_str(), "my-target_1.0");
}

#[test]
fn reject_empty_id() {
    assert!(TargetId::new("").is_err());
}

#[test]
fn reject_too_long_id() {
    let long = "a".repeat(65);
    assert!(TargetId::new(&long).is_err());
}

#[test]
fn reject_uppercase_id() {
    assert!(TargetId::new("MyTarget").is_err());
}

#[test]
fn reject_special_chars_id() {
    assert!(TargetId::new("my@target").is_err());
}

#[test]
fn max_length_id() {
    let s = "a".repeat(64);
    assert!(TargetId::new(&s).is_ok());
}

#[test]
fn from_str_roundtrip() {
    let id: TargetId = "hello-world".parse().unwrap();
    assert_eq!(id.to_string(), "hello-world");
}

#[test]
fn id_error_messages() {
    assert_eq!(
        TargetId::new(""),
        Err(IdParseError {
            message: "TargetId must be 1-64 characters, got 0".to_string()
        })
    );
    assert_eq!(
        CheckId::new("Bad"),
        Err(IdParseError {
            message: "CheckId contains invalid characters: only lowercase ASCII letters, digits, '.', '_', '-' are allowed"
                .to_string()
        })
    );
    let long = "é".repeat(33);
    assert_eq!(
        ProfileId::new(&long).unwrap_err().message,
        "ProfileId must be 1-64 characters, got 66"
    );
}

#[test]
fn generation_and_round_ids() {
    assert_eq!(ConfigGeneration::new("Anything Goes").as_str(), "Anything Goes");
    assert_eq!(RoundId::new(-7).value(), -7);
}

#[test]
fn valid_percentage() {
    let p: Percentage = "10%".parse().unwrap();
    assert_eq!(p.value(), 10);
}

#[test]
fn zero_percentage() {
    let p: Percentage = "0%".parse().unwrap();
    assert_eq!(p.value(), 0);
}

#[test]
fn hundred_percentage() {
    let p: Percentage = "100%".parse().unwrap();
    assert_eq!(p.value(), 100);
}

#[test]
fn over_hundred() {
    assert!(Percentage::new(101).is_err());
    assert!("101%".parse::<Percentage>().is_err());
}

#[test]
fn missing_percent_sign() {
    assert!("50".parse::<Percentage>().is_err());
}

#[test]
fn display() {
    let p = Percentage::new(75).unwrap();
    assert_eq!(p.to_string(), "75%");
}

#[test]
fn percentage_error_variants() {
    assert_eq!(Percentage::parse("  "), Err(PercentageParseError::Empty));
    assert_eq!(
        Percentage::parse("50"),
        Err(PercentageParseError::MissingPercent("50".to_string()))
    );
    assert_eq!(
        Percentage::parse("x%"),
        Err(PercentageParseError::InvalidNumber("x".to_string()))
    );
    assert_eq!(
        Percentage::parse("300%"),
        Err(PercentageParseError::InvalidNumber("300".to_string()))
    );
    assert_eq!(Percentage::parse("150%"), Err(PercentageParseError::OutOfRange(150)));
    assert_eq!(Percentage::parse(" 42% ").unwrap().value(), 42);
}

#[test]
fn real_clock_advances() {
    let clock = RealClock;
    let t1 = clock.now();
    let t2 = clock.now();
    assert!(t2 >= t1);
}

#[test]
fn fake_clock_advance() {
    let mut clock = FakeClock::new();
    let t1 = clock.now();
    clock.advance(Duration::from_millis(100));
    let t2 = clock.now();
    assert!(t2.duration_since(t1) >= Duration::from_millis(100));
}

#[test]
fn fake_clock_system_time() {
    let mut clock = FakeClock::new();
    let t1 = clock.system_time();
    clock.advance(Duration::from_secs(60));
    let t2 = clock.system_time();
    assert!(t2.duration_since(t1).unwrap() >= Duration::from_secs(60));
}

#[test]
fn fake_clock_offset_accumulates() {
    let mut clock = FakeClock::new();
    assert_eq!(clock.offset(), Duration::ZERO);
    clock.advance(Duration::from_millis(1500));
    clock.advance(Duration::from_millis(500));
    assert_eq!(clock.offset(), Duration::from_secs(2));
}

#[test]
fn alert_state_display() {
    assert_eq!(AlertState::Normal.to_string(), "normal");
    assert_eq!(AlertState::PendingFire.to_string(), "pending_fire");
    assert_eq!(AlertState::Firing.to_string(), "firing");
    assert_eq!(AlertState::PendingClear.to_string(), "pending_clear");
}

#[test]
fn alert_event_kind_display() {
    assert_eq!(AlertEventKind::Firing.to_string(), "firing");
    assert_eq!(AlertEventKind::Resolved.to_string(), "resolved");
}

#[test]
fn probe_kind_names_roundtrip() {
    for k in [ProbeKind::Icmp, ProbeKind::Http, ProbeKind::Tcp, ProbeKind::Dns] {
        let parsed: ProbeKind = k.to_string().parse().unwrap();
        assert_eq!(parsed, k);
    }
    assert_eq!(
        ProbeKind::parse("udp"),
        Err("unknown probe kind: udp".to_string())
    );
}

#[test]
fn fake_clock_moves_by_exactly_the_advance() {
    let mut clock = FakeClock::new();
    let t1 = clock.now();
    let s1 = clock.system_time();
    assert_eq!(clock.now(), t1);
    assert_eq!(clock.system_time(), s1);
    clock.advance(Duration::from_millis(100));
    assert_eq!(clock.now(), t1 + Duration::from_millis(100));
    assert_eq!(clock.system_time(), s1 + Duration::from_millis(100));
}
