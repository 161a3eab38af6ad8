use orbflow::trigger::{TriggerConfig, TriggerType, CANONICAL_TRIGGER_TYPES};
use std::str::FromStr;

#[test]
fn trigger_type_serializes_canonical_schedule() {
    let json = serde_json::to_string(TriggerType::Schedule.as_str()).unwrap();
    assert_eq!(json, r#""schedule""#);
}

#[test]
fn trigger_type_accepts_legacy_cron_alias() {
    let wire: String = serde_json::from_str(r#""cron""#).unwrap();
    let parsed = TriggerType::from_str(&wire).unwrap();
    assert_eq!(parsed, TriggerType::Schedule);
    assert!(TriggerType::is_legacy_alias("cron"));
}

#[test]
fn trigger_type_rejects_unknown_values() {
    let wire: String = serde_json::from_str(r#""timer""#).unwrap();
    let err = TriggerType::from_str(&wire).unwrap_err();
    assert!(err.to_string().contains("timer"));
}

#[test]
fn canonical_names_parse_back() {
    let all = [
        TriggerType::Manual,
        TriggerType::Event,
        TriggerType::Schedule,
        TriggerType::Webhook,
    ];
    for (t, name) in all.iter().zip(CANONICAL_TRIGGER_TYPES) {
        assert_eq!(t.as_str(), name);
        assert_eq!(t.to_string(), name);
        assert_eq!(TriggerType::parse_wire(name), Some(*t));
        assert!(!TriggerType::is_legacy_alias(name));
    }
    assert_eq!(TriggerType::parse_wire("Manual"), None);
}

#[test]
fn a_default_trigger_config_is_empty() {
    let config = TriggerConfig::default();
    assert!(config.cron.is_none() && config.event_name.is_none() && config.path.is_none());
}
