use capto::flags::{all, is_enabled, CONTROL_PLANE_METRICS, CRASH_REPORTING};

#[test]
fn registry_has_unique_names() {
    let names: Vec<&str> = all().iter().map(|f| f.name).collect();
    let mut sorted = names.clone();
    sorted.sort_unstable();
    sorted.dedup();
    assert_eq!(names.len(), sorted.len(), "flag names must be unique");
}

#[test]
fn defaults_apply_when_unset() {
    let none: Vec<String> = Vec::new();
    assert!(is_enabled(&none, &none, CONTROL_PLANE_METRICS));
    assert!(is_enabled(&none, &none, CRASH_REPORTING));
    assert!(!is_enabled(&none, &none, "no-such-flag"));
}

#[test]
fn explicit_lists_override_defaults() {
    let none: Vec<String> = Vec::new();
    let disabled = vec![CONTROL_PLANE_METRICS.to_string()];
    assert!(!is_enabled(&disabled, &none, CONTROL_PLANE_METRICS));
    let disabled2 = vec![CRASH_REPORTING.to_string()];
    assert!(is_enabled(&disabled2, &none, CONTROL_PLANE_METRICS));
}

#[test]
fn disabled_wins_over_enabled() {
    let both = vec![CRASH_REPORTING.to_string()];
    assert!(!is_enabled(&both, &both, CRASH_REPORTING));
}

#[test]
fn enabled_list_turns_on_unknown_flag() {
    let none: Vec<String> = Vec::new();
    let enabled = vec!["experimental".to_string()];
    assert!(is_enabled(&none, &enabled, "experimental"));
}
