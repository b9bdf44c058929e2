use journald_broker::settings::{default_true, Event, Global, DEFAULT_SCRIPT_TIMEOUT};

#[test]
fn wait_flag_defaults_to_true() {
    assert_eq!(default_true(), Some(true));
}

#[test]
fn default_timeout_is_twenty_seconds() {
    assert_eq!(DEFAULT_SCRIPT_TIMEOUT, 20);
}

#[test]
fn effective_timeout_follows_the_wait_flag() {
    let waiting = Event {
        message: "regex-1".to_string(),
        next_watch_delay: None,
        script: "script-1".to_string(),
        script_wait: Some(true),
    };
    assert_eq!(waiting.effective_timeout(Some(20)), Some(20));

    let unset = Event { script_wait: None, ..waiting.clone() };
    assert_eq!(unset.effective_timeout(Some(20)), Some(20));

    let fire_and_forget = Event { script_wait: Some(false), ..waiting.clone() };
    assert_eq!(fire_and_forget.effective_timeout(Some(20)), None);

    assert_eq!(waiting.effective_timeout(None), None);
}

#[test]
fn global_sections_compare_by_contents() {
    let a = Global { filters: Some(vec!["_TRANSPORT=kernel".to_string()]), script_timeout: Some(20) };
    let b = Global { filters: Some(vec!["_TRANSPORT=kernel".to_string()]), script_timeout: Some(20) };
    let c = Global { filters: None, script_timeout: Some(10) };
    assert_eq!(a, b);
    assert_ne!(a, c);
}
