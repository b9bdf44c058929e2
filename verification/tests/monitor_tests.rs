use journald_broker::fields::{from_json, to_json, StrMap};
use journald_broker::monitor::{parse_filter, Monitor};
use journald_broker::script::{ExecEvent, ExitInfo, RunOutcome};
use journald_broker::settings::{Event, Global};

const SECOND: u64 = 1_000_000_000;

fn record(fields: &[(&str, &str)]) -> StrMap {
    let mut m = StrMap::new();
    for (k, v) in fields {
        m.insert(k.to_string(), v.to_string());
    }
    m
}

fn one_rule(name: &str, pattern: &str, delay: Option<u64>, script: &str, timeout: Option<u64>) -> Monitor {
    let global = Global { filters: None, script_timeout: timeout };
    let events = vec![(
        name.to_string(),
        Event {
            message: pattern.to_string(),
            next_watch_delay: delay,
            script: script.to_string(),
            script_wait: Some(true),
        },
    )];
    Monitor::new(Some(global), events).unwrap()
}

// Scenario: one rule, no debounce, a 5 s timeout; a matching record
// dispatches the script, and a natural exit 0 is reported without
// error.
#[test]
fn matching_record_dispatches_script() {
    let mut monitor = one_rule("error-1", "disk failure", None, "/bin/true", Some(5));
    let entry = record(&[("MESSAGE", "disk failure detected on sda"), ("PRIORITY", "3")]);

    let fired = monitor.handle_record(&entry, SECOND);
    assert_eq!(fired, vec![0]);
    assert_eq!(monitor.event_name(0).as_str(), "error-1");

    let script = monitor.take_pending().unwrap();
    assert_eq!(script.path().as_str(), "/bin/true");
    assert_eq!(script.timeout(), Some(5));
    assert_eq!(
        script.env("JNB_MESSAGE").unwrap().as_str(),
        "disk failure detected on sda"
    );
    assert!(script.env("JNB_JSON").is_some());
    assert!(monitor.take_pending().is_none());

    let out = script.conclude(ExecEvent::Exited(ExitInfo::Code(0)));
    assert!(matches!(out, RunOutcome::Completed(ExitInfo::Code(0))));
    assert!(!out.is_error());
}

#[test]
fn non_matching_record_dispatches_nothing() {
    let mut monitor = one_rule("error-1", "disk failure", None, "/bin/true", Some(5));
    let entry = record(&[("MESSAGE", "all healthy")]);
    let fired = monitor.handle_record(&entry, SECOND);
    assert!(fired.is_empty());
    assert_eq!(monitor.pending_len(), 0);
}

#[test]
fn record_without_message_is_skipped() {
    let mut monitor = one_rule("error-1", "disk failure", None, "/bin/true", Some(5));
    let entry = record(&[("PRIORITY", "3"), ("_TRANSPORT", "kernel")]);
    let fired = monitor.handle_record(&entry, SECOND);
    assert!(fired.is_empty());
    assert_eq!(monitor.pending_len(), 0);
}

// Scenario: a rule with a 60 s debounce window; two matching records
// 10 s apart. The first fires and dispatches, the second is
// suppressed and dispatches nothing.
#[test]
fn debounced_rule_fires_once() {
    let mut monitor = one_rule("flaky", "flap", Some(60 * SECOND), "/usr/local/bin/calm.sh", Some(20));
    let entry = record(&[("MESSAGE", "link flap on eth0")]);

    let t1 = 100 * SECOND;
    assert_eq!(monitor.handle_record(&entry, t1), vec![0]);
    assert_eq!(monitor.pending_len(), 1);

    let t2 = t1 + 10 * SECOND;
    assert!(monitor.handle_record(&entry, t2).is_empty());
    assert_eq!(monitor.pending_len(), 1);

    // Past the window it fires again.
    let t3 = t1 + 61 * SECOND;
    assert_eq!(monitor.handle_record(&entry, t3), vec![0]);
    assert_eq!(monitor.pending_len(), 2);
}

#[test]
fn each_matching_rule_fires_independently() {
    let global = Global { filters: None, script_timeout: Some(10) };
    let events = vec![
        (
            "disk".to_string(),
            Event {
                message: "disk".to_string(),
                next_watch_delay: None,
                script: "/bin/disk.sh".to_string(),
                script_wait: Some(true),
            },
        ),
        (
            "net".to_string(),
            Event {
                message: "network".to_string(),
                next_watch_delay: None,
                script: "/bin/net.sh".to_string(),
                script_wait: Some(true),
            },
        ),
        (
            "failure".to_string(),
            Event {
                message: "failure".to_string(),
                next_watch_delay: None,
                script: "/bin/failure.sh".to_string(),
                script_wait: Some(true),
            },
        ),
    ];
    let mut monitor = Monitor::new(Some(global), events).unwrap();
    let entry = record(&[("MESSAGE", "disk failure detected")]);
    let fired = monitor.handle_record(&entry, SECOND);
    assert_eq!(fired, vec![0, 2]);
    // Dispatch order follows rule order.
    assert_eq!(monitor.take_pending().unwrap().path().as_str(), "/bin/disk.sh");
    assert_eq!(monitor.take_pending().unwrap().path().as_str(), "/bin/failure.sh");
}

#[test]
fn fire_and_forget_rule_gets_no_timeout() {
    let global = Global { filters: None, script_timeout: Some(10) };
    let events = vec![(
        "bg".to_string(),
        Event {
            message: "slow".to_string(),
            next_watch_delay: None,
            script: "/bin/slow.sh".to_string(),
            script_wait: Some(false),
        },
    )];
    let mut monitor = Monitor::new(Some(global), events).unwrap();
    let entry = record(&[("MESSAGE", "slow request")]);
    monitor.handle_record(&entry, SECOND);
    let script = monitor.take_pending().unwrap();
    assert_eq!(script.timeout(), None);
}

#[test]
fn bad_pattern_fails_monitor_construction() {
    let global = Global { filters: None, script_timeout: Some(20) };
    let events = vec![(
        "broken".to_string(),
        Event {
            message: "(unclosed".to_string(),
            next_watch_delay: None,
            script: "/bin/true".to_string(),
            script_wait: Some(true),
        },
    )];
    assert!(Monitor::new(Some(global), events).is_err());
}

// Scenario: a malformed filter string is warned about and skipped;
// the monitor still comes up, with no filters applied.
#[test]
fn malformed_filter_is_skipped_not_fatal() {
    let global = Global {
        filters: Some(vec!["bad-filter-no-equals".to_string()]),
        script_timeout: Some(20),
    };
    let events = vec![(
        "error-1".to_string(),
        Event {
            message: "disk failure".to_string(),
            next_watch_delay: None,
            script: "/bin/true".to_string(),
            script_wait: Some(true),
        },
    )];
    let mut monitor = Monitor::new(Some(global), events).unwrap();
    let (applied, rejected) = monitor.journal_filters();
    assert!(applied.is_empty());
    assert_eq!(rejected, vec!["bad-filter-no-equals".to_string()]);

    // The monitor still watches.
    let entry = record(&[("MESSAGE", "disk failure on sdb")]);
    assert_eq!(monitor.handle_record(&entry, SECOND), vec![0]);
}

#[test]
fn filters_split_on_the_single_equals_sign() {
    let kv = parse_filter("_TRANSPORT=kernel").unwrap();
    assert_eq!(kv.0, "_TRANSPORT");
    assert_eq!(kv.1, "kernel");

    let kv = parse_filter("PRIORITY=4").unwrap();
    assert_eq!(kv.0, "PRIORITY");
    assert_eq!(kv.1, "4");

    assert!(parse_filter("bad-filter-no-equals").is_none());
    assert!(parse_filter("two=equal=signs").is_none());
    assert!(parse_filter("").is_none());
}

#[test]
fn mixed_filters_keep_order() {
    let global = Global {
        filters: Some(vec![
            "_TRANSPORT=kernel".to_string(),
            "nonsense".to_string(),
            "PRIORITY=4".to_string(),
        ]),
        script_timeout: None,
    };
    let monitor = Monitor::new(Some(global), Vec::new()).unwrap();
    let (applied, rejected) = monitor.journal_filters();
    assert_eq!(
        applied,
        vec![
            ("_TRANSPORT".to_string(), "kernel".to_string()),
            ("PRIORITY".to_string(), "4".to_string()),
        ]
    );
    assert_eq!(rejected, vec!["nonsense".to_string()]);
}

// Round trip: the JSON value a work item carries for the record
// parses back as a mapping equal to the original record.
#[test]
fn record_json_round_trips() {
    let mut monitor = one_rule("error-1", "disk failure", None, "/bin/true", Some(5));
    let entry = record(&[
        ("MESSAGE", "disk failure detected on sda"),
        ("PRIORITY", "3"),
        ("_TRANSPORT", "kernel"),
    ]);
    monitor.handle_record(&entry, SECOND);
    let script = monitor.take_pending().unwrap();
    let json_value = script.env("JNB_JSON").unwrap().clone();

    let back = from_json(&json_value).unwrap();
    assert_eq!(back.len(), entry.len());
    assert_eq!(
        back.get("MESSAGE").unwrap().as_str(),
        "disk failure detected on sda"
    );
    assert_eq!(back.get("PRIORITY").unwrap().as_str(), "3");
    assert_eq!(back.get("_TRANSPORT").unwrap().as_str(), "kernel");
}

#[test]
fn json_encoding_is_exact() {
    let mut m = StrMap::new();
    m.insert("B".to_string(), "2".to_string());
    m.insert("A".to_string(), "1".to_string());
    // Keys come out sorted, values quoted and escaped.
    assert_eq!(to_json(&m), "{\"A\":\"1\",\"B\":\"2\"}");

    let empty = StrMap::new();
    assert_eq!(to_json(&empty), "{}");
    assert!(from_json("not json at all").is_none());
}
