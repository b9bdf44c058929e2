use journald_broker::args::{ArgError, Arguments};

fn argv(items: &[&str]) -> Vec<String> {
    items.iter().map(|s| s.to_string()).collect()
}

#[test]
fn test_args() {
    // Default arguments
    let args = Arguments::parse(&argv(&["journald_broker"])).expect("Paring argument");
    assert_eq!(args.config_dir, "/etc/journald-broker.d");
    assert_eq!(args.config_file, None);

    // Config dir
    let args = Arguments::parse(&argv(&[
        "journald_broker",
        "--config-dir",
        "/etc/journald-broker2.d",
    ]))
    .expect("Paring argument");
    assert_eq!(args.config_dir, "/etc/journald-broker2.d");

    // Config dir
    let args = Arguments::parse(&argv(&["journald_broker", "-C", "/etc/journald-broker2.d"]))
        .expect("Paring argument");
    assert_eq!(args.config_dir, "/etc/journald-broker2.d");

    // Config file
    let args = Arguments::parse(&argv(&[
        "journald_broker",
        "--config-file",
        "/etc/journald-broker.d/00-some-event.conf",
    ]))
    .expect("Paring argument");
    assert_eq!(
        args.config_file,
        Some("/etc/journald-broker.d/00-some-event.conf".to_string())
    );

    // Config file
    let args = Arguments::parse(&argv(&[
        "journald_broker",
        "-c",
        "/etc/journald-broker.d/00-some-event.conf",
    ]))
    .expect("Paring argument");
    assert_eq!(
        args.config_file,
        Some("/etc/journald-broker.d/00-some-event.conf".to_string())
    );
}

#[test]
fn unknown_argument_is_rejected() {
    let r = Arguments::parse(&argv(&["journald_broker", "--no-such-option"]));
    assert!(matches!(r, Err(ArgError::UnknownArgument(a)) if a == "--no-such-option"));
}

#[test]
fn option_without_value_is_rejected() {
    let r = Arguments::parse(&argv(&["journald_broker", "-C"]));
    assert!(matches!(r, Err(ArgError::MissingValue(a)) if a == "-C"));

    let r = Arguments::parse(&argv(&["journald_broker", "--config-file"]));
    assert!(matches!(r, Err(ArgError::MissingValue(a)) if a == "--config-file"));
}

#[test]
fn later_occurrence_wins() {
    let args = Arguments::parse(&argv(&[
        "journald_broker",
        "-C",
        "/etc/one.d",
        "--config-dir",
        "/etc/two.d",
    ]))
    .expect("Paring argument");
    assert_eq!(args.config_dir, "/etc/two.d");
}
