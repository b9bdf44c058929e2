use journald_broker::rules::RuleSet;

fn patterns(items: &[&str]) -> Vec<String> {
    items.iter().map(|s| s.to_string()).collect()
}

#[test]
fn single_pattern_matches_inside_text() {
    let set = RuleSet::compile(&patterns(&["disk failure"])).unwrap();
    assert_eq!(set.find_all("disk failure detected on sda"), vec![0]);
    assert_eq!(set.find_all("all healthy"), Vec::<usize>::new());
}

#[test]
fn every_matching_rule_fires_and_no_other() {
    let set = RuleSet::compile(&patterns(&[
        "disk",
        "failure",
        "network",
        "disk failure",
        "^failure",
    ]))
    .unwrap();
    // Set semantics: all matching indices, ascending, none missed,
    // none extra.
    assert_eq!(set.find_all("disk failure detected"), vec![0, 1, 3]);
    assert_eq!(set.find_all("network is down"), vec![2]);
    assert_eq!(set.find_all("failure at start"), vec![1, 4]);
    assert_eq!(set.find_all("quiet"), Vec::<usize>::new());
}

#[test]
fn regex_syntax_is_honoured() {
    let set = RuleSet::compile(&patterns(&[r"xhci_hcd 0000:04:00\.0: WARN"])).unwrap();
    assert_eq!(
        set.find_all("xhci_hcd 0000:04:00.0: WARN waiting for error on ep to be cleared"),
        vec![0]
    );
    assert_eq!(set.find_all("xhci_hcd 0000:04:00x0: WARN"), Vec::<usize>::new());
}

#[test]
fn bad_pattern_fails_compilation() {
    let r = RuleSet::compile(&patterns(&["valid", "(unclosed"]));
    assert!(r.is_err());
    let e = r.err().unwrap();
    assert!(!e.describe().is_empty());
}
