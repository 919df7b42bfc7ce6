use mavlink_dump::filter::{build_message_filter, should_display};

#[test]
fn absent_filter_allows_every_name() {
    let filter = build_message_filter(None);
    assert!(filter.is_none());
    assert!(should_display(&filter, "HEARTBEAT"));
    assert!(should_display(&filter, "ATTITUDE"));
    assert!(should_display(&filter, "TOTALLY_SYNTHETIC_NAME"));
    assert!(should_display(&filter, ""));
}

#[test]
fn present_filter_admits_exactly_its_members() {
    let filter = build_message_filter(Some(vec![String::from("HEARTBEAT")]));
    assert!(filter.is_some());
    assert!(should_display(&filter, "HEARTBEAT"));
    assert!(!should_display(&filter, "ATTITUDE"));
}

#[test]
fn present_but_empty_filter_rejects_every_name() {
    let filter = build_message_filter(Some(Vec::new()));
    assert!(filter.is_some());
    assert!(!should_display(&filter, "HEARTBEAT"));
    assert!(!should_display(&filter, "ATTITUDE"));
    assert!(!should_display(&filter, ""));
}

#[test]
fn names_are_trimmed_and_upper_cased() {
    let filter = build_message_filter(Some(vec![
        String::from("  heartbeat "),
        String::from("Attitude"),
    ]));
    assert!(should_display(&filter, "HEARTBEAT"));
    assert!(should_display(&filter, "ATTITUDE"));
    assert!(!should_display(&filter, "heartbeat"));
    assert!(!should_display(&filter, "PARAM_VALUE"));
}

#[test]
fn duplicate_names_collapse() {
    let filter = build_message_filter(Some(vec![
        String::from("HEARTBEAT"),
        String::from("heartbeat"),
        String::from(" HEARTBEAT"),
    ]));
    assert!(should_display(&filter, "HEARTBEAT"));
    assert!(!should_display(&filter, "ATTITUDE"));
}
