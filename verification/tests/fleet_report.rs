use kaspa_miner::fleet::{
    check_fleet, clean_reply_text, count_online, eq_ignore_case, fmt_fan, fmt_u64, fmt_uptime,
    is_online, model_or_unknown, pick_pool_row, port_status, share_total, truncate, FleetError,
};

#[test]
fn port_words() {
    assert_eq!(port_status(Some(true)), "up");
    assert_eq!(port_status(Some(false)), "down");
    assert_eq!(port_status(None), "-");
}

#[test]
fn truncation_keeps_width() {
    assert_eq!(truncate("abcdef", 4), "abc.");
    assert_eq!(truncate("abcd", 4), "abcd");
    assert_eq!(truncate("abc", 0), ".");
    assert_eq!(truncate("ümlautß", 3), "üm.");
}

#[test]
fn counters_and_uptime() {
    assert_eq!(fmt_fan(Some(6120)), "6120");
    assert_eq!(fmt_fan(None), "-");
    assert_eq!(fmt_u64(Some(0)), "0");
    assert_eq!(fmt_uptime(Some(200_000)), "2d7h");
    assert_eq!(fmt_uptime(Some(3_599)), "0h");
    assert_eq!(fmt_uptime(Some(7_200)), "2h");
    assert_eq!(fmt_uptime(None), "-");
}

#[test]
fn fleet_checks_and_status() {
    assert_eq!(check_fleet(0, 750), Err(FleetError::NoDevices));
    assert_eq!(check_fleet(3, 0), Err(FleetError::ZeroTimeout));
    assert_eq!(check_fleet(1, 1), Ok(()));
    assert_eq!(FleetError::ZeroTimeout.message(), "Fleet timeout_ms must be at least 1");
    assert!(is_online(Some(true), None));
    assert!(is_online(Some(false), Some(true)));
    assert!(!is_online(Some(false), None));
    assert_eq!(model_or_unknown(""), "unknown");
    assert_eq!(model_or_unknown("KS3"), "KS3");
}

#[test]
fn cgminer_replies_are_cleaned() {
    assert_eq!(clean_reply_text("\0 {\"STATUS\":[]}\n\0\0"), "{\"STATUS\":[]}");
    assert_eq!(clean_reply_text("\0\0"), "");
}

#[test]
fn online_devices_are_counted() {
    let ports = vec![
        (Some(true), None),
        (Some(false), Some(true)),
        (Some(false), Some(false)),
        (None, None),
        (Some(true), Some(true)),
    ];
    assert_eq!(count_online(&ports), 3);
    assert_eq!(count_online(&vec![]), 0);
}

#[test]
fn share_totals_skip_missing_counts() {
    assert_eq!(share_total(&vec![Some(3), None, Some(4)]), Some(7));
    assert_eq!(share_total(&vec![]), Some(0));
    assert_eq!(share_total(&vec![Some(u64::MAX), Some(0)]), Some(u64::MAX));
    assert_eq!(share_total(&vec![Some(u64::MAX), None, Some(1)]), None);
}

#[test]
fn alive_pool_row_is_preferred() {
    let s = |t: &str| Some(t.to_string());
    assert_eq!(pick_pool_row(&vec![s("Dead"), s("ALIVE"), s("Alive")]), Some(1));
    assert_eq!(pick_pool_row(&vec![s("Dead"), None, s("alive")]), Some(2));
    assert_eq!(pick_pool_row(&vec![s("Dead"), s("alive!")]), Some(0));
    assert_eq!(pick_pool_row(&vec![None]), Some(0));
    assert_eq!(pick_pool_row(&vec![]), None);
    assert!(eq_ignore_case("AlIvE", "alive"));
    assert!(!eq_ignore_case("alivé", "alive"));
    assert!(!eq_ignore_case("Ä", "ä"));
}
