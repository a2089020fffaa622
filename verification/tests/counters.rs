use kaspa_miner::stats::{wrapping_total, Stats};
use kaspa_miner::tui::{fmt_elapsed, TuiState};

#[test]
fn stats_count_hashes_and_shares() {
    let stats = Stats::new(3);
    assert_eq!(stats.hash_count.len(), 3);
    stats.add_hashes(0, 1024);
    stats.add_hashes(2, 10);
    stats.add_hashes(2, 6);
    assert_eq!(stats.total_hashes(), 1040);
    stats.add_accepted();
    stats.add_accepted();
    stats.add_rejected();
    assert_eq!(stats.accepted_count(), 2);
    assert_eq!(stats.rejected_count(), 1);
}

#[test]
fn totals_wrap() {
    assert_eq!(wrapping_total(&vec![u64::MAX, 2]), 1);
    assert_eq!(wrapping_total(&vec![]), 0);
}

#[test]
fn log_keeps_the_last_two_hundred_lines() {
    let mut state = TuiState {
        log: vec![],
        job_id: String::new(),
        connected: false,
        accepted: 0,
        rejected: 0,
    };
    for i in 0..250 {
        state.push_log(format!("line {i}"));
    }
    assert_eq!(state.log.len(), 200);
    assert_eq!(state.log[0], "line 50");
    assert_eq!(state.log[199], "line 249");
}

#[test]
fn elapsed_time_text() {
    assert_eq!(fmt_elapsed(0), "0m 0s");
    assert_eq!(fmt_elapsed(59), "0m 59s");
    assert_eq!(fmt_elapsed(3661), "1h 1m 1s");
    assert_eq!(fmt_elapsed(7325), "2h 2m 5s");
}
