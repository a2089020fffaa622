use kaspa_miner::tui::{DashEvent, TuiState};

fn fresh() -> TuiState {
    TuiState {
        log: vec!["Starting…".to_string()],
        job_id: "—".to_string(),
        connected: false,
        accepted: 0,
        rejected: 0,
    }
}

#[test]
fn events_update_the_dashboard() {
    let mut state = fresh();
    state.apply(&DashEvent::Connected);
    assert!(state.connected);
    state.apply(&DashEvent::NewJob("j42".into()));
    assert_eq!(state.job_id, "j42");
    state.apply(&DashEvent::ShareAccepted);
    state.apply(&DashEvent::ShareAccepted);
    state.apply(&DashEvent::ShareRejected("\"low difficulty\"".into()));
    assert_eq!((state.accepted, state.rejected), (2, 1));
    state.apply(&DashEvent::Difficulty("4096".into()));
    state.apply(&DashEvent::Extranonce("abcd".into()));
    state.apply(&DashEvent::Error("bad notify: bad job_id".into()));
    state.apply(&DashEvent::Disconnected);
    assert!(!state.connected);
    assert_eq!(state.job_id, "j42");
    assert_eq!(
        state.log,
        vec![
            "Starting…",
            "Pool connected",
            "New job: j42",
            "✓ Share accepted",
            "✓ Share accepted",
            "✗ Rejected: \"low difficulty\"",
            "Difficulty: 4096",
            "Extranonce: abcd",
            "ERR bad notify: bad job_id",
            "Pool disconnected",
        ]
    );
}

#[test]
fn event_log_keeps_the_latest_lines() {
    let mut state = fresh();
    for i in 0..300 {
        state.apply(&DashEvent::NewJob(format!("{i}")));
    }
    assert_eq!(state.log.len(), 200);
    assert_eq!(state.log[0], "New job: 100");
    assert_eq!(state.log[199], "New job: 299");
    assert_eq!(state.job_id, "299");
}
