use std::collections::BTreeMap;

use kaspa_miner::config::Config;
use kaspa_miner::gpu::{env_names_ascend, expand_args, expand_env, text_before};
use kaspa_miner::miner::DEFAULT_BATCH_SIZE;

fn config() -> Config {
    Config {
        pool: "stratum+ssl://kaspa.pool:5555".into(),
        wallet: "kaspa:qexample".into(),
        worker: "rig-01".into(),
        threads: 1,
        batch_size: DEFAULT_BATCH_SIZE,
        reconnect_secs: 5,
    }
}

#[test]
fn expands_gpu_args() {
    let args = vec![
        "--pool".to_string(),
        "{pool}".to_string(),
        "--user".to_string(),
        "{login}".to_string(),
        "--devices={devices}".to_string(),
    ];

    assert_eq!(
        expand_args(&args, &config(), "0,1"),
        vec![
            "--pool",
            "stratum+ssl://kaspa.pool:5555",
            "--user",
            "kaspa:qexample.rig-01",
            "--devices=0,1",
        ]
    );
}

#[test]
fn expands_gpu_env() {
    let mut env = BTreeMap::new();
    env.insert("CUDA_VISIBLE_DEVICES".to_string(), "{devices}".to_string());
    env.insert("KASPA_USER".to_string(), "{login}".to_string());

    let entries: Vec<(String, String)> = env.into_iter().collect();
    let expanded: BTreeMap<String, String> =
        expand_env(&entries, &config(), "2").into_iter().collect();
    assert_eq!(expanded["CUDA_VISIBLE_DEVICES"], "2");
    assert_eq!(expanded["KASPA_USER"], "kaspa:qexample.rig-01");
}

#[test]
fn environment_names_must_ascend() {
    let mut env = BTreeMap::new();
    env.insert("b".to_string(), "1".to_string());
    env.insert("a".to_string(), "2".to_string());
    env.insert("ab".to_string(), "3".to_string());
    let entries: Vec<(String, String)> = env.into_iter().collect();
    assert!(env_names_ascend(&entries));
    assert!(env_names_ascend(&vec![]));
    let swapped = vec![("b".to_string(), String::new()), ("a".to_string(), String::new())];
    assert!(!env_names_ascend(&swapped));
    let repeated = vec![("a".to_string(), String::new()), ("a".to_string(), String::new())];
    assert!(!env_names_ascend(&repeated));
}

#[test]
fn text_order_is_string_order() {
    for (a, b) in [("a", "b"), ("a", "ab"), ("", "a"), ("Z", "a"), ("é", "z"), ("ab", "ab"), ("b", "a")] {
        assert_eq!(text_before(a, b), a < b, "{a:?} {b:?}");
    }
}
