use kaspa_miner::config::Config;
use kaspa_miner::gpu::{expand_placeholders, ExitDecision, GpuConfig, GpuConfigError};

fn gpu(command: &str, args: &[&str]) -> GpuConfig {
    GpuConfig {
        command: command.into(),
        args: args.iter().map(|a| a.to_string()).collect(),
        devices: String::new(),
        env: vec![],
        restart: true,
        restart_delay_secs: 10,
        max_restarts: Some(2),
    }
}

#[test]
fn validation_errors() {
    assert_eq!(gpu("  ", &["a"]).validate(), Err(GpuConfigError::CommandNotSet));
    assert_eq!(
        gpu("/opt/YOUR_GPU_MINER_BINARY", &["a"]).validate(),
        Err(GpuConfigError::CommandNotSet)
    );
    assert_eq!(gpu("miner", &[]).validate(), Err(GpuConfigError::NoArgs));
    assert_eq!(gpu("miner", &["--x"]).validate(), Ok(()));
    assert_eq!(
        GpuConfigError::NoArgs.message("gpu.toml"),
        "GPU config gpu.toml must include args"
    );
    assert_eq!(
        GpuConfigError::CommandNotSet.message("g.toml"),
        "Set command in g.toml to an installed Kaspa GPU miner executable"
    );
}

#[test]
fn watchdog_decisions() {
    let g = gpu("miner", &["a"]);
    assert_eq!(g.after_exit(false, true, 0), ExitDecision::Finished);
    assert_eq!(g.after_exit(true, false, 0), ExitDecision::Failed);
    assert_eq!(
        g.after_exit(false, false, 0),
        ExitDecision::Restart { restarts: 1, delay_secs: 10 }
    );
    assert_eq!(
        g.after_exit(false, false, 1),
        ExitDecision::Restart { restarts: 2, delay_secs: 10 }
    );
    assert_eq!(g.after_exit(false, false, 2), ExitDecision::CapReached(2));
    let mut no_restart = gpu("miner", &["a"]);
    no_restart.restart = false;
    assert_eq!(no_restart.after_exit(false, false, 0), ExitDecision::Failed);
    let mut unlimited = gpu("miner", &["a"]);
    unlimited.max_restarts = None;
    assert_eq!(
        unlimited.after_exit(false, false, u32::MAX),
        ExitDecision::Restart { restarts: u32::MAX, delay_secs: 10 }
    );
}

#[test]
fn placeholders_expand_in_order() {
    let config = Config {
        pool: "p{devices}".into(),
        wallet: "kaspa:w".into(),
        worker: "r".into(),
        threads: 1,
        batch_size: 4096,
        reconnect_secs: 5,
    };
    assert_eq!(
        expand_placeholders("{pool}|{wallet}|{worker}|{login}|{devices}|{other}", &config, "0"),
        "p0|kaspa:w|r|kaspa:w.r|0|{other}"
    );
    assert_eq!(expand_placeholders("no placeholders", &config, "0"), "no placeholders");
}
