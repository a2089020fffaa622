use kaspa_miner::config::{Config, ConfigError, EndpointError, PoolEndpoint};

fn base() -> Config {
    Config {
        pool: "stratum+tcp://pool:1".into(),
        wallet: "kaspa:q".into(),
        worker: "rig".into(),
        threads: 4,
        batch_size: 4096,
        reconnect_secs: 0,
    }
}

fn endpoint(pool: &str) -> Result<PoolEndpoint, EndpointError> {
    let mut c = base();
    c.pool = pool.into();
    c.pool_endpoint()
}

#[test]
fn endpoints_of_every_scheme() {
    let e = endpoint("ssl://h.example:7").unwrap();
    assert_eq!((e.host.as_str(), e.port, e.tls), ("h.example", 7, true));
    let e = endpoint("stratum://h:8").unwrap();
    assert_eq!((e.host.as_str(), e.port, e.tls), ("h", 8, false));
    let e = endpoint("tcp://h:9").unwrap();
    assert_eq!((e.host.as_str(), e.port, e.tls), ("h", 9, false));
    let e = endpoint("  h:10 ").unwrap();
    assert_eq!((e.host.as_str(), e.port, e.tls), ("h", 10, false));
    let e = endpoint("stratum+tcp://[::1]:+65535").unwrap();
    assert_eq!((e.host.as_str(), e.port, e.tls), ("[::1]", 65535, false));
}

#[test]
fn endpoint_errors() {
    assert_eq!(
        endpoint("stratum+tcp:// :80"),
        Err(EndpointError::MissingHost("stratum+tcp:// :80".into()))
    );
    assert_eq!(endpoint("h:port"), Err(EndpointError::InvalidPort("port".into())));
    assert_eq!(endpoint("h:65536"), Err(EndpointError::InvalidPort("65536".into())));
    assert_eq!(endpoint("h:"), Err(EndpointError::InvalidPort("".into())));
    assert_eq!(endpoint("host"), Err(EndpointError::MissingPort("host".into())));
    assert_eq!(
        EndpointError::MissingHost("x".into()).message(),
        "Pool URL missing host: x"
    );
    assert_eq!(EndpointError::InvalidPort("p".into()).message(), "Invalid port: p");
}

#[test]
fn login_joins_wallet_and_worker() {
    assert_eq!(base().login(), "kaspa:q.rig");
}

#[test]
fn overrides_apply_and_reconnect_defaults_to_five() {
    let c = Config::with_overrides(
        base(),
        Some("stratum+ssl://other:2".into()),
        Some("kaspatest:w".into()),
        None,
        Some(8),
        Some(64),
    )
    .unwrap();
    assert_eq!(c.pool, "stratum+ssl://other:2");
    assert_eq!(c.wallet, "kaspatest:w");
    assert_eq!(c.worker, "rig");
    assert_eq!(c.threads, 8);
    assert_eq!(c.batch_size, 64);
    assert_eq!(c.reconnect_secs, 5);
}

#[test]
fn each_validation_error() {
    let check = |f: fn(&mut Config), e: ConfigError| {
        let mut c = base();
        f(&mut c);
        assert_eq!(Config::with_overrides(c, None, None, None, None, None).unwrap_err(), e);
    };
    check(|c| c.pool = String::new(), ConfigError::PoolRequired);
    check(|c| c.wallet = String::new(), ConfigError::WalletRequired);
    check(|c| c.wallet = "bitcoin:x".into(), ConfigError::WalletNotKaspa);
    check(|c| c.worker = " \t".into(), ConfigError::WorkerEmpty);
    check(|c| c.threads = 0, ConfigError::NoThreads);
    check(|c| c.threads = 513, ConfigError::TooManyThreads(513));
    check(|c| c.batch_size = 63, ConfigError::BatchSizeOutOfRange);
    check(|c| c.batch_size = 1_048_577, ConfigError::BatchSizeOutOfRange);
    let mut ok = base();
    ok.threads = 512;
    ok.batch_size = 1_048_576;
    assert!(Config::with_overrides(ok, None, None, None, None, None).is_ok());
}

#[test]
fn config_error_messages() {
    assert_eq!(
        ConfigError::TooManyThreads(600).message(),
        "Thread count 600 is too high; refusing to start"
    );
    assert_eq!(ConfigError::NoThreads.message(), "Thread count must be at least 1");
    assert_eq!(
        ConfigError::WalletNotKaspa.message(),
        "Wallet must be a Kaspa address beginning with kaspa: or kaspatest:"
    );
}

#[test]
fn load_without_file_needs_pool_and_wallet() {
    assert_eq!(Config::load(None, None, None, None, None, None).unwrap_err(), ConfigError::PoolRequired);
    let c = Config::load(
        None,
        Some("stratum+tcp://p:1".into()),
        Some("kaspa:abc".into()),
        None,
        Some(2),
        None,
    )
    .unwrap();
    assert_eq!(c.worker, "worker1");
    assert_eq!(c.batch_size, kaspa_miner::miner::DEFAULT_BATCH_SIZE);
    assert_eq!(c.reconnect_secs, 5);
    assert_eq!(c.threads, 2);
    let from_file = Config::load(Some(base()), None, None, None, None, None).unwrap();
    assert_eq!(from_file.pool, "stratum+tcp://pool:1");
}

#[test]
fn default_config_has_at_least_one_thread() {
    let c = Config::default();
    assert!(c.threads >= 1);
    assert_eq!(c.worker, "worker1");
}

#[test]
fn load_without_file_or_threads_uses_the_cpu_count() {
    let c = Config::load(
        None,
        Some("stratum+tcp://pool:1".into()),
        Some("kaspa:qwallet".into()),
        None,
        None,
        None,
    )
    .unwrap();
    assert!(c.threads >= 1);
    assert_eq!(c.worker, "worker1");
    assert_eq!(c.batch_size, kaspa_miner::miner::DEFAULT_BATCH_SIZE);
    assert_eq!(c.reconnect_secs, 5);
}
