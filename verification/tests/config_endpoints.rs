use kaspa_miner::config::{Config, PoolEndpoint};
use kaspa_miner::miner::DEFAULT_BATCH_SIZE;

fn cfg(pool: &str) -> Config {
    Config {
        pool: pool.to_string(),
        wallet: "kaspa:test".to_string(),
        worker: "rig".to_string(),
        threads: 1,
        batch_size: DEFAULT_BATCH_SIZE,
        reconnect_secs: 5,
    }
}

#[test]
fn parses_tcp_pool_urls() {
    let endpoint = cfg("stratum+tcp://pool.example.com:5555")
        .pool_endpoint()
        .unwrap();

    assert_eq!(
        endpoint,
        PoolEndpoint {
            host: "pool.example.com".to_string(),
            port: 5555,
            tls: false,
        }
    );
}

#[test]
fn parses_tls_pool_urls() {
    let endpoint = cfg("stratum+ssl://pool.example.com:443")
        .pool_endpoint()
        .unwrap();

    assert_eq!(
        endpoint,
        PoolEndpoint {
            host: "pool.example.com".to_string(),
            port: 443,
            tls: true,
        }
    );
}

#[test]
fn rejects_missing_pool_port() {
    let err = cfg("stratum+tcp://pool.example.com")
        .pool_endpoint()
        .unwrap_err()
        .message();

    assert!(err.contains("missing port"));
}
