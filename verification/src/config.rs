use crate::miner::DEFAULT_BATCH_SIZE;
use crate::text::{
    chars_of, decimal, decimal_chars, lemma_decimal_reads_back, lemma_parse_decimal, trim_end, trim_start, find_last, has_prefix, last_index_of, parse_unsigned,
    parse_unsigned_chars, starts_with, string_from, subrange, trim, trim_chars,
};
use vstd::prelude::*;

verus! {

/// A pool address split into host, port and transport security.
#[derive(Debug, Clone, PartialEq, Eq)]
pub struct PoolEndpoint {
    pub host: String,
    pub port: u16,
    pub tls: bool,
}

/// Settings of the CPU miner.
#[derive(Debug, Clone)]
pub struct Config {
    pub pool: String,
    pub wallet: String,
    pub worker: String,
    pub threads: usize,
    pub batch_size: u64,
    pub reconnect_secs: u64,
}

/// Why a pool URL has no endpoint.
#[derive(Debug, Clone, PartialEq, Eq)]
pub enum EndpointError {
    /// No ':' separates host and port; holds the pool URL as configured.
    MissingPort(String),
    /// Nothing but white space before the port; holds the pool URL as configured.
    MissingHost(String),
    /// The text after the last ':' is no port number; holds that text.
    InvalidPort(String),
}

/// Why a configuration is refused.
#[derive(Debug, Clone, PartialEq, Eq)]
pub enum ConfigError {
    PoolRequired,
    WalletRequired,
    WalletNotKaspa,
    WorkerEmpty,
    NoThreads,
    TooManyThreads(usize),
    BatchSizeOutOfRange,
}

/// `a` followed by `b`.
pub fn concat(a: &str, b: &str) -> (r: String)
    ensures
        r@ == a@ + b@,
{
    let mut v = chars_of(a);
    let w = chars_of(b);
    for i in 0..w.len()
        invariant
            v@ == a@ + w@.take(i as int),
    {
        v.push(w[i]);
        assert(w@.take(i + 1) =~= w@.take(i as int).push(w@[i as int]));
    }
    assert(w@.take(w@.len() as int) =~= w@);
    string_from(v.as_slice())
}

impl EndpointError {
    /// The error as the miner reports it.
    pub fn message(&self) -> (r: String)
        ensures
            r@ == match self {
                EndpointError::MissingPort(p) => "Pool URL missing port: "@ + p@,
                EndpointError::MissingHost(p) => "Pool URL missing host: "@ + p@,
                EndpointError::InvalidPort(p) => "Invalid port: "@ + p@,
            },
    {
        match self {
            EndpointError::MissingPort(p) => concat("Pool URL missing port: ", p.as_str()),
            EndpointError::MissingHost(p) => concat("Pool URL missing host: ", p.as_str()),
            EndpointError::InvalidPort(p) => concat("Invalid port: ", p.as_str()),
        }
    }
}

impl ConfigError {
    /// The error as the miner reports it.
    pub fn message(&self) -> (r: String)
        ensures
            r@ == match self {
                ConfigError::PoolRequired =>
                    "Pool required.  Use --pool stratum+tcp://host:port  or set pool in config.toml"@,
                ConfigError::WalletRequired =>
                    "Wallet required.  Use --wallet <kaspa:...>  or set wallet in config.toml"@,
                ConfigError::WalletNotKaspa =>
                    "Wallet must be a Kaspa address beginning with kaspa: or kaspatest:"@,
                ConfigError::WorkerEmpty => "Worker name cannot be empty"@,
                ConfigError::NoThreads => "Thread count must be at least 1"@,
                ConfigError::TooManyThreads(n) => "Thread count "@ + decimal(*n as nat)
                    + " is too high; refusing to start"@,
                ConfigError::BatchSizeOutOfRange => "Batch size must be between 64 and 1048576"@,
            },
    {
        match self {
            ConfigError::PoolRequired => {
                "Pool required.  Use --pool stratum+tcp://host:port  or set pool in config.toml".to_owned()
            },
            ConfigError::WalletRequired => {
                "Wallet required.  Use --wallet <kaspa:...>  or set wallet in config.toml".to_owned()
            },
            ConfigError::WalletNotKaspa => {
                "Wallet must be a Kaspa address beginning with kaspa: or kaspatest:".to_owned()
            },
            ConfigError::WorkerEmpty => "Worker name cannot be empty".to_owned(),
            ConfigError::NoThreads => "Thread count must be at least 1".to_owned(),
            ConfigError::TooManyThreads(n) => {
                let digits = string_from(decimal_chars(*n as u64).as_slice());
                let head = concat("Thread count ", digits.as_str());
                concat(head.as_str(), " is too high; refusing to start")
            },
            ConfigError::BatchSizeOutOfRange => {
                "Batch size must be between 64 and 1048576".to_owned()
            },
        }
    }
}

/// The pool address without a recognised scheme prefix, and whether the
/// scheme asks for TLS.
pub open spec fn strip_scheme(p: Seq<char>) -> (Seq<char>, bool) {
    if starts_with(p, "stratum+ssl://"@) {
        (p.subrange("stratum+ssl://"@.len() as int, p.len() as int), true)
    } else if starts_with(p, "ssl://"@) {
        (p.subrange("ssl://"@.len() as int, p.len() as int), true)
    } else if starts_with(p, "stratum+tcp://"@) {
        (p.subrange("stratum+tcp://"@.len() as int, p.len() as int), false)
    } else if starts_with(p, "stratum://"@) {
        (p.subrange("stratum://"@.len() as int, p.len() as int), false)
    } else if starts_with(p, "tcp://"@) {
        (p.subrange("tcp://"@.len() as int, p.len() as int), false)
    } else {
        (p, false)
    }
}

fn strip_one(p: &Vec<char>, scheme: &str) -> (r: Option<Vec<char>>)
    ensures
        starts_with(p@, scheme@) ==> (r matches Some(v) && v@ == p@.subrange(scheme@.len() as int, p@.len() as int)),
        !starts_with(p@, scheme@) ==> r is None,
{
    let s = chars_of(scheme);
    if has_prefix(p.as_slice(), s.as_slice()) {
        Some(subrange(p.as_slice(), s.len(), p.len()))
    } else {
        None
    }
}

fn split_scheme(p: &Vec<char>) -> (r: (Vec<char>, bool))
    ensures
        (r.0@, r.1) == strip_scheme(p@),
{
    if let Some(rest) = strip_one(p, "stratum+ssl://") {
        (rest, true)
    } else if let Some(rest) = strip_one(p, "ssl://") {
        (rest, true)
    } else if let Some(rest) = strip_one(p, "stratum+tcp://") {
        (rest, false)
    } else if let Some(rest) = strip_one(p, "stratum://") {
        (rest, false)
    } else if let Some(rest) = strip_one(p, "tcp://") {
        (rest, false)
    } else {
        (subrange(p.as_slice(), 0, p.len()), false)
    }
}

/// The first reason, in the order the miner checks them, for which a
/// configuration with these values is refused.
pub open spec fn config_error(
    pool: Seq<char>,
    wallet: Seq<char>,
    worker: Seq<char>,
    threads: usize,
    batch_size: u64,
) -> Option<ConfigError> {
    if pool.len() == 0 {
        Some(ConfigError::PoolRequired)
    } else if wallet.len() == 0 {
        Some(ConfigError::WalletRequired)
    } else if !starts_with(wallet, "kaspa:"@) && !starts_with(wallet, "kaspatest:"@) {
        Some(ConfigError::WalletNotKaspa)
    } else if trim(worker).len() == 0 {
        Some(ConfigError::WorkerEmpty)
    } else if threads == 0 {
        Some(ConfigError::NoThreads)
    } else if threads > 512 {
        Some(ConfigError::TooManyThreads(threads))
    } else if batch_size < 64 || batch_size > 1_048_576 {
        Some(ConfigError::BatchSizeOutOfRange)
    } else {
        None
    }
}

/// The value given on the command line if any, else the configured one.
pub open spec fn chosen<T>(arg: Option<T>, configured: T) -> T {
    match arg {
        Some(v) => v,
        None => configured,
    }
}

/// The value given on the command line if any, else the configured one,
/// for text settings.
pub open spec fn chosen_text(arg: Option<String>, configured: String) -> Seq<char> {
    match arg {
        Some(v) => v@,
        None => configured@,
    }
}

/// `r` is what `Config::with_overrides` gives for `base` and the command-line values.
pub open spec fn overrides_result(
    base: Config,
    pool: Option<String>,
    wallet: Option<String>,
    worker: Option<String>,
    threads: Option<usize>,
    batch_size: Option<u64>,
    r: Result<Config, ConfigError>,
) -> bool {
    let p = chosen_text(pool, base.pool);
    let wa = chosen_text(wallet, base.wallet);
    let wo = chosen_text(worker, base.worker);
    let t = chosen(threads, base.threads);
    let b = chosen(batch_size, base.batch_size);
    match config_error(p, wa, wo, t, b) {
        Some(e) => r == Err::<Config, ConfigError>(e),
        None => r matches Ok(c) && {
            &&& c.pool@ == p
            &&& c.wallet@ == wa
            &&& c.worker@ == wo
            &&& c.threads == t
            &&& c.batch_size == b
            &&& c.reconnect_secs == if base.reconnect_secs == 0 {
                5
            } else {
                base.reconnect_secs
            }
        },
    }
}

/// A value given on the command line replaces the configured one, and a
/// setting not given keeps the configured value, for every setting of an
/// accepted configuration; a configured reconnect delay is kept.
pub proof fn lemma_command_line_wins(
    base: Config,
    pool: Option<String>,
    wallet: Option<String>,
    worker: Option<String>,
    threads: Option<usize>,
    batch_size: Option<u64>,
    c: Config,
)
    requires
        overrides_result(base, pool, wallet, worker, threads, batch_size, Ok(c)),
    ensures
        pool matches Some(v) ==> c.pool@ == v@,
        pool is None ==> c.pool@ == base.pool@,
        wallet matches Some(v) ==> c.wallet@ == v@,
        wallet is None ==> c.wallet@ == base.wallet@,
        worker matches Some(v) ==> c.worker@ == v@,
        worker is None ==> c.worker@ == base.worker@,
        threads matches Some(v) ==> c.threads == v,
        threads is None ==> c.threads == base.threads,
        batch_size matches Some(v) ==> c.batch_size == v,
        batch_size is None ==> c.batch_size == base.batch_size,
        base.reconnect_secs > 0 ==> c.reconnect_secs == base.reconnect_secs,
{
}

/// Loading refuses a configuration only when the settings in force (the
/// command-line value where one is given, else the configured one) break
/// a limit: no pool, no wallet, a wallet not beginning with "kaspa:" or
/// "kaspatest:", a blank worker, 0 or more than 512 threads, or a batch
/// size outside 64 to 1048576.
pub proof fn lemma_refused_only_out_of_limits(
    base: Config,
    pool: Option<String>,
    wallet: Option<String>,
    worker: Option<String>,
    threads: Option<usize>,
    batch_size: Option<u64>,
    e: ConfigError,
)
    requires
        overrides_result(base, pool, wallet, worker, threads, batch_size, Err(e)),
    ensures
        ({
            let p = if pool is Some { pool->0@ } else { base.pool@ };
            let wa = if wallet is Some { wallet->0@ } else { base.wallet@ };
            let wo = if worker is Some { worker->0@ } else { base.worker@ };
            let t = if threads is Some { threads->0 } else { base.threads };
            let b = if batch_size is Some { batch_size->0 } else { base.batch_size };
            ||| p.len() == 0
            ||| wa.len() == 0
            ||| !(starts_with(wa, "kaspa:"@) || starts_with(wa, "kaspatest:"@))
            ||| trim(wo).len() == 0
            ||| t == 0
            ||| t > 512
            ||| b < 64
            ||| b > 1_048_576
        }),
{
}

/// Every configuration that loading accepts has a pool, a wallet beginning
/// with "kaspa:" or "kaspatest:", a worker name that is not blank, 1 to 512
/// threads, a batch size from 64 to 1048576 and a non-zero reconnect delay.
pub proof fn lemma_accepted_config_in_limits(
    base: Config,
    pool: Option<String>,
    wallet: Option<String>,
    worker: Option<String>,
    threads: Option<usize>,
    batch_size: Option<u64>,
    c: Config,
)
    requires
        overrides_result(base, pool, wallet, worker, threads, batch_size, Ok(c)),
    ensures
        c.pool@.len() > 0,
        starts_with(c.wallet@, "kaspa:"@) || starts_with(c.wallet@, "kaspatest:"@),
        trim(c.worker@).len() > 0,
        1 <= c.threads <= 512,
        64 <= c.batch_size <= 1_048_576,
        c.reconnect_secs > 0,
{
}

/// Calls `num_cpus::get`. Its value depends on the machine; the crate's
/// documentation promises only that it is at least 1.
#[verifier::external_body]
fn cpu_count() -> (r: usize)
    ensures
        r >= 1,
{
    num_cpus::get()
}

/// Default batch size when the configuration file gives none.
pub fn default_batch_size() -> (r: u64)
    ensures
        r == DEFAULT_BATCH_SIZE,
{
    DEFAULT_BATCH_SIZE
}

/// Default reconnect delay when the configuration file gives none.
pub fn default_reconnect_secs() -> (r: u64)
    ensures
        r == 5,
{
    5
}

impl Default for Config {
    /// No pool or wallet, worker "worker1", one thread per CPU the machine
    /// reports, the default batch size and a five-second reconnect delay.
    fn default() -> (r: Self)
        ensures
            r.pool@ == Seq::<char>::empty(),
            r.wallet@ == Seq::<char>::empty(),
            r.worker@ == "worker1"@,
            r.threads >= 1,
            r.batch_size == DEFAULT_BATCH_SIZE,
            r.reconnect_secs == 5,
    {
        Config {
            pool: String::new(),
            wallet: String::new(),
            worker: "worker1".to_owned(),
            threads: cpu_count(),
            batch_size: default_batch_size(),
            reconnect_secs: default_reconnect_secs(),
        }
    }
}


/// `r` is what `Config::pool_endpoint` gives for the pool URL `pool`: the
/// URL is trimmed and its scheme removed; the host is what comes before the
/// last ':' and must not be blank, the port what comes after it.
pub open spec fn endpoint_result(pool: String, r: Result<PoolEndpoint, EndpointError>) -> bool {
    let (url, tls) = strip_scheme(trim(pool@));
    match last_index_of(url, ':') {
        None => r == Err::<PoolEndpoint, EndpointError>(EndpointError::MissingPort(pool)),
        Some(i) => {
            let host = url.subrange(0, i);
            let port_text = url.subrange(i + 1, url.len() as int);
            if trim(host).len() == 0 {
                r == Err::<PoolEndpoint, EndpointError>(EndpointError::MissingHost(pool))
            } else {
                match parse_unsigned(port_text, 10, 65535) {
                    None => r matches Err(EndpointError::InvalidPort(t)) && t@ == port_text,
                    Some(port) => r matches Ok(e) && e.host@ == host && e.port == port && e.tls
                        == tls,
                }
            }
        },
    }
}

proof fn lemma_last_index_past(x: Seq<char>, d: Seq<char>, c: char)
    requires
        !d.contains(c),
    ensures
        last_index_of(x + d, c) == last_index_of(x, c),
    decreases d.len(),
{
    if d.len() > 0 {
        assert((x + d).drop_last() =~= x + d.drop_last());
        assert(d.last() == d[d.len() - 1]);
        assert(!d.drop_last().contains(c)) by {
            if d.drop_last().contains(c) {
                let k = choose|k: int| 0 <= k < d.drop_last().len() && d.drop_last()[k] == c;
                assert(d[k] == c);
            }
        }
        lemma_last_index_past(x, d.drop_last(), c);
    } else {
        assert(x + d =~= x);
    }
}

proof fn lemma_not_prefix(s: Seq<char>, p: Seq<char>, i: int)
    requires
        0 <= i < p.len(),
        i < s.len(),
        s[i] != p[i],
    ensures
        !starts_with(s, p),
{
    if starts_with(s, p) {
        assert(s.subrange(0, p.len() as int)[i] == s[i]);
    }
}

proof fn lemma_prefix(s: Seq<char>, p: Seq<char>, rest: Seq<char>)
    requires
        s == p + rest,
    ensures
        starts_with(s, p),
        s.subrange(p.len() as int, s.len() as int) == rest,
{
    assert(s.subrange(0, p.len() as int) =~= p);
    assert(s.subrange(p.len() as int, s.len() as int) =~= rest);
}

/// The schemes a pool URL may begin with, and whether each asks for TLS.
pub open spec fn supported_scheme(scheme: Seq<char>, tls: bool) -> bool {
    ||| scheme == "stratum+ssl://"@ && tls
    ||| scheme == "ssl://"@ && tls
    ||| scheme == "stratum+tcp://"@ && !tls
    ||| scheme == "stratum://"@ && !tls
    ||| scheme == "tcp://"@ && !tls
}

/// A pool URL written as one of the supported schemes, a host that is not
/// blank, ':' and a port in decimal is read back as that host, that port
/// and the scheme's TLS setting.
pub proof fn lemma_endpoint_round_trip(
    pool: String,
    scheme: Seq<char>,
    host: Seq<char>,
    port: u16,
    tls: bool,
    r: Result<PoolEndpoint, EndpointError>,
)
    requires
        supported_scheme(scheme, tls),
        pool@ == scheme + host + seq![':'] + decimal(port as nat),
        trim(host).len() > 0,
        endpoint_result(pool, r),
    ensures
        r matches Ok(e) && e.host@ == host && e.port == port && e.tls == tls,
{
    reveal_strlit("stratum+ssl://");
    reveal_strlit("stratum+tcp://");
    reveal_strlit("stratum://");
    reveal_strlit("ssl://");
    reveal_strlit("tcp://");
    let d = decimal(port as nat);
    lemma_decimal_reads_back(port as nat);
    lemma_parse_decimal(port as nat, 65535);
    let s = pool@;
    let url = host + seq![':'] + d;
    assert(s =~= scheme + url);
    assert(s[0] == scheme[0]);
    assert(s.last() == d.last());
    assert(trim_start(s) == s);
    assert(trim_end(s) == s);
    assert(trim(s) == s);
    assert("stratum+ssl://"@[8] != "stratum+tcp://"@[8]);
    if scheme == "stratum+ssl://"@ {
        lemma_prefix(s, "stratum+ssl://"@, url);
    } else if scheme == "ssl://"@ {
        lemma_not_prefix(s, "stratum+ssl://"@, 1);
        lemma_prefix(s, "ssl://"@, url);
    } else if scheme == "stratum+tcp://"@ {
        lemma_not_prefix(s, "stratum+ssl://"@, 8);
        lemma_not_prefix(s, "ssl://"@, 1);
        lemma_prefix(s, "stratum+tcp://"@, url);
    } else if scheme == "stratum://"@ {
        lemma_not_prefix(s, "stratum+ssl://"@, 7);
        lemma_not_prefix(s, "ssl://"@, 1);
        lemma_not_prefix(s, "stratum+tcp://"@, 7);
        lemma_prefix(s, "stratum://"@, url);
    } else {
        lemma_not_prefix(s, "stratum+ssl://"@, 0);
        lemma_not_prefix(s, "ssl://"@, 0);
        lemma_not_prefix(s, "stratum+tcp://"@, 0);
        lemma_not_prefix(s, "stratum://"@, 0);
        lemma_prefix(s, "tcp://"@, url);
    }
    assert(strip_scheme(s) == (url, tls));
    lemma_last_index_past(host + seq![':'], d, ':');
    assert(host + seq![':'] + d =~= url);
    assert((host + seq![':']).last() == ':');
    assert((host + seq![':']).drop_last() =~= host);
    assert(last_index_of(host + seq![':'], ':') == Some(host.len() as int));
    assert(url.subrange(0, host.len() as int) =~= host);
    assert(url.subrange(host.len() as int + 1, url.len() as int) =~= d);
}

impl Config {
    /// Applies the command-line values over `base` and validates the result;
    /// a reconnect delay of 0 becomes 5 seconds.
    pub fn with_overrides(
        base: Config,
        pool: Option<String>,
        wallet: Option<String>,
        worker: Option<String>,
        threads: Option<usize>,
        batch_size: Option<u64>,
    ) -> (r: Result<Config, ConfigError>)
        ensures
            overrides_result(base, pool, wallet, worker, threads, batch_size, r),
    {
        let ghost base0 = base;
        let mut cfg = base;
        if let Some(p) = pool {
            cfg.pool = p;
        }
        if let Some(w) = wallet {
            cfg.wallet = w;
        }
        if let Some(w) = worker {
            cfg.worker = w;
        }
        if let Some(t) = threads {
            cfg.threads = t;
        }
        if let Some(b) = batch_size {
            cfg.batch_size = b;
        }
        let pool_chars = chars_of(cfg.pool.as_str());
        let wallet_chars = chars_of(cfg.wallet.as_str());
        let worker_chars = chars_of(cfg.worker.as_str());
        if pool_chars.len() == 0 {
            return Err(ConfigError::PoolRequired);
        }
        if wallet_chars.len() == 0 {
            return Err(ConfigError::WalletRequired);
        }
        let kaspa = chars_of("kaspa:");
        let kaspatest = chars_of("kaspatest:");
        if !has_prefix(wallet_chars.as_slice(), kaspa.as_slice()) && !has_prefix(
            wallet_chars.as_slice(),
            kaspatest.as_slice(),
        ) {
            return Err(ConfigError::WalletNotKaspa);
        }
        if trim_chars(worker_chars.as_slice()).len() == 0 {
            return Err(ConfigError::WorkerEmpty);
        }
        if cfg.threads == 0 {
            return Err(ConfigError::NoThreads);
        }
        if cfg.threads > 512 {
            return Err(ConfigError::TooManyThreads(cfg.threads));
        }
        if cfg.batch_size < 64 || cfg.batch_size > 1_048_576 {
            return Err(ConfigError::BatchSizeOutOfRange);
        }
        if cfg.reconnect_secs == 0 {
            cfg.reconnect_secs = 5;
        }
        Ok(cfg)
    }

    /// The configuration the miner runs with: the file's settings (or the
    /// defaults when there is no file) with the command-line values applied,
    /// validated.
    pub fn load(
        file: Option<Config>,
        pool: Option<String>,
        wallet: Option<String>,
        worker: Option<String>,
        threads: Option<usize>,
        batch_size: Option<u64>,
    ) -> (r: Result<Config, ConfigError>)
        ensures
            file matches Some(base) ==> overrides_result(
                base,
                pool,
                wallet,
                worker,
                threads,
                batch_size,
                r,
            ),
            file is None ==> exists|base: Config|
                {
                    &&& base.pool@ == Seq::<char>::empty()
                    &&& base.wallet@ == Seq::<char>::empty()
                    &&& base.worker@ == "worker1"@
                    &&& base.threads >= 1
                    &&& base.batch_size == DEFAULT_BATCH_SIZE
                    &&& base.reconnect_secs == 5
                    &&& overrides_result(base, pool, wallet, worker, threads, batch_size, r)
                },
    {
        let base = match file {
            Some(c) => c,
            None => Config::default(),
        };
        Config::with_overrides(base, pool, wallet, worker, threads, batch_size)
    }

    /// Parse stratum pool URLs into a normalized endpoint.
    pub fn pool_endpoint(&self) -> (r: Result<PoolEndpoint, EndpointError>)
        ensures
            endpoint_result(self.pool, r),
    {
        let all = chars_of(self.pool.as_str());
        let pool = trim_chars(all.as_slice());
        let (url, tls) = split_scheme(&pool);
        match find_last(url.as_slice(), ':') {
            None => Err(EndpointError::MissingPort(self.pool.clone())),
            Some(i) => {
                assert(i < url.len());
                let host = subrange(url.as_slice(), 0, i);
                let port_text = subrange(url.as_slice(), i + 1, url.len());
                if trim_chars(host.as_slice()).len() == 0 {
                    return Err(EndpointError::MissingHost(self.pool.clone()));
                }
                match parse_unsigned_chars(port_text.as_slice(), 10, 65535) {
                    None => Err(EndpointError::InvalidPort(string_from(port_text.as_slice()))),
                    Some(port) => Ok(
                        PoolEndpoint { host: string_from(host.as_slice()), port: port as u16, tls },
                    ),
                }
            },
        }
    }

    /// The pool login: wallet and worker joined by '.'.
    pub fn login(&self) -> (r: String)
        ensures
            r@ == self.wallet@ + seq!['.'] + self.worker@,
    {
        let head = concat(self.wallet.as_str(), ".");
        proof {
            reveal_strlit(".");
        }
        concat(head.as_str(), self.worker.as_str())
    }
}

} // verus!
