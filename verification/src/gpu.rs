//! The managed GPU engine: its configuration, placeholder expansion for the
//! engine's arguments and environment, and the watchdog's restart decision.

use crate::config::{concat, Config};
use crate::text::{
    chars_of, contains, contains_text, replace, replace_all, string_from, trim,
    trim_chars,
};
use vstd::prelude::*;

verus! {

/// Settings of the external GPU miner that the watchdog runs.
#[derive(Debug, Clone)]
pub struct GpuConfig {
    /// External optimized GPU miner executable.
    pub command: String,
    /// Command-line arguments. Supports {pool}, {wallet}, {worker}, {login}, {devices}.
    pub args: Vec<String>,
    /// Device selector substituted into {devices}.
    pub devices: String,
    /// Environment variables for the child process, by name in strictly
    /// ascending order (`env_names_ascending`). Values support the same
    /// placeholders as args.
    pub env: Vec<(String, String)>,
    /// Restart the GPU engine when it exits.
    pub restart: bool,
    /// Delay before restarting a failed GPU engine.
    pub restart_delay_secs: u64,
    /// Optional restart cap. Omit for unlimited watchdog restarts.
    pub max_restarts: Option<u32>,
}

/// No variable name occurs twice in an environment list.
pub open spec fn env_names_distinct(env: Seq<(String, String)>) -> bool {
    forall|i: int, j: int| 0 <= i < j < env.len() ==> env[i].0@ != env[j].0@
}

/// Whether text `a` sorts before text `b`: compared character by character
/// by code point, a proper prefix first (the order of `String`).
pub open spec fn text_less(a: Seq<char>, b: Seq<char>) -> bool
    decreases a.len(),
{
    if a.len() == 0 {
        b.len() > 0
    } else if b.len() == 0 {
        false
    } else if a[0] != b[0] {
        (a[0] as u32) < (b[0] as u32)
    } else {
        text_less(a.drop_first(), b.drop_first())
    }
}

/// The variable names of an environment list strictly ascend, as the keys of
/// an ordered map do.
pub open spec fn env_names_ascending(env: Seq<(String, String)>) -> bool {
    forall|i: int, j: int| 0 <= i < j < env.len() ==> text_less(env[i].0@, env[j].0@)
}

/// No text sorts before itself.
pub proof fn lemma_text_less_irreflexive(a: Seq<char>)
    ensures
        !text_less(a, a),
    decreases a.len(),
{
    if a.len() > 0 {
        lemma_text_less_irreflexive(a.drop_first());
    }
}

/// Sorting before is transitive.
pub proof fn lemma_text_less_transitive(a: Seq<char>, b: Seq<char>, c: Seq<char>)
    requires
        text_less(a, b),
        text_less(b, c),
    ensures
        text_less(a, c),
    decreases a.len(),
{
    if a.len() > 0 && a[0] == b[0] && b[0] == c[0] {
        lemma_text_less_transitive(a.drop_first(), b.drop_first(), c.drop_first());
    }
}

/// Whether the text `a[i..]` sorts before `b[i..]`.
fn less_from(a: &[char], b: &[char], i: usize) -> (r: bool)
    requires
        i <= a@.len(),
        i <= b@.len(),
    ensures
        r == text_less(a@.skip(i as int), b@.skip(i as int)),
    decreases a@.len() - i,
{
    let ghost x = a@.skip(i as int);
    let ghost y = b@.skip(i as int);
    if i == a.len() {
        return i < b.len();
    }
    if i == b.len() {
        return false;
    }
    assert(x[0] == a@[i as int] && y[0] == b@[i as int]);
    if a[i] != b[i] {
        return (a[i] as u32) < (b[i] as u32);
    }
    assert(x.drop_first() =~= a@.skip(i + 1));
    assert(y.drop_first() =~= b@.skip(i + 1));
    less_from(a, b, i + 1)
}

/// Whether the text `a` sorts before the text `b`.
pub fn text_before(a: &str, b: &str) -> (r: bool)
    ensures
        r == text_less(a@, b@),
{
    let x = chars_of(a);
    let y = chars_of(b);
    assert(x@.skip(0) =~= x@);
    assert(y@.skip(0) =~= y@);
    less_from(x.as_slice(), y.as_slice(), 0)
}

/// Whether the variable names of an environment list strictly ascend.
pub fn env_names_ascend(env: &Vec<(String, String)>) -> (r: bool)
    ensures
        r == env_names_ascending(env@),
{
    if env.len() == 0 {
        return true;
    }
    let mut i: usize = 0;
    while i < env.len() - 1
        invariant
            env@.len() > 0,
            i < env@.len(),
            forall|x: int, y: int| 0 <= x < y <= i ==> text_less(env@[x].0@, env@[y].0@),
        decreases env@.len() - i,
    {
        if !text_before(env[i].0.as_str(), env[i + 1].0.as_str()) {
            return false;
        }
        proof {
            assert forall|x: int, y: int| 0 <= x < y <= i + 1 implies text_less(
                env@[x].0@,
                env@[y].0@,
            ) by {
                if y == i + 1 && x < i {
                    lemma_text_less_transitive(env@[x].0@, env@[i as int].0@, env@[y].0@);
                }
            }
        }
        i = i + 1;
    }
    true
}

/// In an environment list whose names ascend, no name occurs twice.
pub proof fn lemma_ascending_names_distinct(env: Seq<(String, String)>)
    requires
        env_names_ascending(env),
    ensures
        env_names_distinct(env),
{
    assert forall|i: int, j: int| 0 <= i < j < env.len() implies env[i].0@ != env[j].0@ by {
        lemma_text_less_irreflexive(env[i].0@);
    }
}

/// Why a GPU configuration is refused.
#[derive(Debug, Clone, PartialEq, Eq)]
pub enum GpuConfigError {
    /// The command is blank or still the example's placeholder.
    CommandNotSet,
    /// No arguments are given.
    NoArgs,
}

impl GpuConfigError {
    /// The error as the miner reports it for the configuration file `path`.
    pub fn message(&self, path: &str) -> (r: String)
        ensures
            r@ == match self {
                GpuConfigError::CommandNotSet => "Set command in "@ + path@
                    + " to an installed Kaspa GPU miner executable"@,
                GpuConfigError::NoArgs => "GPU config "@ + path@ + " must include args"@,
            },
    {
        match self {
            GpuConfigError::CommandNotSet => {
                let head = concat("Set command in ", path);
                concat(head.as_str(), " to an installed Kaspa GPU miner executable")
            },
            GpuConfigError::NoArgs => {
                let head = concat("GPU config ", path);
                concat(head.as_str(), " must include args")
            },
        }
    }
}

/// `value` with the placeholders {pool}, {wallet}, {worker}, {login} and
/// {devices} replaced, in that order, by the pool, wallet, worker, the
/// login "wallet.worker" and the device selector.
pub open spec fn expand_spec(
    value: Seq<char>,
    pool: Seq<char>,
    wallet: Seq<char>,
    worker: Seq<char>,
    devices: Seq<char>,
) -> Seq<char> {
    replace_all(
        replace_all(
            replace_all(
                replace_all(replace_all(value, "{pool}"@, pool), "{wallet}"@, wallet),
                "{worker}"@,
                worker,
            ),
            "{login}"@,
            wallet + seq!['.'] + worker,
        ),
        "{devices}"@,
        devices,
    )
}

fn replace_placeholder(value: &Vec<char>, placeholder: &str, text: &Vec<char>) -> (r: Vec<char>)
    requires
        placeholder@.len() > 0,
    ensures
        r@ == replace_all(value@, placeholder@, text@),
{
    let pat = chars_of(placeholder);
    replace(value.as_slice(), pat.as_slice(), text.as_slice())
}

/// Replaces the placeholders in `value` with the configuration's values.
pub fn expand_placeholders(value: &str, config: &Config, devices: &str) -> (r: String)
    ensures
        r@ == expand_spec(value@, config.pool@, config.wallet@, config.worker@, devices@),
{
    proof {
        reveal_strlit("{pool}");
        reveal_strlit("{wallet}");
        reveal_strlit("{worker}");
        reveal_strlit("{login}");
        reveal_strlit("{devices}");
    }
    let v = chars_of(value);
    let v = replace_placeholder(&v, "{pool}", &chars_of(config.pool.as_str()));
    let v = replace_placeholder(&v, "{wallet}", &chars_of(config.wallet.as_str()));
    let v = replace_placeholder(&v, "{worker}", &chars_of(config.worker.as_str()));
    let login = config.login();
    let v = replace_placeholder(&v, "{login}", &chars_of(login.as_str()));
    let v = replace_placeholder(&v, "{devices}", &chars_of(devices));
    string_from(v.as_slice())
}

/// Expands the placeholders in every argument.
pub fn expand_args(args: &Vec<String>, config: &Config, devices: &str) -> (r: Vec<String>)
    ensures
        r@.len() == args@.len(),
        forall|i: int|
            0 <= i < args@.len() ==> #[trigger] r@[i]@ == expand_spec(
                args@[i]@,
                config.pool@,
                config.wallet@,
                config.worker@,
                devices@,
            ),
{
    let mut out: Vec<String> = Vec::new();
    for i in 0..args.len()
        invariant
            out@.len() == i,
            forall|k: int|
                0 <= k < i ==> #[trigger] out@[k]@ == expand_spec(
                    args@[k]@,
                    config.pool@,
                    config.wallet@,
                    config.worker@,
                    devices@,
                ),
    {
        out.push(expand_placeholders(args[i].as_str(), config, devices));
    }
    out
}

/// Expands the placeholders in every environment value; names and their
/// order stay as they are, so they still ascend.
pub fn expand_env(env: &Vec<(String, String)>, config: &Config, devices: &str) -> (r: Vec<
    (String, String),
>)
    requires
        env_names_ascending(env@),
    ensures
        r@.len() == env@.len(),
        forall|i: int|
            0 <= i < env@.len() ==> (#[trigger] r@[i]).0@ == env@[i].0@ && r@[i].1@ == expand_spec(
                env@[i].1@,
                config.pool@,
                config.wallet@,
                config.worker@,
                devices@,
            ),
        env_names_ascending(r@),
        env_names_distinct(r@),
{
    let mut out: Vec<(String, String)> = Vec::new();
    for i in 0..env.len()
        invariant
            out@.len() == i,
            forall|k: int|
                0 <= k < i ==> (#[trigger] out@[k]).0@ == env@[k].0@ && out@[k].1@ == expand_spec(
                    env@[k].1@,
                    config.pool@,
                    config.wallet@,
                    config.worker@,
                    devices@,
                ),
    {
        let name = env[i].0.clone();
        let value = expand_placeholders(env[i].1.as_str(), config, devices);
        out.push((name, value));
    }
    proof {
        assert forall|i: int, j: int| 0 <= i < j < out@.len() implies text_less(
            out@[i].0@,
            out@[j].0@,
        ) by {
            assert(out@[i].0@ == env@[i].0@);
            assert(out@[j].0@ == env@[j].0@);
        }
        lemma_ascending_names_distinct(out@);
    }
    out
}

/// The configuration's command is set (not blank, not the example's
/// placeholder) and it has arguments.
pub open spec fn gpu_config_error(command: Seq<char>, arg_count: nat) -> Option<GpuConfigError> {
    if trim(command).len() == 0 || contains_text(command, "YOUR_GPU_MINER_BINARY"@) {
        Some(GpuConfigError::CommandNotSet)
    } else if arg_count == 0 {
        Some(GpuConfigError::NoArgs)
    } else {
        None
    }
}

impl GpuConfig {
    /// Checks that the command is set and that arguments are given.
    pub fn validate(&self) -> (r: Result<(), GpuConfigError>)
        ensures
            r == match gpu_config_error(self.command@, self.args@.len()) {
                Some(e) => Err(e),
                None => Ok::<(), GpuConfigError>(()),
            },
    {
        let command = chars_of(self.command.as_str());
        let placeholder = chars_of("YOUR_GPU_MINER_BINARY");
        if trim_chars(command.as_slice()).len() == 0 || contains(
            command.as_slice(),
            placeholder.as_slice(),
        ) {
            return Err(GpuConfigError::CommandNotSet);
        }
        if self.args.len() == 0 {
            return Err(GpuConfigError::NoArgs);
        }
        Ok(())
    }
}

/// Restart the engine when it exits, unless configured otherwise.
pub fn default_restart() -> (r: bool)
    ensures
        r,
{
    true
}

/// Seconds to wait before restarting an engine that exited.
pub fn default_restart_delay_secs() -> (r: u64)
    ensures
        r == 10,
{
    10
}

/// What the watchdog does after the engine exits.
#[derive(Debug, Clone, PartialEq, Eq)]
pub enum ExitDecision {
    /// The engine exited cleanly: stop.
    Finished,
    /// The engine failed and is not to be restarted: stop with an error.
    Failed,
    /// The restart cap is reached: stop with an error; holds the cap.
    CapReached(u32),
    /// Restart after the delay; holds the number of restarts so far.
    Restart { restarts: u32, delay_secs: u64 },
}

/// What the watchdog does after an exit: stop when the engine succeeded;
/// fail when it is to run once or not to be restarted; otherwise count one
/// more restart (saturating) and restart after the delay, unless that count
/// exceeds the cap.
pub open spec fn exit_decision(
    restart: bool,
    delay_secs: u64,
    max_restarts: Option<u32>,
    once: bool,
    success: bool,
    restarts: u32,
) -> ExitDecision {
    if success {
        ExitDecision::Finished
    } else if once || !restart {
        ExitDecision::Failed
    } else {
        let n = if restarts == u32::MAX {
            restarts
        } else {
            (restarts + 1) as u32
        };
        match max_restarts {
            Some(max) => if n > max {
                ExitDecision::CapReached(max)
            } else {
                ExitDecision::Restart { restarts: n, delay_secs }
            },
            None => ExitDecision::Restart { restarts: n, delay_secs },
        }
    }
}

/// What follows an engine exit: a clean exit always finishes the watchdog;
/// a failed exit ends it in failure when the engine runs once only or may
/// not be restarted; otherwise the engine is restarted with the restart
/// count raised by one (saturating), after the configured delay, unless
/// that passes the cap, which ends the watchdog at the cap.
pub proof fn lemma_exit_outcomes(
    restart: bool,
    delay_secs: u64,
    max_restarts: Option<u32>,
    once: bool,
    success: bool,
    restarts: u32,
)
    ensures
        ({
            let d = exit_decision(restart, delay_secs, max_restarts, once, success, restarts);
            let n: int = if restarts < u32::MAX { restarts + 1 } else { restarts as int };
            &&& success ==> d == ExitDecision::Finished
            &&& (!success && (once || !restart)) ==> d == ExitDecision::Failed
            &&& (!success && !once && restart) ==> (if max_restarts is Some && n
                > max_restarts->0 {
                d == ExitDecision::CapReached(max_restarts->0)
            } else {
                d matches ExitDecision::Restart { restarts: m, delay_secs: w } && m == n && w
                    == delay_secs
            })
        }),
{
}

/// The watchdog restarts only a failed engine that may be restarted, counts
/// each restart, never goes past the restart cap, and waits the configured
/// delay first.
pub proof fn lemma_restart_within_cap(
    restart: bool,
    delay_secs: u64,
    max_restarts: Option<u32>,
    once: bool,
    success: bool,
    restarts: u32,
)
    requires
        restarts < u32::MAX,
    ensures
        exit_decision(restart, delay_secs, max_restarts, once, success, restarts) matches ExitDecision::Restart { restarts: n, delay_secs: d }
            ==> {
            &&& !success && !once && restart
            &&& n == restarts + 1
            &&& d == delay_secs
            &&& (max_restarts matches Some(max) ==> n <= max)
        },
{
}

impl GpuConfig {
    /// Decides what follows an engine exit, given whether it succeeded,
    /// whether the engine is to run once only, and how many restarts there
    /// have been before.
    pub fn after_exit(&self, once: bool, success: bool, restarts: u32) -> (r: ExitDecision)
        ensures
            r == exit_decision(self.restart, self.restart_delay_secs, self.max_restarts, once, success, restarts),
    {
        if success {
            return ExitDecision::Finished;
        }
        if once || !self.restart {
            return ExitDecision::Failed;
        }
        let n = restarts.saturating_add(1);
        if let Some(max) = self.max_restarts {
            if n > max {
                return ExitDecision::CapReached(max);
            }
        }
        ExitDecision::Restart { restarts: n, delay_secs: self.restart_delay_secs }
    }
}

} // verus!
