//! The text and decisions of the ASIC fleet report that need no telemetry
//! numbers: port status words, column truncation, counters and uptime,
//! fleet settings checks, and cleaning of CGMiner API replies.

use crate::text::{append_chars, chars_of, decimal, decimal_chars, string_from, subrange, trim, trim_chars};
use vstd::prelude::*;

verus! {

/// How a device port shows in the report: "up", "down", or "-" when not probed.
pub fn port_status(status: Option<bool>) -> (r: &'static str)
    ensures
        r@ == match status {
            Some(true) => "up"@,
            Some(false) => "down"@,
            None => "-"@,
        },
{
    match status {
        Some(true) => "up",
        Some(false) => "down",
        None => "-",
    }
}

/// A device's model, or "unknown" when none is configured.
pub fn model_or_unknown(model: &str) -> (r: &str)
    ensures
        r@ == if model@.len() == 0 {
            "unknown"@
        } else {
            model@
        },
{
    if model.is_empty() {
        "unknown"
    } else {
        model
    }
}

/// `value` cut to fit `width` characters: unchanged when it fits, else its
/// first `width - 1` characters (none when `width` is 0) followed by '.'.
pub open spec fn truncate_spec(value: Seq<char>, width: nat) -> Seq<char> {
    if value.len() <= width {
        value
    } else {
        value.take(if width == 0 {
            0
        } else {
            width - 1
        }) + seq!['.']
    }
}

/// Cuts `value` to fit a report column of `width` characters.
pub fn truncate(value: &str, width: usize) -> (r: String)
    ensures
        r@ == truncate_spec(value@, width as nat),
        r@.len() <= if width == 0 {
            1
        } else {
            width as int
        },
{
    let chars = chars_of(value);
    if chars.len() <= width {
        return value.to_owned();
    }
    let keep = width.saturating_sub(1);
    let mut out = subrange(chars.as_slice(), 0, keep);
    out.push('.');
    assert(out@ =~= truncate_spec(value@, width as nat));
    string_from(out.as_slice())
}

/// A counter in decimal, or "-" when unknown.
pub open spec fn count_text(value: Option<u64>) -> Seq<char> {
    match value {
        Some(v) => decimal(v as nat),
        None => "-"@,
    }
}

fn fmt_count(value: Option<u64>) -> (r: String)
    ensures
        r@ == count_text(value),
{
    match value {
        Some(v) => string_from(decimal_chars(v).as_slice()),
        None => "-".to_owned(),
    }
}

/// A fan speed in RPM, or "-" when unknown.
pub fn fmt_fan(value: Option<u64>) -> (r: String)
    ensures
        r@ == count_text(value),
{
    fmt_count(value)
}

/// A share count, or "-" when unknown.
pub fn fmt_u64(value: Option<u64>) -> (r: String)
    ensures
        r@ == count_text(value),
{
    fmt_count(value)
}

/// An uptime in seconds as whole days and hours ("2d5h"), hours alone
/// ("5h") under a day, or "-" when unknown.
pub open spec fn uptime_text(value: Option<u64>) -> Seq<char> {
    match value {
        Some(s) => {
            let days = s / 86_400;
            let hours = (s % 86_400) / 3_600;
            if days > 0 {
                decimal(days as nat) + seq!['d'] + decimal(hours as nat) + seq!['h']
            } else {
                decimal(hours as nat) + seq!['h']
            }
        },
        None => "-"@,
    }
}

/// An uptime as days and hours.
pub fn fmt_uptime(value: Option<u64>) -> (r: String)
    ensures
        r@ == uptime_text(value),
{
    let seconds = match value {
        Some(s) => s,
        None => {
            return "-".to_owned();
        },
    };
    let days = seconds / 86_400;
    let hours = (seconds % 86_400) / 3_600;
    let mut out: Vec<char> = Vec::new();
    if days > 0 {
        let d = decimal_chars(days);
        append_chars(&mut out, &d);
        out.push('d');
    }
    let h = decimal_chars(hours);
    append_chars(&mut out, &h);
    out.push('h');
    assert(out@ =~= uptime_text(value));
    string_from(out.as_slice())
}

/// Default seconds between fleet polls.
pub fn default_poll_secs() -> (r: u64)
    ensures
        r == 30,
{
    30
}

/// Default per-request timeout of a fleet poll, in milliseconds.
pub fn default_timeout_ms() -> (r: u64)
    ensures
        r == 750,
{
    750
}

/// Devices are polled unless disabled.
pub fn default_enabled() -> (r: bool)
    ensures
        r,
{
    true
}

/// Why a fleet configuration is refused.
#[derive(Debug, Clone, PartialEq, Eq)]
pub enum FleetError {
    NoDevices,
    ZeroTimeout,
}

impl FleetError {
    /// The error as the controller reports it.
    pub fn message(&self) -> (r: &'static str)
        ensures
            r@ == match self {
                FleetError::NoDevices => "Fleet config has no devices"@,
                FleetError::ZeroTimeout => "Fleet timeout_ms must be at least 1"@,
            },
    {
        match self {
            FleetError::NoDevices => "Fleet config has no devices",
            FleetError::ZeroTimeout => "Fleet timeout_ms must be at least 1",
        }
    }
}

/// Checks a fleet configuration: at least one device and a non-zero timeout.
pub fn check_fleet(device_count: usize, timeout_ms: u64) -> (r: Result<(), FleetError>)
    ensures
        r == if device_count == 0 {
            Err(FleetError::NoDevices)
        } else if timeout_ms == 0 {
            Err(FleetError::ZeroTimeout)
        } else {
            Ok::<(), FleetError>(())
        },
{
    if device_count == 0 {
        return Err(FleetError::NoDevices);
    }
    if timeout_ms == 0 {
        return Err(FleetError::ZeroTimeout);
    }
    Ok(())
}

/// A device is online when its API port or its web port answered.
pub fn is_online(api_online: Option<bool>, web_online: Option<bool>) -> (r: bool)
    ensures
        r == (api_online == Some(true) || web_online == Some(true)),
{
    let api = match api_online {
        Some(b) => b,
        None => false,
    };
    let web = match web_online {
        Some(b) => b,
        None => false,
    };
    api || web
}

/// `s` without leading and trailing NUL characters.
pub open spec fn trim_nul(s: Seq<char>) -> Seq<char>
    decreases s.len(),
{
    if s.len() > 0 && s[0] == '\0' {
        trim_nul(s.drop_first())
    } else if s.len() > 0 && s.last() == '\0' {
        trim_nul(s.drop_last())
    } else {
        s
    }
}

/// The text of a CGMiner API reply as the controller parses it: NUL
/// characters and then white space trimmed from both ends.
pub fn clean_reply_text(raw: &str) -> (r: String)
    ensures
        r@ == trim(trim_nul(raw@)),
{
    let chars = chars_of(raw);
    let mut a: usize = 0;
    let mut b: usize = chars.len();
    assert(chars@.subrange(0, b as int) =~= raw@);
    while a < b && (chars[a] == '\0' || chars[b - 1] == '\0')
        invariant
            a <= b <= chars@.len(),
            trim_nul(raw@) == trim_nul(chars@.subrange(a as int, b as int)),
        decreases b - a,
    {
        let ghost cur = chars@.subrange(a as int, b as int);
        if chars[a] == '\0' {
            assert(cur.drop_first() =~= chars@.subrange(a + 1, b as int));
            a = a + 1;
        } else {
            assert(cur.drop_last() =~= chars@.subrange(a as int, b - 1));
            b = b - 1;
        }
    }
    let inner = subrange(chars.as_slice(), a, b);
    let t = trim_chars(inner.as_slice());
    string_from(t.as_slice())
}


/// How many devices, given as (API port answered, web port answered), are
/// online.
pub open spec fn online_count(ports: Seq<(Option<bool>, Option<bool>)>) -> nat
    decreases ports.len(),
{
    if ports.len() == 0 {
        0
    } else {
        online_count(ports.drop_last()) + if ports.last().0 == Some(true) || ports.last().1
            == Some(true) {
            1nat
        } else {
            0nat
        }
    }
}

/// Counts the online devices of a report, each given by its two port
/// probes.
pub fn count_online(ports: &Vec<(Option<bool>, Option<bool>)>) -> (r: usize)
    ensures
        r == online_count(ports@),
{
    let mut n: usize = 0;
    let mut i: usize = 0;
    while i < ports.len()
        invariant
            i <= ports@.len(),
            n == online_count(ports@.take(i as int)),
            n <= i,
        decreases ports@.len() - i,
    {
        assert(ports@.take(i + 1).drop_last() =~= ports@.take(i as int));
        if is_online(ports[i].0, ports[i].1) {
            n = n + 1;
        }
        i = i + 1;
    }
    assert(ports@.take(ports@.len() as int) =~= ports@);
    n
}

/// The sum of the counts that devices reported; a device without a count
/// adds nothing.
pub open spec fn reported_sum(counts: Seq<Option<u64>>) -> nat
    decreases counts.len(),
{
    if counts.len() == 0 {
        0
    } else {
        reported_sum(counts.drop_last()) + match counts.last() {
            Some(c) => c as nat,
            None => 0nat,
        }
    }
}

proof fn lemma_reported_sum_grows(counts: Seq<Option<u64>>, i: int, j: int)
    requires
        0 <= i <= j <= counts.len(),
    ensures
        reported_sum(counts.take(i)) <= reported_sum(counts.take(j)),
    decreases j - i,
{
    if i < j {
        lemma_reported_sum_grows(counts, i, j - 1);
        assert(counts.take(j).drop_last() =~= counts.take(j - 1));
    }
}

/// Adds up the share counts that devices reported; `None` when the total
/// does not fit in a `u64`.
pub fn share_total(counts: &Vec<Option<u64>>) -> (r: Option<u64>)
    ensures
        r matches Some(t) ==> t == reported_sum(counts@),
        r is None ==> reported_sum(counts@) > u64::MAX,
{
    let mut total: u64 = 0;
    let mut i: usize = 0;
    while i < counts.len()
        invariant
            i <= counts@.len(),
            total == reported_sum(counts@.take(i as int)),
        decreases counts@.len() - i,
    {
        assert(counts@.take(i + 1).drop_last() =~= counts@.take(i as int));
        if let Some(c) = counts[i] {
            match total.checked_add(c) {
                Some(t) => {
                    total = t;
                },
                None => {
                    proof {
                        lemma_reported_sum_grows(counts@, i + 1, counts@.len() as int);
                        assert(counts@.take(counts@.len() as int) =~= counts@);
                    }
                    return None;
                },
            }
        }
        i = i + 1;
    }
    assert(counts@.take(counts@.len() as int) =~= counts@);
    Some(total)
}


/// `c` with an ASCII capital letter made lower case.
pub open spec fn ascii_lower(c: char) -> u32 {
    if 0x41 <= c as u32 && c as u32 <= 0x5A {
        (c as u32 + 32) as u32
    } else {
        c as u32
    }
}

/// `a` and `b` are the same text when ASCII letters are compared without
/// regard to case.
pub open spec fn same_ignoring_ascii_case(a: Seq<char>, b: Seq<char>) -> bool {
    a.len() == b.len() && forall|i: int| 0 <= i < a.len() ==> ascii_lower(a[i]) == ascii_lower(b[i])
}

fn lower_code(c: char) -> (r: u32)
    ensures
        r == ascii_lower(c),
{
    let u = c as u32;
    if 0x41 <= u && u <= 0x5A {
        u + 32
    } else {
        u
    }
}

/// Whether `a` and `b` are the same text but for the case of ASCII letters.
pub fn eq_ignore_case(a: &str, b: &str) -> (r: bool)
    ensures
        r == same_ignoring_ascii_case(a@, b@),
{
    let x = chars_of(a);
    let y = chars_of(b);
    if x.len() != y.len() {
        return false;
    }
    for i in 0..x.len()
        invariant
            x@ == a@,
            y@ == b@,
            x@.len() == y@.len(),
            forall|k: int| 0 <= k < i ==> ascii_lower(x@[k]) == ascii_lower(y@[k]),
    {
        if lower_code(x[i]) != lower_code(y[i]) {
            return false;
        }
    }
    true
}

/// Whether a pool row's status reads "alive", in any case.
pub open spec fn is_alive(status: Option<String>) -> bool {
    status matches Some(t) && same_ignoring_ascii_case(t@, "alive"@)
}

/// Which of a controller's pool rows, given by their status texts, the
/// report reads: the first whose status is "alive" in any case, else the
/// first row; `None` when there are no rows.
pub fn pick_pool_row(statuses: &Vec<Option<String>>) -> (r: Option<usize>)
    ensures
        r matches Some(i) ==> i < statuses@.len(),
        r is None <==> statuses@.len() == 0,
        r matches Some(i) ==> (is_alive(statuses@[i as int]) && forall|j: int|
            0 <= j < i ==> !is_alive(#[trigger] statuses@[j])) || (i == 0 && forall|j: int|
            0 <= j < statuses@.len() ==> !is_alive(#[trigger] statuses@[j])),
{
    for i in 0..statuses.len()
        invariant
            forall|j: int| 0 <= j < i ==> !is_alive(#[trigger] statuses@[j]),
    {
        let alive = match &statuses[i] {
            Some(t) => eq_ignore_case(t.as_str(), "alive"),
            None => false,
        };
        if alive {
            return Some(i);
        }
    }
    if statuses.len() > 0 {
        Some(0)
    } else {
        None
    }
}

} // verus!
