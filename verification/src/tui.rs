//! State of the terminal dashboard that outlives one frame.

use crate::text::{append_chars, append_str, chars_of, decimal, decimal_chars, string_from};
use vstd::prelude::*;

verus! {

/// Most log lines the dashboard keeps.
pub const LOG_LIMIT: usize = 200;

/// What the dashboard remembers between frames.
pub struct TuiState {
    pub log: Vec<String>,
    pub job_id: String,
    pub connected: bool,
    pub accepted: u64,
    pub rejected: u64,
}

impl TuiState {
    /// Appends `msg` to the log, dropping the oldest line when the log
    /// would hold more than 200 lines.
    pub fn push_log(&mut self, msg: String)
        ensures
            final(self).log@ == if old(self).log@.len() + 1 > LOG_LIMIT {
                old(self).log@.push(msg).drop_first()
            } else {
                old(self).log@.push(msg)
            },
            old(self).log@.len() <= LOG_LIMIT ==> final(self).log@.len() <= LOG_LIMIT,
            final(self).job_id == old(self).job_id,
            final(self).connected == old(self).connected,
            final(self).accepted == old(self).accepted,
            final(self).rejected == old(self).rejected,
    {
        self.log.push(msg);
        if self.log.len() > LOG_LIMIT {
            self.log.remove(0);
        }
    }
}

/// What the pool session reports to the dashboard.
#[derive(Debug, Clone)]
pub enum DashEvent {
    Connected,
    Disconnected,
    NewJob(String),
    ShareAccepted,
    ShareRejected(String),
    /// The new share difficulty, as the session writes it.
    Difficulty(String),
    Extranonce(String),
    Error(String),
}

/// The log line the dashboard writes for an event.
pub open spec fn dash_line(ev: DashEvent) -> Seq<char> {
    match ev {
        DashEvent::Connected => "Pool connected"@,
        DashEvent::Disconnected => "Pool disconnected"@,
        DashEvent::NewJob(id) => "New job: "@ + id@,
        DashEvent::ShareAccepted => "✓ Share accepted"@,
        DashEvent::ShareRejected(r) => "✗ Rejected: "@ + r@,
        DashEvent::Difficulty(d) => "Difficulty: "@ + d@,
        DashEvent::Extranonce(e) => "Extranonce: "@ + e@,
        DashEvent::Error(m) => "ERR "@ + m@,
    }
}

/// The lines of `log` that stay when one more line is added.
pub open spec fn kept_lines(log: Seq<String>) -> Seq<String> {
    if log.len() + 1 > LOG_LIMIT {
        log.drop_first()
    } else {
        log
    }
}

/// `label` followed by `s`.
fn labelled(label: &str, s: &str) -> (r: String)
    ensures
        r@ == label@ + s@,
{
    let mut v = chars_of(label);
    append_str(&mut v, s);
    string_from(v.as_slice())
}

impl TuiState {
    /// Takes one event from the pool session into the dashboard: the
    /// connection flag, the current job and the share counts follow it, and
    /// a line describing it is logged.
    pub fn apply(&mut self, ev: &DashEvent)
        requires
            *ev is ShareAccepted ==> old(self).accepted < u64::MAX,
            *ev is ShareRejected ==> old(self).rejected < u64::MAX,
        ensures
            final(self).log@.len() > 0,
            final(self).log@.last()@ == dash_line(*ev),
            final(self).log@.drop_last() == kept_lines(old(self).log@),
            final(self).connected == match *ev {
                DashEvent::Connected => true,
                DashEvent::Disconnected => false,
                _ => old(self).connected,
            },
            final(self).job_id@ == match *ev {
                DashEvent::NewJob(id) => id@,
                _ => old(self).job_id@,
            },
            final(self).accepted == old(self).accepted + if *ev is ShareAccepted {
                1int
            } else {
                0int
            },
            final(self).rejected == old(self).rejected + if *ev is ShareRejected {
                1int
            } else {
                0int
            },
    {
        let line = match ev {
            DashEvent::Connected => {
                self.connected = true;
                "Pool connected".to_owned()
            },
            DashEvent::Disconnected => {
                self.connected = false;
                "Pool disconnected".to_owned()
            },
            DashEvent::NewJob(id) => {
                let cs = chars_of(id.as_str());
                self.job_id = string_from(cs.as_slice());
                labelled("New job: ", id.as_str())
            },
            DashEvent::ShareAccepted => {
                self.accepted = self.accepted + 1;
                "✓ Share accepted".to_owned()
            },
            DashEvent::ShareRejected(r) => {
                self.rejected = self.rejected + 1;
                labelled("✗ Rejected: ", r.as_str())
            },
            DashEvent::Difficulty(d) => labelled("Difficulty: ", d.as_str()),
            DashEvent::Extranonce(e) => labelled("Extranonce: ", e.as_str()),
            DashEvent::Error(m) => labelled("ERR ", m.as_str()),
        };
        let ghost before = self.log@;
        self.push_log(line);
        proof {
            if before.len() + 1 > LOG_LIMIT {
                assert(before.push(line).drop_first().drop_last() =~= before.drop_first());
            } else {
                assert(before.push(line).drop_last() =~= before);
            }
        }
    }
}

/// Whole seconds as "Hh Mm Ss", or "Mm Ss" under an hour.
pub open spec fn elapsed_text(secs: u64) -> Seq<char> {
    let h = secs / 3600;
    let m = (secs % 3600) / 60;
    let s = secs % 60;
    if h > 0 {
        decimal(h as nat) + "h "@ + decimal(m as nat) + "m "@ + decimal(s as nat) + "s"@
    } else {
        decimal(m as nat) + "m "@ + decimal(s as nat) + "s"@
    }
}

/// Formats an elapsed time in whole seconds for the dashboard.
pub fn fmt_elapsed(secs: u64) -> (r: String)
    ensures
        r@ == elapsed_text(secs),
{
    let h = secs / 3600;
    let m = (secs % 3600) / 60;
    let s = secs % 60;
    let mut out: Vec<char> = Vec::new();
    if h > 0 {
        let hd = decimal_chars(h);
        append_chars(&mut out, &hd);
        append_str(&mut out, "h ");
    }
    let md = decimal_chars(m);
    append_chars(&mut out, &md);
    append_str(&mut out, "m ");
    let sd = decimal_chars(s);
    append_chars(&mut out, &sd);
    append_str(&mut out, "s");
    assert(out@ =~= elapsed_text(secs));
    string_from(out.as_slice())
}

} // verus!
