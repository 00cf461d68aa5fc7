use vstd::prelude::*;

use crate::allow::hosts_view;
use crate::text::{lower_seq, to_ascii_lower, trim, trim_spec};

verus! {

/// Pause between two calls into one plugin unless its configuration says otherwise.
pub const DEFAULT_RATE_LIMIT_MS: u64 = 150;

/// Time a caller waits for one plugin reply unless the configuration says otherwise.
pub const DEFAULT_CALL_TIMEOUT_MS: u64 = 15000;

/// Length of one tick of the shared epoch counter.
pub const EPOCH_TICK_MS: u64 = 10;

/// Ticks added to the epoch counter to park a deadline while a plugin is idle.
pub const IDLE_DEADLINE_TICKS: u64 = 1000000000;

/// Wall time after which a plugin call is reported as slow.
pub const SLOW_CALL_MS: u64 = 5000;

/// Pause before the single retry of a failed plugin call.
pub const RETRY_DELAY_MS: u64 = 200;

/// Per-plugin settings read from the file beside the plugin's artifact.
#[derive(Clone, Debug)]
pub struct PluginConfig {
    pub allowed_hosts: Option<Vec<String>>,
    pub rate_limit_ms: Option<u64>,
    pub call_timeout_ms: Option<u64>,
}

/// An allow-list entry as it is matched: trimmed and ASCII-lowercased.
pub open spec fn host_entry_spec(s: Seq<char>) -> Seq<char> {
    lower_seq(trim_spec(s))
}

/// The allow-list entries as they are matched, with blank entries left out.
pub open spec fn clean_hosts_spec(list: Seq<Seq<char>>) -> Seq<Seq<char>> {
    list.map_values(|s: Seq<char>| host_entry_spec(s)).filter(|h: Seq<char>| h.len() > 0)
}

impl PluginConfig {
    /// The pause between two calls, 150 ms unless configured.
    pub fn rate_limit(&self) -> (r: u64)
        ensures
            r == match self.rate_limit_ms {
                Some(v) => v,
                None => DEFAULT_RATE_LIMIT_MS,
            },
    {
        match self.rate_limit_ms {
            Some(v) => v,
            None => DEFAULT_RATE_LIMIT_MS,
        }
    }

    /// The time to wait for a reply, 15 s unless configured.
    pub fn call_timeout(&self) -> (r: u64)
        ensures
            r == match self.call_timeout_ms {
                Some(v) => v,
                None => DEFAULT_CALL_TIMEOUT_MS,
            },
    {
        match self.call_timeout_ms {
            Some(v) => v,
            None => DEFAULT_CALL_TIMEOUT_MS,
        }
    }

    /// The allow-list as it is enforced: every entry trimmed and lowercased,
    /// blank entries dropped; an absent list stays absent.
    pub fn allowed_hosts_normalized(&self) -> (r: Option<Vec<String>>)
        ensures
            hosts_view(r) == match hosts_view(self.allowed_hosts) {
                Some(l) => Some(clean_hosts_spec(l)),
                None => None,
            },
    {
        match &self.allowed_hosts {
            None => None,
            Some(list) => {
                let ghost src = list@.map_values(|s: String| s@);
                let ghost pred = |h: Seq<char>| h.len() > 0;
                let ghost f = |s: Seq<char>| host_entry_spec(s);
                let mut out: Vec<String> = Vec::new();
                let mut i: usize = 0;
                while i < list.len()
                    invariant
                        src == list@.map_values(|s: String| s@),
                        pred == (|h: Seq<char>| h.len() > 0),
                        f == (|s: Seq<char>| host_entry_spec(s)),
                        i <= list.len(),
                        out@.map_values(|s: String| s@) == src.subrange(0, i as int).map_values(
                            f,
                        ).filter(pred),
                    decreases list.len() - i,
                {
                    let t = trim(list[i].as_str());
                    let h = to_ascii_lower(t.as_str());
                    proof {
                        reveal(Seq::filter);
                        let pre = src.subrange(0, i as int).map_values(f);
                        let post = src.subrange(0, i + 1).map_values(f);
                        assert(post.drop_last() =~= pre);
                        assert(post.last() == h@);
                    }
                    if h.unicode_len() > 0 {
                        let ghost before = out@;
                        out.push(h);
                        assert(out@.map_values(|s: String| s@) =~= before.map_values(
                            |s: String| s@,
                        ).push(h@));
                    }
                    i = i + 1;
                }
                assert(src.subrange(0, list.len() as int) =~= src);
                Some(out)
            },
        }
    }
}

/// Epoch ticks that cover a timeout: the timeout divided by the tick length,
/// rounded up.
pub open spec fn ticks_for(timeout_ms: nat, tick_ms: nat) -> nat
    recommends
        tick_ms > 0,
{
    if timeout_ms % tick_ms == 0 {
        timeout_ms / tick_ms
    } else {
        timeout_ms / tick_ms + 1
    }
}

/// `a + b`, held at `u64::MAX`.
pub open spec fn saturating_sum(a: nat, b: nat) -> nat {
    if a + b > u64::MAX {
        u64::MAX as nat
    } else {
        a + b
    }
}

/// The epoch deadline of a call that starts at tick `now`: enough ticks to
/// cover the call timeout, counting a tick length of zero as one.
pub fn call_deadline(now: u64, call_timeout_ms: u64, tick_ms: u64) -> (r: u64)
    ensures
        r == saturating_sum(
            now as nat,
            ticks_for(call_timeout_ms as nat, if tick_ms == 0 {
                1nat
            } else {
                tick_ms as nat
            }),
        ),
{
    let per: u64 = if tick_ms == 0 {
        1
    } else {
        tick_ms
    };
    let whole = call_timeout_ms / per;
    let need: u64 = if call_timeout_ms % per == 0 {
        whole
    } else {
        assert(whole < u64::MAX) by (nonlinear_arith)
            requires
                whole == call_timeout_ms / per,
                per >= 1,
                call_timeout_ms % per != 0,
        ;
        whole + 1
    };
    now.saturating_add(need)
}

/// The deadline that parks a plugin between calls.
pub fn idle_deadline(now: u64) -> (r: u64)
    ensures
        r == saturating_sum(now as nat, IDLE_DEADLINE_TICKS as nat),
{
    now.saturating_add(IDLE_DEADLINE_TICKS)
}

/// How long to pause before the next call so that calls into one plugin stand
/// at least `rate_limit_ms` apart; no pause before the first call.
pub fn throttle_wait(since_last_ms: Option<u64>, rate_limit_ms: u64) -> (r: u64)
    ensures
        r == match since_last_ms {
            Some(e) => if e < rate_limit_ms {
                (rate_limit_ms - e) as u64
            } else {
                0
            },
            None => 0,
        },
        since_last_ms.is_some() ==> since_last_ms.unwrap() + r >= rate_limit_ms,
{
    match since_last_ms {
        Some(e) => if e < rate_limit_ms {
            rate_limit_ms - e
        } else {
            0
        },
        None => 0,
    }
}

/// Whether a call took long enough to be reported.
pub fn is_slow(elapsed_ms: u64) -> (r: bool)
    ensures
        r == (elapsed_ms > SLOW_CALL_MS),
{
    elapsed_ms > SLOW_CALL_MS
}

/// What to do after one attempt of a plugin call.
#[derive(Clone, Copy, Debug, PartialEq, Eq, Structural)]
pub enum RetryStep {
    /// The attempt succeeded: hand its result back.
    Done,
    /// The first attempt failed: pause this many milliseconds and try once more.
    RetryAfter(u64),
    /// The retry failed too: report its error.
    GiveUp,
}

/// A failed plugin call is retried exactly once, after a short pause.
pub fn after_attempt(attempt: u32, succeeded: bool) -> (r: RetryStep)
    ensures
        succeeded ==> r == RetryStep::Done,
        !succeeded && attempt == 0 ==> r == RetryStep::RetryAfter(RETRY_DELAY_MS),
        !succeeded && attempt > 0 ==> r == RetryStep::GiveUp,
{
    if succeeded {
        RetryStep::Done
    } else if attempt == 0 {
        RetryStep::RetryAfter(RETRY_DELAY_MS)
    } else {
        RetryStep::GiveUp
    }
}

} // verus!
