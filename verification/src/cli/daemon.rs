//! The daemon's supervision: the restart backoff and the state it records.

use vstd::prelude::*;

verus! {

/// First restart delay.
pub const INITIAL_BACKOFF_MS: u64 = 1000;

/// Longest restart delay (5 minutes).
pub const MAX_BACKOFF_MS: u64 = 300000;

/// The delay after `current_ms`: doubled, at most `MAX_BACKOFF_MS`.
pub open spec fn backoff_after(current_ms: u64) -> u64 {
    if 2 * current_ms <= MAX_BACKOFF_MS {
        (2 * current_ms) as u64
    } else {
        MAX_BACKOFF_MS
    }
}

pub fn compute_backoff(current_ms: u64) -> (r: u64)
    ensures
        r == backoff_after(current_ms),
{
    if current_ms <= MAX_BACKOFF_MS / 2 {
        current_ms * 2
    } else {
        MAX_BACKOFF_MS
    }
}

/// The delay after `n` failures in a row.
pub open spec fn backoff_after_n(n: nat) -> u64
    decreases n,
{
    if n == 0 {
        INITIAL_BACKOFF_MS
    } else {
        backoff_after(backoff_after_n((n - 1) as nat))
    }
}

/// The restart delay never exceeds the cap, never shrinks from one failure
/// to the next, and from the initial delay reaches the cap after nine
/// failures and stays there.
pub proof fn lemma_backoff_bounded_monotone(current_ms: u64, n: nat)
    ensures
        backoff_after(current_ms) <= MAX_BACKOFF_MS,
        current_ms <= MAX_BACKOFF_MS ==> current_ms <= backoff_after(current_ms),
        INITIAL_BACKOFF_MS <= backoff_after_n(n) <= MAX_BACKOFF_MS,
        n >= 9 ==> backoff_after_n(n) == MAX_BACKOFF_MS,
    decreases n,
{
    if n > 0 {
        lemma_backoff_bounded_monotone(backoff_after_n((n - 1) as nat), (n - 1) as nat);
        if n >= 9 {
            if n > 9 {
                lemma_backoff_bounded_monotone(current_ms, (n - 1) as nat);
            } else {
                assert(backoff_after_n(1) == 2000) by {
                    reveal_with_fuel(backoff_after_n, 2);
                }
                assert(backoff_after_n(2) == 4000);
                assert(backoff_after_n(3) == 8000);
                assert(backoff_after_n(4) == 16000);
                assert(backoff_after_n(5) == 32000);
                assert(backoff_after_n(6) == 64000);
                assert(backoff_after_n(7) == 128000);
                assert(backoff_after_n(8) == 256000);
            }
        }
    }
}

/// The daemon's recorded state.
#[derive(Debug, Clone)]
pub struct DaemonState {
    pub status: String,
    pub started_at: String,
    pub gateway: String,
    pub components: Vec<ComponentState>,
}

/// The recorded state of one supervised component.
#[derive(Debug, Clone)]
pub struct ComponentState {
    pub name: String,
    pub running: bool,
    pub restart_count: u64,
    pub last_error: Option<String>,
}

/// The supervisor of the gateway: the restarts so far and the next delay.
pub struct Supervisor {
    pub restart_count: u64,
    pub backoff_ms: u64,
}

impl Supervisor {
    /// No restart yet; the first delay is `INITIAL_BACKOFF_MS`.
    pub fn new() -> (r: Self)
        ensures
            r.restart_count == 0,
            r.backoff_ms == INITIAL_BACKOFF_MS,
    {
        Supervisor { restart_count: 0, backoff_ms: INITIAL_BACKOFF_MS }
    }

    /// Counts a gateway failure; gives the attempt number and the delay to
    /// wait before the restart, and doubles the next delay up to the cap.
    pub fn on_failure(&mut self) -> (r: (u64, u64))
        ensures
            final(self).restart_count == old(self).restart_count.wrapping_add(1),
            r.0 == final(self).restart_count,
            r.1 == old(self).backoff_ms,
            final(self).backoff_ms == backoff_after(old(self).backoff_ms),
    {
        self.restart_count = self.restart_count.wrapping_add(1);
        let delay = self.backoff_ms;
        self.backoff_ms = compute_backoff(self.backoff_ms);
        (self.restart_count, delay)
    }

    /// The state to record: `status`, with the gateway component running or
    /// not, this supervisor's restart count, and the last error if any.
    pub fn state(
        &self,
        status: &str,
        started_at: &str,
        gateway: &str,
        running: bool,
        last_error: Option<String>,
    ) -> (r: DaemonState)
        ensures
            r.status@ == status@,
            r.started_at@ == started_at@,
            r.gateway@ == gateway@,
            r.components@.len() == 1,
            r.components@[0].name@ == "gateway"@,
            r.components@[0].running == running,
            r.components@[0].restart_count == self.restart_count,
            r.components@[0].last_error == last_error,
    {
        let component = ComponentState {
            name: String::from_str("gateway"),
            running,
            restart_count: self.restart_count,
            last_error,
        };
        let mut components = Vec::new();
        components.push(component);
        DaemonState {
            status: String::from_str(status),
            started_at: String::from_str(started_at),
            gateway: String::from_str(gateway),
            components,
        }
    }
}

} // verus!
