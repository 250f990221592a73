//! Crash history and restart-policy evaluation: exponential backoff with a
//! capped exponent and a hard ceiling.

use vstd::prelude::*;

use crate::external::now_unix_seconds;
use crate::types::{RestartPolicy, RestartPolicyType};

verus! {

pub open spec fn pow2(e: nat) -> nat
    decreases e,
{
    if e == 0 {
        1
    } else {
        2 * pow2((e - 1) as nat)
    }
}

/// The backoff delay in seconds: `base * 2^min(crash_count - 1, 8)`, capped
/// at 300. A crash count of zero is treated like the first crash.
pub open spec fn spec_backoff(crash_count: u32, base: u64) -> int {
    let e: nat = if crash_count == 0 {
        0
    } else if crash_count - 1 > 8 {
        8
    } else {
        (crash_count - 1) as nat
    };
    if base * pow2(e) > 300 {
        300
    } else {
        base * pow2(e)
    }
}

/// What `should_restart` decides: no restart under `Never` or once an
/// `OnFailure` retry budget is exhausted; an immediate restart under
/// `Always`; otherwise a backoff delay with base default 5.
pub open spec fn spec_should_restart(p: RestartPolicy, crash_count: u32) -> Option<int> {
    match p.policy_type {
        RestartPolicyType::Never => None,
        RestartPolicyType::Always => Some(0int),
        RestartPolicyType::OnFailure => {
            if p.max_retries matches Some(mr) && crash_count > mr {
                None
            } else {
                let base = match p.backoff_seconds {
                    Some(b) => b,
                    None => 5u64,
                };
                Some(spec_backoff(crash_count, base))
            }
        },
    }
}

proof fn lemma_pow2_pos(e: nat)
    ensures
        pow2(e) >= 1,
    decreases e,
{
    if e > 0 {
        lemma_pow2_pos((e - 1) as nat);
    }
}

/// Crash history of one instance identifier. It survives crash-recovery
/// restarts of that identifier.
#[derive(Clone, Copy, Debug)]
pub struct CrashInfo {
    pub crash_count: u32,
    /// Unix seconds of the most recent crash, if any.
    pub last_crash_time: Option<i64>,
}

impl CrashInfo {
    pub fn new() -> (r: Self)
        ensures
            r.crash_count == 0,
            r.last_crash_time is None,
    {
        CrashInfo { crash_count: 0, last_crash_time: None }
    }

    /// Count one more crash; the count saturates rather than wrap.
    pub fn record_crash(&mut self)
        ensures
            final(self).crash_count == if old(self).crash_count == u32::MAX {
                u32::MAX as int
            } else {
                old(self).crash_count + 1
            },
            final(self).last_crash_time is Some,
    {
        if self.crash_count < u32::MAX {
            self.crash_count = self.crash_count + 1;
        }
        self.last_crash_time = Some(now_unix_seconds());
    }

    /// Exact exponential backoff with base `base_seconds`.
    pub fn calculate_backoff(&self, base_seconds: u64) -> (r: u64)
        ensures
            r == spec_backoff(self.crash_count, base_seconds),
    {
        let e: u32 = if self.crash_count == 0 {
            0
        } else if self.crash_count - 1 > 8 {
            8
        } else {
            self.crash_count - 1
        };
        if base_seconds >= 300 {
            proof {
                lemma_pow2_pos(e as nat);
                assert(base_seconds * pow2(e as nat) >= base_seconds * 1) by (nonlinear_arith)
                    requires
                        pow2(e as nat) >= 1,
                        base_seconds >= 0,
                ;
            }
            300
        } else {
            let factor: u64 = pow2_u64(e);
            proof {
                assert(base_seconds * factor <= 299 * 256) by (nonlinear_arith)
                    requires
                        base_seconds <= 299,
                        factor <= 256,
                ;
            }
            let delay = base_seconds * factor;
            if delay > 300 {
                300
            } else {
                delay
            }
        }
    }
}

impl Default for CrashInfo {
    /// A fresh history: no crashes yet.
    fn default() -> (r: Self)
        ensures
            r.crash_count == 0,
            r.last_crash_time is None,
    {
        CrashInfo::new()
    }
}

fn pow2_u64(e: u32) -> (r: u64)
    requires
        e <= 8,
    ensures
        r == pow2(e as nat),
        1 <= r <= 256,
{
    proof {
        reveal_with_fuel(pow2, 10);
    }
    if e == 0 {
        1
    } else if e == 1 {
        2
    } else if e == 2 {
        4
    } else if e == 3 {
        8
    } else if e == 4 {
        16
    } else if e == 5 {
        32
    } else if e == 6 {
        64
    } else if e == 7 {
        128
    } else {
        256
    }
}

/// Decides whether, and after what delay, a crashed instance restarts.
pub struct RestartPolicyEvaluator;

impl RestartPolicyEvaluator {
    /// The delay in seconds before a restart, or `None` for no restart.
    pub fn should_restart(policy: &RestartPolicy, crash_info: &CrashInfo) -> (r: Option<u64>)
        ensures
            match r {
                Some(d) => spec_should_restart(*policy, crash_info.crash_count) == Some(d as int),
                None => spec_should_restart(*policy, crash_info.crash_count) is None,
            },
    {
        match policy.policy_type {
            RestartPolicyType::Never => None,
            RestartPolicyType::Always => Some(0),
            RestartPolicyType::OnFailure => {
                match policy.max_retries {
                    Some(max_retries) if crash_info.crash_count > max_retries => None,
                    _ => {
                        let base = match policy.backoff_seconds {
                            Some(b) => b,
                            None => 5,
                        };
                        Some(crash_info.calculate_backoff(base))
                    },
                }
            },
        }
    }
}

/// Backoff law: for any crash count `n >= 1` and base `b`, the delay is
/// exactly `min(b * 2^min(n - 1, 8), 300)`.
pub proof fn lemma_backoff_formula(n: u32, b: u64)
    requires
        n >= 1,
    ensures
        spec_backoff(n, b) == vstd::math::min(
            b * pow2(vstd::math::min(n - 1, 8) as nat),
            300,
        ),
{
}

/// Restart-policy monotonicity: under `OnFailure` with a retry budget, the
/// evaluator refuses a restart exactly when the crash count exceeds it.
pub proof fn lemma_restart_policy_monotonic(p: RestartPolicy, crash_count: u32, max_retries: u32)
    requires
        p.policy_type == RestartPolicyType::OnFailure,
        p.max_retries == Some(max_retries),
    ensures
        spec_should_restart(p, crash_count) is None <==> crash_count > max_retries,
{
}

} // verus!
