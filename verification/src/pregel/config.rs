//! The settings of a run: the cap on supersteps, retries, checkpoints.

use vstd::prelude::*;
use crate::pregel::error::PregelError;

verus! {

/// How long to wait before a vertex is run again.
#[derive(Debug, Clone, Copy, PartialEq, Eq, Structural)]
pub enum Backoff {
    /// No wait.
    Immediate,
    /// The same wait every time, in milliseconds.
    Fixed(u64),
    /// A wait that grows: the first number is the wait after the first
    /// failure, in milliseconds, and each further wait is the last one times
    /// the second number.
    Exponential(u64, u64),
}

/// Which vertex failures are retried.
#[derive(Debug, Clone, Copy, PartialEq, Eq, Structural)]
pub enum RetryOn {
    /// Every failure of a vertex.
    All,
    /// Only the transient ones.
    TransientOnly,
}

/// What to do about a failed compute call.
#[derive(Debug, Clone, Copy, PartialEq, Eq, Structural)]
pub enum RetryDecision {
    /// Run the vertex again, after this many milliseconds, with the same
    /// mailbox and state view.
    Retry { delay_ms: u64 },
    /// The failure is final.
    GiveUp,
}

/// `base * factor^exponent`.
pub open spec fn scaled(base: nat, factor: nat, exponent: nat) -> nat
    decreases exponent,
{
    if exponent == 0 {
        base
    } else {
        scaled(base, factor, (exponent - 1) as nat) * factor
    }
}

/// The wait after the given number of failed attempts, in milliseconds,
/// before it is cut to what fits.
pub open spec fn backoff_of(backoff: Backoff, failed: nat) -> nat {
    match backoff {
        Backoff::Immediate => 0,
        Backoff::Fixed(ms) => ms as nat,
        Backoff::Exponential(base_ms, factor) => scaled(
            base_ms as nat,
            factor as nat,
            if failed == 0 {
                0
            } else {
                (failed - 1) as nat
            },
        ),
    }
}

/// A wait, cut to the largest that fits.
pub open spec fn capped(wait: nat) -> u64 {
    if wait > u64::MAX {
        u64::MAX
    } else {
        wait as u64
    }
}

proof fn lemma_scaled_grows(base: nat, factor: nat, low: nat, high: nat)
    requires
        factor >= 1,
        low <= high,
    ensures
        scaled(base, factor, low) <= scaled(base, factor, high),
    decreases high,
{
    if low < high {
        lemma_scaled_grows(base, factor, low, (high - 1) as nat);
        let below = scaled(base, factor, (high - 1) as nat);
        assert(below <= below * factor) by (nonlinear_arith)
            requires
                factor >= 1,
        ;
    }
}

proof fn lemma_scaled_by_one(base: nat, exponent: nat)
    ensures
        scaled(base, 1, exponent) == base,
    decreases exponent,
{
    if exponent > 0 {
        lemma_scaled_by_one(base, (exponent - 1) as nat);
    }
}

/// How failed compute calls are retried.
#[derive(Debug, Clone, Copy, PartialEq, Eq, Structural)]
pub struct RetryPolicy {
    /// How often a vertex is run at most in one superstep.
    pub max_attempts: u32,
    pub backoff: Backoff,
    pub retry_on: RetryOn,
}

impl Default for RetryPolicy {
    fn default() -> (policy: Self)
        ensures
            policy == (RetryPolicy {
                max_attempts: 1,
                backoff: Backoff::Immediate,
                retry_on: RetryOn::TransientOnly,
            }),
    {
        RetryPolicy { max_attempts: 1, backoff: Backoff::Immediate, retry_on: RetryOn::TransientOnly }
    }
}

impl RetryPolicy {
    /// Whether a failure is retried, given how many attempts have failed so
    /// far, this one included: attempts must be left, the failure must be
    /// that of a vertex, and it must be of a kind that the policy retries.
    pub open spec fn retries(&self, error: PregelError, failed: u32) -> bool {
        &&& failed < self.max_attempts
        &&& error.from_vertex()
        &&& self.retry_on == RetryOn::All || error.retryable()
    }

    /// The wait before the next attempt, after `failed` failed ones.
    pub fn delay(&self, failed: u32) -> (delay_ms: u64)
        ensures
            delay_ms == capped(backoff_of(self.backoff, failed as nat)),
    {
        match self.backoff {
            Backoff::Immediate => 0,
            Backoff::Fixed(ms) => ms,
            Backoff::Exponential(base_ms, factor) => {
                let exponent: u32 = if failed == 0 {
                    0
                } else {
                    failed - 1
                };
                if exponent == 0 {
                    return base_ms;
                }
                if factor == 0 {
                    assert(scaled(base_ms as nat, 0, exponent as nat) == 0) by (nonlinear_arith)
                        requires
                            scaled(base_ms as nat, 0, exponent as nat) == scaled(
                                base_ms as nat,
                                0,
                                (exponent - 1) as nat,
                            ) * 0,
                    ;
                    return 0;
                }
                if factor == 1 {
                    proof {
                        lemma_scaled_by_one(base_ms as nat, exponent as nat);
                    }
                    return base_ms;
                }
                if base_ms == 0 {
                    proof {
                        lemma_scaled_of_zero(factor as nat, exponent as nat);
                    }
                    return 0;
                }
                let mut wait: u64 = base_ms;
                let mut done: u32 = 0;
                while done < exponent
                    invariant
                        done <= exponent,
                        factor >= 2,
                        backoff_of(self.backoff, failed as nat) == scaled(
                            base_ms as nat,
                            factor as nat,
                            exponent as nat,
                        ),
                        wait == scaled(base_ms as nat, factor as nat, done as nat),
                    decreases exponent - done,
                {
                    if wait > u64::MAX / factor {
                        proof {
                            let next = scaled(base_ms as nat, factor as nat, (done + 1) as nat);
                            assert(next == wait as nat * factor as nat);
                            assert(wait as nat * factor as nat > u64::MAX) by (nonlinear_arith)
                                requires
                                    wait > u64::MAX / factor,
                                    factor >= 2,
                            ;
                            lemma_scaled_grows(
                                base_ms as nat,
                                factor as nat,
                                (done + 1) as nat,
                                exponent as nat,
                            );
                        }
                        return u64::MAX;
                    }
                    assert(wait * factor <= u64::MAX) by (nonlinear_arith)
                        requires
                            wait <= u64::MAX / factor,
                            factor >= 2,
                    ;
                    wait = wait * factor;
                    done = done + 1;
                }
                wait
            },
        }
    }

    /// Decides about a failed compute call, given how many attempts have
    /// failed so far, this one included.
    pub fn decide(&self, error: &PregelError, failed: u32) -> (decision: RetryDecision)
        ensures
            decision == (if self.retries(*error, failed) {
                RetryDecision::Retry { delay_ms: capped(backoff_of(self.backoff, failed as nat)) }
            } else {
                RetryDecision::GiveUp
            }),
    {
        let kind = match self.retry_on {
            RetryOn::All => true,
            RetryOn::TransientOnly => error.is_retryable(),
        };
        if failed < self.max_attempts && error.is_vertex_error() && kind {
            RetryDecision::Retry { delay_ms: self.delay(failed) }
        } else {
            RetryDecision::GiveUp
        }
    }
}

proof fn lemma_scaled_of_zero(factor: nat, exponent: nat)
    ensures
        scaled(0, factor, exponent) == 0,
    decreases exponent,
{
    if exponent > 0 {
        lemma_scaled_of_zero(factor, (exponent - 1) as nat);
        assert(0 * factor == 0) by (nonlinear_arith);
    }
}

/// When the runtime writes a checkpoint.
#[derive(Debug, Clone, Copy, PartialEq, Eq, Structural)]
pub enum CheckpointCadence {
    Never,
    /// After every superstep.
    EveryStep,
    /// After every superstep whose count is a multiple of this number.
    EveryN(u64),
    /// After the superstep that leaves no vertex active.
    OnHalt,
}

impl CheckpointCadence {
    /// Whether a checkpoint is due once `completed` supersteps are done;
    /// `halting` says that no vertex is left active.
    pub open spec fn due(self, completed: u64, halting: bool) -> bool {
        match self {
            CheckpointCadence::Never => false,
            CheckpointCadence::EveryStep => true,
            CheckpointCadence::EveryN(every) => every > 0 && completed % every == 0,
            CheckpointCadence::OnHalt => halting,
        }
    }

    pub fn is_due(&self, completed: u64, halting: bool) -> (answer: bool)
        ensures
            answer == self.due(completed, halting),
    {
        match self {
            CheckpointCadence::Never => false,
            CheckpointCadence::EveryStep => true,
            CheckpointCadence::EveryN(every) => *every > 0 && completed % *every == 0,
            CheckpointCadence::OnHalt => halting,
        }
    }
}

/// Where checkpoints are kept.
#[derive(Debug, PartialEq)]
pub enum CheckpointBackend {
    /// In this process.
    Memory,
    /// One file for each checkpoint, in this directory.
    File { dir: String },
    /// A store of the caller's.
    Custom,
}

/// How many vertices may compute at once.
#[derive(Debug, Clone, Copy, PartialEq, Eq, Structural)]
pub enum Parallelism {
    Bounded(u32),
    Unbounded,
}

/// The settings of one run.
#[derive(Debug, PartialEq)]
pub struct PregelConfig {
    /// The run fails once this many supersteps are done and a vertex is
    /// still active.
    pub max_supersteps: u32,
    /// The time that one compute call may take, in milliseconds.
    pub per_vertex_timeout_ms: Option<u64>,
    pub retry_policy: RetryPolicy,
    pub checkpoint_cadence: CheckpointCadence,
    pub checkpoint_backend: CheckpointBackend,
    pub parallelism: Parallelism,
    pub deterministic_ordering: bool,
}

impl Default for PregelConfig {
    fn default() -> (config: Self)
        ensures
            config == (PregelConfig {
                max_supersteps: 100,
                per_vertex_timeout_ms: None,
                retry_policy: RetryPolicy {
                    max_attempts: 1,
                    backoff: Backoff::Immediate,
                    retry_on: RetryOn::TransientOnly,
                },
                checkpoint_cadence: CheckpointCadence::Never,
                checkpoint_backend: CheckpointBackend::Memory,
                parallelism: Parallelism::Unbounded,
                deterministic_ordering: true,
            }),
    {
        PregelConfig {
            max_supersteps: 100,
            per_vertex_timeout_ms: None,
            retry_policy: RetryPolicy::default(),
            checkpoint_cadence: CheckpointCadence::Never,
            checkpoint_backend: CheckpointBackend::Memory,
            parallelism: Parallelism::Unbounded,
            deterministic_ordering: true,
        }
    }
}

} // verus!
