//! Jobs that run again and again until they are told to stop.
//!
//! The runner keeps the books of the jobs: it is told when an iteration has
//! returned and says whether, and after what delay, the next one begins.

pub mod model;
pub mod notice;

use vstd::prelude::*;
use vstd::arithmetic::power2::{lemma_pow2_strictly_increases, lemma_pow2_unfold, pow2};

verus! {

/// How long a job waits after failing: `base_millis` after the first failure
/// in a row, twice as long after each further one, and never longer than
/// `cap_millis`.
#[derive(Clone, Copy, Debug, PartialEq, Eq, Structural)]
pub struct BackoffPolicy {
    pub base_millis: u64,
    pub cap_millis: u64,
}

/// The delay before the next iteration after `failures` failures in a row.
pub open spec fn backoff_delay(policy: BackoffPolicy, failures: nat) -> nat {
    if failures == 0 {
        0
    } else if policy.base_millis * pow2((failures - 1) as nat) <= policy.cap_millis {
        policy.base_millis as nat * pow2((failures - 1) as nat)
    } else {
        policy.cap_millis as nat
    }
}

/// One more failure doubles what the uncapped delay would be.
proof fn lemma_doubling(base: nat, k: nat)
    requires
        k >= 1,
    ensures
        base * pow2(k) == 2 * (base * pow2((k - 1) as nat)),
{
    lemma_pow2_unfold(k);
    assert(base * (2 * pow2((k - 1) as nat)) == 2 * (base * pow2((k - 1) as nat)))
        by (nonlinear_arith);
}

/// More failures never make the uncapped delay shorter.
proof fn lemma_uncapped_monotone(base: nat, a: nat, b: nat)
    requires
        a <= b,
    ensures
        base * pow2(a) <= base * pow2(b),
{
    if a < b {
        lemma_pow2_strictly_increases(a, b);
    }
    assert(pow2(a) <= pow2(b) ==> base * pow2(a) <= base * pow2(b)) by (nonlinear_arith);
}

/// Under a policy with a base and a cap above zero, the delay after a
/// failure is above zero.
pub proof fn lemma_backoff_positive(policy: BackoffPolicy, failures: nat)
    requires
        policy.valid(),
        failures >= 1,
    ensures
        backoff_delay(policy, failures) >= 1,
{
    lemma_uncapped_monotone(policy.base_millis as nat, 0, (failures - 1) as nat);
    vstd::arithmetic::power2::lemma2_to64();
    assert(policy.base_millis * pow2(0) == policy.base_millis) by (nonlinear_arith)
        requires
            pow2(0) == 1,
    ;
}

/// The delay never exceeds the cap, and never shrinks as failures add up.
pub proof fn lemma_backoff_bounded_monotone(policy: BackoffPolicy, a: nat, b: nat)
    requires
        a <= b,
    ensures
        backoff_delay(policy, a) <= backoff_delay(policy, b) <= policy.cap_millis,
{
    if a >= 1 {
        lemma_uncapped_monotone(policy.base_millis as nat, (a - 1) as nat, (b - 1) as nat);
    }
}

impl BackoffPolicy {
    /// Whether the policy makes a failed job wait: its base and its cap are
    /// above zero.
    pub open spec fn valid(self) -> bool {
        self.base_millis > 0 && self.cap_millis > 0
    }

    /// Decides `valid`.
    pub fn is_valid(&self) -> (out: bool)
        ensures
            out == self.valid(),
    {
        self.base_millis > 0 && self.cap_millis > 0
    }

    /// Computes `backoff_delay`.
    pub fn delay_after(&self, failures: u32) -> (out: u64)
        ensures
            out == backoff_delay(*self, failures as nat),
    {
        if failures == 0 {
            return 0;
        }
        let base = self.base_millis;
        let cap = self.cap_millis;
        proof {
            vstd::arithmetic::power2::lemma2_to64();
        }
        if base == 0 {
            assert(0 * pow2((failures - 1) as nat) == 0) by (nonlinear_arith);
            return 0;
        }
        let mut delay: u64 = if base <= cap {
            base
        } else {
            cap
        };
        let mut k: u32 = 1;
        assert(base * pow2(0) == base) by (nonlinear_arith)
            requires
                pow2(0) == 1,
        ;
        while k < failures && delay < cap
            invariant
                1 <= k <= failures,
                base == self.base_millis,
                cap == self.cap_millis,
                base > 0,
                delay == backoff_delay(*self, k as nat),
            decreases failures - k,
        {
            proof {
                lemma_doubling(base as nat, k as nat);
            }
            delay = if delay > cap - delay {
                cap
            } else {
                delay + delay
            };
            k += 1;
        }
        proof {
            if k < failures {
                lemma_backoff_bounded_monotone(*self, k as nat, failures as nat);
            }
        }
        delay
    }
}

/// What a job's loop does once an iteration has returned.
#[derive(Clone, Copy, Debug, PartialEq, Eq, Structural)]
pub enum Directive {
    /// Begin the next iteration after this many milliseconds.
    Run { after_millis: u64 },
    /// Begin no further iteration.
    Halt,
}

/// The books of one job.
#[derive(Clone, Debug, PartialEq, Eq)]
pub struct JobRecord {
    pub name: String,
    /// Failures in a row up to now.
    pub failures: u32,
}

/// The books of all jobs.
#[derive(Clone, Debug, PartialEq, Eq)]
pub struct JobRunner {
    pub tasks: Vec<JobRecord>,
    pub policy: BackoffPolicy,
    pub stopped: bool,
}

/// The failures in a row once one more iteration has returned.
pub open spec fn failures_after(failures: u32, succeeded: bool) -> u32 {
    if succeeded {
        0
    } else if failures < u32::MAX {
        (failures + 1) as u32
    } else {
        failures
    }
}

impl JobRunner {
    /// Whether the runner's policy makes a failed job wait.
    pub open spec fn wf(self) -> bool {
        self.policy.valid()
    }

    /// A runner without jobs, under a policy whose base and cap are above
    /// zero.
    pub fn new(policy: BackoffPolicy) -> (out: JobRunner)
        requires
            policy.valid(),
        ensures
            out.wf(),
            out.tasks@.len() == 0,
            out.policy == policy,
            !out.stopped,
    {
        JobRunner { tasks: Vec::new(), policy, stopped: false }
    }

    /// Takes up a job under `name` and returns its number, by which its
    /// iterations are reported. A runner that was stopped takes up none.
    pub fn start(&mut self, name: &str) -> (out: Option<usize>)
        ensures
            final(self).policy == old(self).policy,
            final(self).stopped == old(self).stopped,
            old(self).stopped ==> out is None && final(self).tasks@ == old(self).tasks@,
            !old(self).stopped ==> {
                &&& out == Some(old(self).tasks@.len() as usize)
                &&& final(self).tasks@.len() == old(self).tasks@.len() + 1
                &&& final(self).tasks@.last().name@ == name@
                &&& final(self).tasks@.last().failures == 0
                &&& final(self).tasks@.drop_last() == old(self).tasks@
            },
    {
        if self.stopped {
            return None;
        }
        let job = self.tasks.len();
        self.tasks.push(JobRecord { name: name.to_owned(), failures: 0 });
        assert(self.tasks@.drop_last() =~= old(self).tasks@);
        Some(job)
    }

    /// What job `job` does now that an iteration of it has returned.
    pub open spec fn directive(self, job: int, succeeded: bool) -> Directive {
        if self.stopped || !(0 <= job < self.tasks@.len()) {
            Directive::Halt
        } else {
            Directive::Run {
                after_millis: backoff_delay(
                    self.policy,
                    failures_after(self.tasks@[job].failures, succeeded) as nat,
                ) as u64,
            }
        }
    }

    /// Records that an iteration of job `job` has returned, and says what
    /// the job does next: it halts where the runner was stopped or has no
    /// such job; else it runs again, at once after a success, and after the
    /// delay of the policy after a failure, which is above zero and within
    /// the cap.
    pub fn on_return(&mut self, job: usize, succeeded: bool) -> (out: Directive)
        requires
            old(self).wf(),
        ensures
            out == old(self).directive(job as int, succeeded),
            out is Run && succeeded ==> out->after_millis == 0,
            out is Run && !succeeded ==> 0 < out->after_millis <= old(self).policy.cap_millis,
            final(self).policy == old(self).policy,
            final(self).stopped == old(self).stopped,
            final(self).tasks@.len() == old(self).tasks@.len(),
            forall|k: int|
                0 <= k < old(self).tasks@.len() ==> {
                    &&& (#[trigger] final(self).tasks@[k]).name@ == old(self).tasks@[k].name@
                    &&& final(self).tasks@[k].failures == if k == job && !old(self).stopped {
                        failures_after(old(self).tasks@[k].failures, succeeded)
                    } else {
                        old(self).tasks@[k].failures
                    }
                },
    {
        if self.stopped || job >= self.tasks.len() {
            return Directive::Halt;
        }
        let before = self.tasks[job].failures;
        let failures = if succeeded {
            0
        } else if before < u32::MAX {
            before + 1
        } else {
            before
        };
        let name = self.tasks[job].name.clone();
        self.tasks.set(job, JobRecord { name, failures });
        proof {
            lemma_backoff_bounded_monotone(self.policy, failures as nat, failures as nat);
            if !succeeded {
                lemma_backoff_positive(self.policy, failures as nat);
            }
        }
        Directive::Run { after_millis: self.policy.delay_after(failures) }
    }

    /// Tells every job to stop: from now on no iteration begins.
    pub fn stop(&mut self)
        ensures
            final(self).stopped,
            final(self).policy == old(self).policy,
            final(self).tasks@ == old(self).tasks@,
            forall|job: int, succeeded: bool|
                #[trigger] final(self).directive(job, succeeded) == Directive::Halt,
    {
        self.stopped = true;
    }

    /// The name under which job `job` was taken up.
    pub fn name(&self, job: usize) -> (out: Option<String>)
        ensures
            match out {
                Some(name) => job < self.tasks@.len() && name@ == self.tasks@[job as int].name@,
                None => job >= self.tasks@.len(),
            },
    {
        if job < self.tasks.len() {
            Some(self.tasks[job].name.clone())
        } else {
            None
        }
    }
}

/// A job that succeeds runs again at once.
pub proof fn lemma_success_runs_at_once(runner: JobRunner, job: int)
    requires
        !runner.stopped,
        0 <= job < runner.tasks@.len(),
    ensures
        runner.directive(job, true) == (Directive::Run { after_millis: 0 }),
{
}

/// A job that fails runs again, after a delay that is above zero and that
/// the cap bounds.
pub proof fn lemma_failure_retries_within_cap(runner: JobRunner, job: int)
    requires
        runner.wf(),
        !runner.stopped,
        0 <= job < runner.tasks@.len(),
    ensures
        runner.directive(job, false) is Run,
        0 < runner.directive(job, false)->after_millis <= runner.policy.cap_millis,
{
    let failures = failures_after(runner.tasks@[job].failures, false);
    lemma_backoff_bounded_monotone(runner.policy, failures as nat, failures as nat);
    lemma_backoff_positive(runner.policy, failures as nat);
}

} // verus!
