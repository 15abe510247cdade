use mrrper::jobs::{BackoffPolicy, Directive, JobRunner};

fn policy() -> BackoffPolicy {
    BackoffPolicy { base_millis: 1000, cap_millis: 60000 }
}

#[test]
fn delay_doubles_up_to_the_cap() {
    let p = policy();
    assert_eq!(p.delay_after(0), 0);
    assert_eq!(p.delay_after(1), 1000);
    assert_eq!(p.delay_after(2), 2000);
    assert_eq!(p.delay_after(3), 4000);
    assert_eq!(p.delay_after(6), 32000);
    assert_eq!(p.delay_after(7), 60000);
    assert_eq!(p.delay_after(8), 60000);
    assert_eq!(p.delay_after(u32::MAX), 60000);
}

#[test]
fn delay_at_the_edges() {
    let none = BackoffPolicy { base_millis: 0, cap_millis: 60000 };
    assert_eq!(none.delay_after(1), 0);
    assert_eq!(none.delay_after(500), 0);
    let capped = BackoffPolicy { base_millis: 5000, cap_millis: 3000 };
    assert_eq!(capped.delay_after(1), 3000);
    assert_eq!(capped.delay_after(2), 3000);
    let zero_cap = BackoffPolicy { base_millis: 5, cap_millis: 0 };
    assert_eq!(zero_cap.delay_after(3), 0);
    let huge = BackoffPolicy { base_millis: u64::MAX / 2 + 1, cap_millis: u64::MAX };
    assert_eq!(huge.delay_after(1), u64::MAX / 2 + 1);
    assert_eq!(huge.delay_after(2), u64::MAX);
    assert_eq!(huge.delay_after(70), u64::MAX);
    let wide = BackoffPolicy { base_millis: 1, cap_millis: u64::MAX };
    assert_eq!(wide.delay_after(64), 1u64 << 63);
    assert_eq!(wide.delay_after(65), u64::MAX);
}

#[test]
fn policy_needs_a_base_and_a_cap_above_zero() {
    assert!(policy().is_valid());
    assert!(BackoffPolicy { base_millis: 1, cap_millis: 1 }.is_valid());
    assert!(!BackoffPolicy { base_millis: 0, cap_millis: 60000 }.is_valid());
    assert!(!BackoffPolicy { base_millis: 1000, cap_millis: 0 }.is_valid());
}

#[test]
fn failed_job_always_waits() {
    let mut runner = JobRunner::new(BackoffPolicy { base_millis: 1, cap_millis: 1 });
    let job = runner.start("notices").unwrap();
    assert_eq!(runner.on_return(job, false), Directive::Run { after_millis: 1 });
    assert_eq!(runner.on_return(job, false), Directive::Run { after_millis: 1 });
    let mut capped = JobRunner::new(BackoffPolicy { base_millis: 5000, cap_millis: 3000 });
    let job = capped.start("notices").unwrap();
    assert_eq!(capped.on_return(job, false), Directive::Run { after_millis: 3000 });
}

#[test]
fn success_runs_again_at_once() {
    let mut runner = JobRunner::new(policy());
    let job = runner.start("notices").unwrap();
    assert_eq!(job, 0);
    assert_eq!(runner.on_return(job, true), Directive::Run { after_millis: 0 });
    assert_eq!(runner.tasks[job].failures, 0);
}

#[test]
fn failure_retries_after_a_growing_delay() {
    let mut runner = JobRunner::new(policy());
    let job = runner.start("notices").unwrap();
    assert_eq!(runner.on_return(job, false), Directive::Run { after_millis: 1000 });
    assert_eq!(runner.on_return(job, false), Directive::Run { after_millis: 2000 });
    assert_eq!(runner.on_return(job, false), Directive::Run { after_millis: 4000 });
    assert_eq!(runner.tasks[job].failures, 3);
    assert_eq!(runner.on_return(job, true), Directive::Run { after_millis: 0 });
    assert_eq!(runner.on_return(job, false), Directive::Run { after_millis: 1000 });
}

#[test]
fn jobs_are_kept_apart() {
    let mut runner = JobRunner::new(policy());
    let first = runner.start("notices").unwrap();
    let second = runner.start("grades").unwrap();
    assert_eq!((first, second), (0, 1));
    assert_eq!(runner.name(first), Some("notices".to_string()));
    assert_eq!(runner.name(second), Some("grades".to_string()));
    assert_eq!(runner.name(2), None);
    assert_eq!(runner.on_return(first, false), Directive::Run { after_millis: 1000 });
    assert_eq!(runner.on_return(first, false), Directive::Run { after_millis: 2000 });
    assert_eq!(runner.on_return(second, false), Directive::Run { after_millis: 1000 });
    assert_eq!(runner.on_return(7, false), Directive::Halt);
}

#[test]
fn nothing_begins_after_stop() {
    let mut runner = JobRunner::new(policy());
    let job = runner.start("notices").unwrap();
    runner.stop();
    assert!(runner.stopped);
    assert_eq!(runner.on_return(job, true), Directive::Halt);
    assert_eq!(runner.on_return(job, false), Directive::Halt);
    assert_eq!(runner.tasks[job].failures, 0);
    assert_eq!(runner.start("late"), None);
    assert_eq!(runner.tasks.len(), 1);
}

#[test]
fn failures_do_not_overflow() {
    let mut runner = JobRunner::new(policy());
    let job = runner.start("notices").unwrap();
    runner.tasks[job].failures = u32::MAX;
    assert_eq!(runner.on_return(job, false), Directive::Run { after_millis: 60000 });
    assert_eq!(runner.tasks[job].failures, u32::MAX);
}
