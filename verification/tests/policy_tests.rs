use autocmd::policy::RepeatPolicy;
use autocmd::report::{cycle_output, CycleOutcome};

fn success(stdout: &str) -> CycleOutcome {
    CycleOutcome::Success {
        ok: true,
        stdout: String::from(stdout),
        stderr: String::new(),
    }
}

fn launch_failure(reason: &str) -> CycleOutcome {
    CycleOutcome::LaunchFailure {
        reason: String::from(reason),
    }
}

/// Drives the run loop as the binary does, with a scripted outcome
/// for each would-be launch, and counts the launches performed.
fn simulate(mut policy: RepeatPolicy, outcomes: &[CycleOutcome]) -> u64 {
    let mut launches: u64 = 0;
    let mut next: usize = 0;
    while policy.wants_cycle() {
        if next >= outcomes.len() {
            break;
        }
        let outcome = &outcomes[next];
        next += 1;
        launches += 1;
        let rep = cycle_output(outcome, "some command", false, false);
        if !rep.continue_run {
            break;
        }
        policy.step();
    }
    launches
}

#[test]
fn bounded_zero_never_launches() {
    let outcomes = [success("x\n"), success("x\n")];
    assert_eq!(simulate(RepeatPolicy::Bounded(0), &outcomes), 0);
}

#[test]
fn bounded_runs_exactly_the_count() {
    let outcomes: Vec<CycleOutcome> = (0..10).map(|_| success("x\n")).collect();
    assert_eq!(simulate(RepeatPolicy::Bounded(3), &outcomes), 3);
    assert_eq!(simulate(RepeatPolicy::Bounded(1), &outcomes), 1);
    assert_eq!(simulate(RepeatPolicy::Bounded(10), &outcomes), 10);
}

#[test]
fn infinite_runs_until_failure() {
    let outcomes = [
        success("x\n"),
        success("x\n"),
        launch_failure("No such file or directory"),
        success("x\n"),
        success("x\n"),
    ];
    assert_eq!(simulate(RepeatPolicy::Infinite, &outcomes), 3);
}

#[test]
fn missing_executable_is_one_attempt() {
    let outcomes = [
        launch_failure("No such file or directory"),
        success("x\n"),
    ];
    assert_eq!(simulate(RepeatPolicy::Infinite, &outcomes), 1);
}

#[test]
fn failure_overrides_remaining_count() {
    let outcomes = [success("x\n"), launch_failure("Permission denied")];
    assert_eq!(simulate(RepeatPolicy::Bounded(100), &outcomes), 2);
}

#[test]
fn wants_cycle_by_variant() {
    assert!(RepeatPolicy::Infinite.wants_cycle());
    assert!(RepeatPolicy::Bounded(1).wants_cycle());
    assert!(!RepeatPolicy::Bounded(0).wants_cycle());
}

#[test]
fn step_counts_down() {
    let mut p = RepeatPolicy::Bounded(3);
    p.step();
    assert_eq!(p, RepeatPolicy::Bounded(2));
    p.step();
    p.step();
    assert_eq!(p, RepeatPolicy::Bounded(0));
}

#[test]
fn step_keeps_infinite() {
    let mut p = RepeatPolicy::Infinite;
    p.step();
    assert_eq!(p, RepeatPolicy::Infinite);
}
