use superinstance_agent_trait::forgemaster::Forgemaster;
use superinstance_agent_trait::{Agent, AgentRunner, AgentState, Bottle, RunnerError};

/// Helper: create a system bottle.
fn sys_bottle(action: &str, trits: Vec<i8>) -> Bottle {
    Bottle::new_empty("system", "forgemaster", action, trits, 300)
}

/// Helper: create a cycle request bottle.
fn cycle_request(trits: Vec<i8>) -> Bottle {
    Bottle::new_empty("fleet-edge", "forgemaster", "cycle.request", trits, 300)
}

/// Forgemaster handles cycle.request and returns cycle.complete.
#[test]
fn forgemaster_handles_cycle_request() {
    let mut fm = Forgemaster::new();
    // Must init first
    let _ = fm.receive(sys_bottle("system.init", vec![1, 0, -1]));
    let response = fm.receive(cycle_request(vec![1, 0, -1]));
    assert_eq!(response.act, "cycle.complete");
    assert_eq!(response.src, "forgemaster");
}

/// Forgemaster returns a quality signal in the trits of cycle.complete.
#[test]
fn forgemaster_returns_quality_signal() {
    let mut fm = Forgemaster::new();
    let _ = fm.receive(sys_bottle("system.init", vec![1, 0, -1]));
    let response = fm.receive(cycle_request(vec![1, 0, -1]));
    // Quality signal should be non-empty trit vector
    assert!(!response.trits.is_empty());
    // All values should be valid trits
    for t in &response.trits {
        assert!(*t == -1 || *t == 0 || *t == 1);
    }
}

/// Conservation holds across multiple cycles.
#[test]
fn conservation_holds_across_cycles() {
    let mut fm = Forgemaster::new();
    let _ = fm.receive(sys_bottle("system.init", vec![1, 0, -1]));

    let input_trits: Vec<i8> = vec![1, 0, -1, 0, 1]; // sum = 1
    for _ in 0..5 {
        let response = fm.receive(cycle_request(input_trits.clone()));
        assert_eq!(response.trit_sum(), input_trits.iter().map(|&t| t as i32).sum::<i32>());
    }
}

/// system.init transitions to Active.
#[test]
fn system_init_transitions_to_active() {
    let mut fm = Forgemaster::new();
    assert_eq!(fm.state, AgentState::Init);
    let _ = fm.receive(sys_bottle("system.init", vec![]));
    assert_eq!(fm.state, AgentState::Active);
}

/// system.terminate transitions to Terminated.
#[test]
fn system_terminate_transitions_to_terminated() {
    let mut fm = Forgemaster::new();
    let _ = fm.receive(sys_bottle("system.init", vec![]));
    assert_eq!(fm.state, AgentState::Active);
    let _ = fm.receive(sys_bottle("system.terminate", vec![]));
    assert_eq!(fm.state, AgentState::Terminated);
}

/// AgentRunner enforces conservation: input trit sum must equal output trit sum.
#[test]
fn agent_runner_enforces_conservation() {
    let fm = Forgemaster::new();
    let mut runner = AgentRunner::new(fm);

    // Init the runner
    let init_bottle = sys_bottle("system.init", vec![1, 0, -1]);
    let _ = runner.receive(init_bottle).expect("init should succeed");

    let cycle = cycle_request(vec![1, 1, 1]); // sum = 3
    let result = runner.receive(cycle);
    match result {
        Ok(bottle) => {
            assert_eq!(bottle.trit_sum(), 3);
        }
        Err(RunnerError::ConservationViolation { .. }) => {}
        Err(e) => panic!("unexpected error: {}", e.describe()),
    }
}

/// Can't receive after terminate.
#[test]
fn cant_receive_after_terminate() {
    let fm = Forgemaster::new();
    let mut runner = AgentRunner::new(fm);

    let _ = runner
        .receive(sys_bottle("system.init", vec![]))
        .expect("init");
    let _ = runner
        .receive(sys_bottle("system.terminate", vec![]))
        .expect("terminate");

    let result = runner.receive(cycle_request(vec![1, 0, -1]));
    assert!(matches!(result, Err(RunnerError::Terminated)));
}

/// Lifecycle transitions must be valid.
#[test]
fn lifecycle_transitions_are_valid() {
    let fm = Forgemaster::new();
    let mut runner = AgentRunner::new(fm);

    // Can't resume from Init (need to be Suspended)
    let result = runner.receive(sys_bottle("system.resume", vec![]));
    assert!(matches!(
        result,
        Err(RunnerError::InvalidTransition { .. })
    ));

    // Init -> Active
    let _ = runner
        .receive(sys_bottle("system.init", vec![]))
        .expect("init");

    // Can't init again (already Active)
    let result = runner.receive(sys_bottle("system.init", vec![]));
    assert!(matches!(
        result,
        Err(RunnerError::InvalidTransition { .. })
    ));

    // Active -> Suspended
    let _ = runner
        .receive(sys_bottle("system.suspend", vec![]))
        .expect("suspend");

    // Can't ping while Suspended
    let result = runner.receive(sys_bottle("system.ping", vec![]));
    assert!(matches!(
        result,
        Err(RunnerError::InvalidTransition { .. })
    ));

    // Suspended -> Active
    let _ = runner
        .receive(sys_bottle("system.resume", vec![]))
        .expect("resume");

    // Active -> Terminated
    let _ = runner
        .receive(sys_bottle("system.terminate", vec![]))
        .expect("terminate");
}
