use superinstance_agent_trait::forgemaster::Forgemaster;
use superinstance_agent_trait::{Agent, AgentReport, AgentRunner, AgentState, Bottle, RunnerError};

/// An agent that answers every bottle with no trits at all.
struct Drain {
    seen: u64,
}

impl Agent for Drain {
    fn receive(&mut self, bottle: Bottle) -> Bottle {
        self.seen += 1;
        Bottle::new_empty("drain", &bottle.src, "drained", vec![], 1)
    }

    fn inspect(&self) -> AgentReport {
        AgentReport { state: AgentState::Active, cycle_count: self.seen, last_action: String::new() }
    }
}

fn sys(act: &str) -> Bottle {
    Bottle::new_empty("system", "agent", act, vec![], 300)
}

#[test]
fn runner_reports_a_conservation_violation() {
    let mut runner = AgentRunner::new(Drain { seen: 0 });
    runner.receive(sys("system.init")).expect("empty trits are conserved");
    let r = runner.receive(Bottle::new_empty("a", "agent", "work", vec![1, 1, -1, 1], 300));
    assert_eq!(r, Err(RunnerError::ConservationViolation { input_sum: 2, output_sum: 0 }));
    // the agent was still called, and the state followed the bottle
    assert_eq!(runner.inspect().cycle_count, 2);
    assert_eq!(runner.state(), AgentState::Active);
}

#[test]
fn runner_refuses_non_system_bottles_outside_active() {
    let mut runner = AgentRunner::new(Forgemaster::new());
    let r = runner.receive(Bottle::new_empty("a", "forgemaster", "cycle.request", vec![1, 0], 300));
    assert_eq!(
        r,
        Err(RunnerError::InvalidTransition { from: AgentState::Init, action: "cycle.request".to_string() })
    );
    assert_eq!(runner.state(), AgentState::Init);
    assert_eq!(runner.inspect().cycle_count, 0);
    assert_eq!(runner.inspect().last_action, "");
    runner.receive(sys("system.init")).unwrap();
    runner.receive(sys("system.suspend")).unwrap();
    let r = runner.receive(Bottle::new_empty("a", "forgemaster", "work", vec![], 300));
    assert_eq!(
        r,
        Err(RunnerError::InvalidTransition { from: AgentState::Suspended, action: "work".to_string() })
    );
    assert_eq!(runner.inspect().last_action, "system.suspend");
}

#[test]
fn runner_replies_with_the_agent_answer() {
    let mut runner = AgentRunner::new(Forgemaster::new());
    runner.receive(sys("system.init")).unwrap();
    runner.receive(sys("system.suspend")).unwrap();
    assert!(runner.receive(sys("system.ping")).is_err());
    let b = runner.receive(sys("system.resume")).unwrap();
    assert_eq!(b.act, "system.resume.ack");
    assert_eq!(runner.state(), AgentState::Active);
    let b = runner
        .receive(Bottle::new_empty("fleet-edge", "forgemaster", "cycle.request", vec![1, 0, -1], 300))
        .unwrap();
    assert_eq!(b.act, "cycle.complete");
    assert_eq!(b.trit_sum(), 0);
    assert_eq!(runner.agent().cycle_count, 1);
}

#[test]
fn refused_bottles_do_not_reach_the_agent() {
    let mut runner = AgentRunner::new(Drain { seen: 0 });
    let r = runner.receive(sys("system.resume"));
    assert_eq!(
        r,
        Err(RunnerError::InvalidTransition { from: AgentState::Init, action: "system.resume".to_string() })
    );
    assert_eq!(runner.inspect().cycle_count, 0);
    assert_eq!(runner.state(), AgentState::Init);
}

#[test]
fn runner_state_follows_the_lifecycle() {
    let mut runner = AgentRunner::new(Forgemaster::new());
    assert_eq!(runner.state(), AgentState::Init);
    runner.receive(sys("system.init")).unwrap();
    assert_eq!(runner.state(), AgentState::Active);
    runner.receive(sys("system.ping")).unwrap();
    assert_eq!(runner.state(), AgentState::Active);
    runner.receive(sys("system.suspend")).unwrap();
    assert_eq!(runner.state(), AgentState::Suspended);
    runner.receive(sys("system.resume")).unwrap();
    assert_eq!(runner.state(), AgentState::Active);
    runner.receive(sys("system.terminate")).unwrap();
    assert_eq!(runner.state(), AgentState::Terminated);
    assert_eq!(runner.receive(sys("system.init")), Err(RunnerError::Terminated));
    assert_eq!(runner.state(), AgentState::Terminated);
    assert_eq!(runner.inspect().state, AgentState::Terminated);
}

#[test]
fn runner_forwards_the_forgemaster_reply() {
    let mut runner = AgentRunner::new(Forgemaster::new());
    runner.receive(sys("system.init")).unwrap();
    let b = runner
        .receive(Bottle::new_empty("fleet-edge", "forgemaster", "cycle.request", vec![1, 1, 1], 300))
        .unwrap();
    assert_eq!(b.trits, vec![0, 0, 0, 1, 1, 1]);
    assert_eq!(b.tgt, "fleet-edge");
    assert_eq!(runner.inspect().cycle_count, 1);
}

#[test]
fn forgemaster_state_agrees_with_the_runner() {
    let mut runner = AgentRunner::new(Forgemaster::new());
    for act in ["system.init", "system.ping", "work", "system.suspend", "system.resume", "system.terminate"] {
        runner.receive(sys(act)).expect("admitted");
        assert_eq!(runner.inspect().state, runner.state());
    }
}

#[test]
fn forgemaster_under_a_runner_never_violates_conservation() {
    let mut runner = AgentRunner::new(Forgemaster::new());
    runner.receive(sys("system.init")).unwrap();
    for trits in [vec![], vec![127i8, 127], vec![-128i8, -128, -128], vec![1, -1, 1, -1, 1]] {
        let input = Bottle::new_empty("fleet-edge", "forgemaster", "cycle.request", trits, 300);
        let sum = input.trit_sum();
        let out = runner.receive(input).expect("conserved");
        assert_eq!(out.trit_sum(), sum);
        assert!(out.trits.iter().all(|&t| (-1..=1).contains(&t)));
    }
}
