//! The agent trait, and the runner that holds any agent to the lifecycle and to
//! the conservation of trit sums.
use vstd::prelude::*;
use vstd::string::StringExecFns;
use crate::bottle::{Bottle, fits_i32, trit_total};
use crate::lifecycle::{
    AgentState, SystemAction, lemma_act_names_distinct, parse_act, state_after, state_name, transition_allowed, valid_transition,
};
use crate::text::{append_signed_decimal, signed_decimal};

verus! {

/// Report from agent inspection.
#[derive(Debug, Clone)]
pub struct AgentReport {
    pub state: AgentState,
    pub cycle_count: u64,
    pub last_action: String,
}

/// The agent trait: receive a bottle, return a bottle; inspect without side
/// effects. Lifecycle, init, suspend, resume and terminate all emerge from the
/// system bottles an agent receives.
pub trait Agent {
    /// The bottles this agent can receive in its current state: by default,
    /// every bottle.
    open spec fn accepts(&self, bottle: Bottle) -> bool {
        true
    }

    /// Whether this agent answers every bottle with one of the same trit sum:
    /// by default, nothing is claimed.
    open spec fn conserves(&self) -> bool {
        false
    }

    /// Whether this agent, given `bottle`, may answer with `out` and become
    /// `after`: by default, nothing is claimed.
    open spec fn answers(&self, bottle: Bottle, out: Bottle, after: Self) -> bool where Self: Sized {
        true
    }

    /// Receive a bottle, return a bottle: one in, one out.
    fn receive(&mut self, bottle: Bottle) -> (out: Bottle) where Self: Sized
        requires
            old(self).accepts(bottle),
        ensures
            old(self).conserves() ==> trit_total(out.trits@) == trit_total(bottle.trits@),
            old(self).answers(bottle, out, *final(self)),
    ;

    /// Whether `report` describes this agent as it is: by default, nothing
    /// is claimed of a report.
    open spec fn reports(&self, report: AgentReport) -> bool {
        true
    }

    /// Inspect the agent's current state without side effects.
    fn inspect(&self) -> (r: AgentReport)
        ensures
            self.reports(r),
    ;
}

/// Errors from the runner's enforcement.
#[derive(Debug, Clone, PartialEq, Eq)]
pub enum RunnerError {
    /// Invalid lifecycle transition.
    InvalidTransition { from: AgentState, action: String },
    /// Cannot receive after termination.
    Terminated,
    /// Conservation violation: trit sums differ.
    ConservationViolation { input_sum: i32, output_sum: i32 },
}

/// The text an error is displayed as.
pub open spec fn error_message(e: RunnerError) -> Seq<char> {
    match e {
        RunnerError::InvalidTransition { from, action } => "invalid transition from "@ + state_name(from)
            + " on action '"@ + action@ + "'"@,
        RunnerError::Terminated => "agent is terminated"@,
        RunnerError::ConservationViolation { input_sum, output_sum } =>
            "conservation violation: input trit sum "@ + signed_decimal(input_sum as int)
            + " != output trit sum "@ + signed_decimal(output_sum as int),
    }
}

impl RunnerError {
    /// The text this error is displayed as.
    pub fn describe(&self) -> (r: String)
        ensures
            r@ == error_message(*self),
    {
        match self {
            RunnerError::InvalidTransition { from, action } => {
                let mut s = String::from_str("invalid transition from ");
                s.append(from.name());
                s.append(" on action '");
                s.append(action.as_str());
                s.append("'");
                s
            },
            RunnerError::Terminated => String::from_str("agent is terminated"),
            RunnerError::ConservationViolation { input_sum, output_sum } => {
                let mut s = String::from_str("conservation violation: input trit sum ");
                append_signed_decimal(&mut s, *input_sum);
                s.append(" != output trit sum ");
                append_signed_decimal(&mut s, *output_sum);
                s
            },
        }
    }
}

/// Whether a runner in state `from` lets a bottle with action `act` through to
/// its agent: not once terminated, a system action only along a legal
/// transition, and any other action only while active.
pub open spec fn admitted(from: AgentState, act: Seq<char>) -> bool {
    &&& from != AgentState::Terminated
    &&& transition_allowed(from, act)
    &&& parse_act(act) is None ==> from == AgentState::Active
}

/// The runner's admission table, action by action: `system.init` only from
/// `Init`, `system.suspend` and `system.ping` only from `Active`,
/// `system.resume` only from `Suspended`, `system.terminate` from every state
/// but `Terminated`, and any other action only from `Active`.
pub proof fn lemma_admission_table(from: AgentState, act: Seq<char>)
    ensures
        act == "system.init"@ ==> (admitted(from, act) <==> from == AgentState::Init),
        act == "system.suspend"@ ==> (admitted(from, act) <==> from == AgentState::Active),
        act == "system.resume"@ ==> (admitted(from, act) <==> from == AgentState::Suspended),
        act == "system.terminate"@ ==> (admitted(from, act) <==> from != AgentState::Terminated),
        act == "system.ping"@ ==> (admitted(from, act) <==> from == AgentState::Active),
        act != "system.init"@ && act != "system.suspend"@ && act != "system.resume"@
            && act != "system.terminate"@ && act != "system.ping"@ ==> (admitted(from, act) <==> from
            == AgentState::Active),
{
    lemma_act_names_distinct();
}

/// Where a bottle is admitted, the runner moves to the state its action
/// names: `Active` after `system.init` or `system.resume`, `Suspended` after
/// `system.suspend`, `Terminated` after `system.terminate`, and it stays where
/// it was after `system.ping` or any other action.
pub proof fn lemma_admitted_moves(from: AgentState, act: Seq<char>)
    requires
        admitted(from, act),
    ensures
        act == "system.init"@ ==> state_after(from, act) == AgentState::Active,
        act == "system.suspend"@ ==> state_after(from, act) == AgentState::Suspended,
        act == "system.resume"@ ==> state_after(from, act) == AgentState::Active,
        act == "system.terminate"@ ==> state_after(from, act) == AgentState::Terminated,
        act != "system.init"@ && act != "system.suspend"@ && act != "system.resume"@
            && act != "system.terminate"@ ==> state_after(from, act) == from,
{
    lemma_act_names_distinct();
}

/// A terminated runner lets nothing through, whatever the bottle's action;
/// a refused bottle leaves the runner as it was (see `AgentRunner::receive`).
pub proof fn lemma_terminated_admits_nothing(act: Seq<char>)
    ensures
        !admitted(AgentState::Terminated, act),
{
}

/// The lifecycle half of the runner: for a runner in state `from` and a bottle
/// with action `act`, the state to move to, or why the bottle is refused.
pub fn lifecycle_step(from: AgentState, act: &str) -> (r: Result<AgentState, RunnerError>)
    ensures
        r is Ok <==> admitted(from, act@),
        r matches Ok(next) ==> next == state_after(from, act@),
        from == AgentState::Terminated ==> r == Err::<AgentState, RunnerError>(RunnerError::Terminated),
        from != AgentState::Terminated && !admitted(from, act@) ==> (r matches Err(
            RunnerError::InvalidTransition { from: f, action },
        ) && f == from && action@ == act@),
{
    if from == AgentState::Terminated {
        return Err(RunnerError::Terminated);
    }
    match SystemAction::from_act(act) {
        Some(sys) => {
            if !valid_transition(from, act) {
                return Err(RunnerError::InvalidTransition { from, action: String::from_str(act) });
            }
            let next = match sys {
                SystemAction::Init => AgentState::Active,
                SystemAction::Suspend => AgentState::Suspended,
                SystemAction::Resume => AgentState::Active,
                SystemAction::Terminate => AgentState::Terminated,
                SystemAction::Ping => from,
            };
            Ok(next)
        },
        None => {
            if from != AgentState::Active {
                return Err(RunnerError::InvalidTransition { from, action: String::from_str(act) });
            }
            Ok(from)
        },
    }
}

/// What the conservation audit answers for a response, given the trit sum of
/// the bottle that caused it: the response itself when the sums are equal,
/// and a violation naming both sums otherwise (the output sum as an `i32`,
/// wrapped where it is out of range).
pub open spec fn conservation_verdict(input_sum: i32, response: Bottle) -> Result<Bottle, RunnerError> {
    if trit_total(response.trits@) == input_sum as int {
        Ok(response)
    } else {
        Err(
            RunnerError::ConservationViolation {
                input_sum,
                output_sum: trit_total(response.trits@) as i32,
            },
        )
    }
}

/// The conservation half of the runner: audits an agent's response against
/// the trit sum of the bottle it answered.
pub fn check_conservation(input_sum: i32, response: Bottle) -> (r: Result<Bottle, RunnerError>)
    ensures
        r == conservation_verdict(input_sum, response),
{
    let output_total = response.exact_trit_sum();
    if output_total == input_sum as i128 {
        Ok(response)
    } else {
        let output_sum = output_total as i32;
        Err(RunnerError::ConservationViolation { input_sum, output_sum })
    }
}

/// A response that passes the audit carries the input's trit sum, and one
/// that fails is refused with a violation that names the input's sum.
pub proof fn lemma_verdict_conserves(input_sum: i32, response: Bottle)
    ensures
        conservation_verdict(input_sum, response) matches Ok(b) ==> b == response && trit_total(b.trits@) == input_sum,
        conservation_verdict(input_sum, response) matches Err(e) ==> (e matches RunnerError::ConservationViolation { input_sum: i, output_sum: _ } && i == input_sum)
            && trit_total(response.trits@) != input_sum,
{
}

/// Wraps any agent and enforces that lifecycle transitions are legal, that
/// nothing is received after termination, and that every response carries the
/// trit sum of the bottle it answers.
pub struct AgentRunner<A: Agent> {
    agent: A,
    state: AgentState,
    conservation_enforced: bool,
}

impl<A: Agent> AgentRunner<A> {
    /// Well-formed: the runner audits conservation, as every runner that
    /// `new` makes does.
    pub closed spec fn wf(self) -> bool {
        self.conservation_enforced
    }

    /// The runner's lifecycle state.
    pub closed spec fn lifecycle(self) -> AgentState {
        self.state
    }

    /// The wrapped agent.
    pub closed spec fn wrapped(self) -> A {
        self.agent
    }

    /// How a runner `self`, given `bottle`, answers `r` and becomes `after`.
    /// A bottle that is not admitted is refused and changes nothing: after
    /// termination with `Terminated`, otherwise with `InvalidTransition` naming
    /// the state and the action. An admitted bottle moves the lifecycle, is
    /// handed to the agent, and the agent's answer is audited for conservation;
    /// an agent that conserves always passes.
    pub open spec fn received(self, bottle: Bottle, r: Result<Bottle, RunnerError>, after: Self) -> bool {
        &&& !admitted(self.lifecycle(), bottle.act@) ==> r is Err && after == self
        &&& self.lifecycle() == AgentState::Terminated ==> r == Err::<Bottle, RunnerError>(RunnerError::Terminated)
        &&& self.lifecycle() != AgentState::Terminated && !admitted(self.lifecycle(), bottle.act@) ==> (r matches Err(
            RunnerError::InvalidTransition { from, action },
        ) && from == self.lifecycle() && action@ == bottle.act@)
        &&& admitted(self.lifecycle(), bottle.act@) ==> after.lifecycle() == state_after(self.lifecycle(), bottle.act@)
        &&& admitted(self.lifecycle(), bottle.act@) ==> exists|response: Bottle|
            self.wrapped().answers(bottle, response, after.wrapped())
            && r == #[trigger] conservation_verdict(trit_total(bottle.trits@) as i32, response)
        &&& r matches Ok(b) ==> trit_total(b.trits@) == trit_total(bottle.trits@)
        &&& admitted(self.lifecycle(), bottle.act@) && self.wrapped().conserves() ==> r is Ok
    }

    /// Wraps an agent, starting in `Init`.
    pub fn new(agent: A) -> (r: Self)
        ensures
            r.wf(),
            r.lifecycle() == AgentState::Init,
            r.wrapped() == agent,
    {
        AgentRunner { agent, state: AgentState::Init, conservation_enforced: true }
    }

    /// Receives a bottle with enforcement, and returns the agent's response or
    /// an error.
    pub fn receive(&mut self, bottle: Bottle) -> (r: Result<Bottle, RunnerError>)
        requires
            old(self).wf(),
            old(self).lifecycle() != AgentState::Terminated ==> fits_i32(trit_total(bottle.trits@)),
            admitted(old(self).lifecycle(), bottle.act@) ==> old(self).wrapped().accepts(bottle),
        ensures
            final(self).wf(),
            old(self).received(bottle, r, *final(self)),
    {
        let next = match lifecycle_step(self.state, bottle.act.as_str()) {
            Ok(next) => next,
            Err(e) => return Err(e),
        };
        let input_sum = bottle.trit_sum();
        let ghost received = bottle;
        let ghost agent_before = self.agent;
        self.state = next;
        let response = self.agent.receive(bottle);
        assert(agent_before.answers(received, response, self.agent));
        let ghost answered = response;
        let r = if self.conservation_enforced {
            check_conservation(input_sum, response)
        } else {
            Ok(response)
        };
        proof {
            lemma_verdict_conserves(input_sum, answered);
            assert(input_sum == trit_total(received.trits@) as i32);
            assert(r == conservation_verdict(input_sum, answered));
        }
        r
    }

    /// Inspects the wrapped agent.
    pub fn inspect(&self) -> (r: AgentReport)
        ensures
            self.wrapped().reports(r),
    {
        self.agent.inspect()
    }

    /// The wrapped agent.
    pub fn agent(&self) -> (r: &A)
        ensures
            *r == self.wrapped(),
    {
        &self.agent
    }

    /// Current lifecycle state.
    pub fn state(&self) -> (r: AgentState)
        ensures
            r == self.lifecycle(),
    {
        self.state
    }
}

} // verus!
