//! The lifecycle of an agent: its states, the system actions that move it
//! between them, and which moves are legal.
use vstd::prelude::*;
use crate::text::str_eq;
use vstd::string::StringExecFns;

verus! {

/// Lifecycle state of an agent.
#[derive(Debug, Clone, Copy, PartialEq, Eq, Structural)]
pub enum AgentState {
    Init,
    Active,
    Suspended,
    Terminated,
}

/// System actions that drive lifecycle transitions.
#[derive(Debug, Clone, Copy, PartialEq, Eq, Structural)]
pub enum SystemAction {
    Init,
    Suspend,
    Resume,
    Terminate,
    Ping,
}

/// The `act` string that names a system action.
pub open spec fn act_name(a: SystemAction) -> Seq<char> {
    match a {
        SystemAction::Init => "system.init"@,
        SystemAction::Suspend => "system.suspend"@,
        SystemAction::Resume => "system.resume"@,
        SystemAction::Terminate => "system.terminate"@,
        SystemAction::Ping => "system.ping"@,
    }
}

/// The system action an `act` string names, if it names one.
pub open spec fn parse_act(act: Seq<char>) -> Option<SystemAction> {
    if act == "system.init"@ {
        Some(SystemAction::Init)
    } else if act == "system.suspend"@ {
        Some(SystemAction::Suspend)
    } else if act == "system.resume"@ {
        Some(SystemAction::Resume)
    } else if act == "system.terminate"@ {
        Some(SystemAction::Terminate)
    } else if act == "system.ping"@ {
        Some(SystemAction::Ping)
    } else {
        None
    }
}

/// Whether a system action is legal in a state.
pub open spec fn action_allowed(from: AgentState, a: SystemAction) -> bool {
    match a {
        SystemAction::Init => from == AgentState::Init,
        SystemAction::Suspend => from == AgentState::Active,
        SystemAction::Resume => from == AgentState::Suspended,
        SystemAction::Terminate => from != AgentState::Terminated,
        SystemAction::Ping => from == AgentState::Active,
    }
}

/// Whether a bottle whose action is `act` may be received in state `from`:
/// a system action must be legal there; any other action passes through.
pub open spec fn transition_allowed(from: AgentState, act: Seq<char>) -> bool {
    match parse_act(act) {
        Some(a) => action_allowed(from, a),
        None => true,
    }
}

/// The state after a system action has been carried out.
pub open spec fn after_action(from: AgentState, a: SystemAction) -> AgentState {
    match a {
        SystemAction::Init => AgentState::Active,
        SystemAction::Suspend => AgentState::Suspended,
        SystemAction::Resume => AgentState::Active,
        SystemAction::Terminate => AgentState::Terminated,
        SystemAction::Ping => from,
    }
}

/// The state after a bottle with action `act` has been received in state `from`:
/// only system actions move the lifecycle.
pub open spec fn state_after(from: AgentState, act: Seq<char>) -> AgentState {
    match parse_act(act) {
        Some(a) => after_action(from, a),
        None => from,
    }
}

/// The name a state is displayed by.
pub open spec fn state_name(s: AgentState) -> Seq<char> {
    match s {
        AgentState::Init => "Init"@,
        AgentState::Active => "Active"@,
        AgentState::Suspended => "Suspended"@,
        AgentState::Terminated => "Terminated"@,
    }
}

impl AgentState {
    /// The name this state is displayed by.
    pub fn name(&self) -> (r: &'static str)
        ensures
            r@ == state_name(*self),
    {
        match self {
            AgentState::Init => "Init",
            AgentState::Active => "Active",
            AgentState::Suspended => "Suspended",
            AgentState::Terminated => "Terminated",
        }
    }

    /// The text this state is displayed as.
    pub fn describe(&self) -> (r: String)
        ensures
            r@ == state_name(*self),
    {
        String::from_str(self.name())
    }
}

impl SystemAction {
    /// Action string used in the bottle's `act` field.
    pub fn as_act(&self) -> (r: &'static str)
        ensures
            r@ == act_name(*self),
    {
        match self {
            SystemAction::Init => "system.init",
            SystemAction::Suspend => "system.suspend",
            SystemAction::Resume => "system.resume",
            SystemAction::Terminate => "system.terminate",
            SystemAction::Ping => "system.ping",
        }
    }

    /// Parses an action string into a system action, if it names one.
    pub fn from_act(act: &str) -> (r: Option<Self>)
        ensures
            r == parse_act(act@),
    {
        if str_eq(act, "system.init") {
            Some(SystemAction::Init)
        } else if str_eq(act, "system.suspend") {
            Some(SystemAction::Suspend)
        } else if str_eq(act, "system.resume") {
            Some(SystemAction::Resume)
        } else if str_eq(act, "system.terminate") {
            Some(SystemAction::Terminate)
        } else if str_eq(act, "system.ping") {
            Some(SystemAction::Ping)
        } else {
            None
        }
    }
}

/// Validates that a lifecycle transition is legal.
pub fn valid_transition(from: AgentState, action: &str) -> (r: bool)
    ensures
        r == transition_allowed(from, action@),
{
    match SystemAction::from_act(action) {
        Some(SystemAction::Init) => from == AgentState::Init,
        Some(SystemAction::Suspend) => from == AgentState::Active,
        Some(SystemAction::Resume) => from == AgentState::Suspended,
        Some(SystemAction::Terminate) => {
            match from {
                AgentState::Init | AgentState::Active | AgentState::Suspended => true,
                AgentState::Terminated => false,
            }
        },
        Some(SystemAction::Ping) => from == AgentState::Active,
        None => true,
    }
}

/// The five action strings are pairwise distinct.
pub proof fn lemma_act_names_distinct()
    ensures
        "system.init"@ != "system.suspend"@,
        "system.init"@ != "system.resume"@,
        "system.init"@ != "system.terminate"@,
        "system.init"@ != "system.ping"@,
        "system.suspend"@ != "system.resume"@,
        "system.suspend"@ != "system.terminate"@,
        "system.suspend"@ != "system.ping"@,
        "system.resume"@ != "system.terminate"@,
        "system.resume"@ != "system.ping"@,
        "system.terminate"@ != "system.ping"@,
{
    reveal_strlit("system.init");
    reveal_strlit("system.suspend");
    reveal_strlit("system.resume");
    reveal_strlit("system.terminate");
    reveal_strlit("system.ping");
    assert("system.init"@.len() != "system.suspend"@.len());
    assert("system.init"@.len() != "system.resume"@.len());
    assert("system.init"@.len() != "system.terminate"@.len());
    assert("system.init"@[7] != "system.ping"@[7]);
    assert("system.suspend"@[7] != "system.resume"@[7]);
    assert("system.suspend"@.len() != "system.terminate"@.len());
    assert("system.suspend"@.len() != "system.ping"@.len());
    assert("system.resume"@.len() != "system.terminate"@.len());
    assert("system.resume"@.len() != "system.ping"@.len());
    assert("system.terminate"@.len() != "system.ping"@.len());
}

/// Parsing the name of a system action gives that action back, and a string
/// parses to an action only if it is that action's name.
pub proof fn lemma_act_round_trip(a: SystemAction, act: Seq<char>)
    ensures
        parse_act(act_name(a)) == Some(a),
        parse_act(act) == Some(a) <==> act == act_name(a),
{
    lemma_act_names_distinct();
}

/// No system action is legal once an agent is terminated.
pub proof fn lemma_no_action_after_termination(a: SystemAction)
    ensures
        !action_allowed(AgentState::Terminated, a),
        !transition_allowed(AgentState::Terminated, act_name(a)),
{
    lemma_act_names_distinct();
}

/// Every legal system action ends in the state the lifecycle table gives it:
/// init and resume activate, suspend suspends, terminate terminates, and ping
/// changes nothing; a bottle that is not a system action never moves the state.
pub proof fn lemma_lifecycle_table(from: AgentState, act: Seq<char>)
    requires
        transition_allowed(from, act),
    ensures
        act == "system.init"@ ==> from == AgentState::Init && state_after(from, act) == AgentState::Active,
        act == "system.suspend"@ ==> from == AgentState::Active && state_after(from, act) == AgentState::Suspended,
        act == "system.resume"@ ==> from == AgentState::Suspended && state_after(from, act) == AgentState::Active,
        act == "system.terminate"@ ==> from != AgentState::Terminated && state_after(from, act) == AgentState::Terminated,
        act == "system.ping"@ ==> from == AgentState::Active && state_after(from, act) == from,
        parse_act(act) is None ==> state_after(from, act) == from,
{
    lemma_act_names_distinct();
}

} // verus!
