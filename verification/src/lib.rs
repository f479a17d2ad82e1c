//! Agents that answer one bottle with one bottle, a lifecycle driven by the
//! bottles they receive, and a runner that holds any agent to that lifecycle
//! and to the conservation of trit sums.
pub mod text;
pub mod lifecycle;
pub mod bottle;
pub mod runner;
pub mod forgemaster;

pub use bottle::{audit, audit_strict, Bottle, ConservationError, Trit};
pub use forgemaster::Forgemaster;
pub use lifecycle::{valid_transition, AgentState, SystemAction};
pub use runner::{Agent, AgentReport, AgentRunner, RunnerError};
