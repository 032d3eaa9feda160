//! The agent runtime's decisions: connect, then loop fetch -> execute ->
//! report, with an independent heartbeat task.
//!
//! The runtime is a state machine from plain values to plain values. The
//! surrounding process performs transport and execution, feeds each outcome
//! in as an event, and carries out the action handed back. The asymmetry is
//! deliberate and part of the contract: any failure in the work loop is
//! fatal (the supervisor restarts the process from the server's persisted
//! state), while a failed heartbeat never stops anything.

use vstd::prelude::*;
use crate::experiments::Experiment;
use crate::server::AgentConfig;
use crate::server::Config;

verus! {

/// Seconds between two heartbeats.
pub const HEARTBEAT_INTERVAL_SECS: u64 = 60;

/// Where the work loop stands.
#[derive(Clone, Copy, PartialEq, Eq, Structural, Debug)]
pub enum AgentPhase {
    /// Asking the server for an experiment.
    Fetching,
    /// An experiment is with the execution engine.
    Executing,
    /// Telling the server the experiment is done.
    Reporting,
    /// A fatal failure ended the loop; only a process restart leaves this.
    Stopped,
}

/// What the surroundings report back into the loop.
#[derive(Debug)]
pub enum AgentEvent {
    /// The server handed out an experiment.
    Fetched(Experiment),
    /// The server answered "no work".
    NoWork,
    /// The fetch failed (transport or server error).
    FetchFailed,
    /// The execution engine finished the experiment.
    ExecuteFinished,
    /// The execution engine failed.
    ExecuteFailed,
    /// The completion report was acknowledged.
    CompleteAcked,
    /// The completion report failed.
    CompleteFailed,
}

/// What the loop asks the surroundings to do next.
#[derive(Debug)]
pub enum AgentAction {
    /// Ask the server for the next experiment.
    FetchExperiment,
    /// Hand this experiment to the execution engine.
    RunExperiment(Experiment),
    /// Report the running experiment complete.
    ReportComplete,
    /// Exit the process and leave recovery to the supervisor.
    Shutdown,
}

/// A connected agent: the name the server assigned to its credential, the
/// configuration snapshot it holds read-only for its whole life, and where
/// its work loop stands.
#[derive(Debug)]
pub struct Agent {
    pub name: String,
    pub config: Config,
    pub phase: AgentPhase,
}

pub open spec fn event_fits(phase: AgentPhase, event: AgentEvent) -> bool {
    match event {
        AgentEvent::Fetched(_) => phase == AgentPhase::Fetching,
        AgentEvent::NoWork => phase == AgentPhase::Fetching,
        AgentEvent::FetchFailed => phase == AgentPhase::Fetching,
        AgentEvent::ExecuteFinished => phase == AgentPhase::Executing,
        AgentEvent::ExecuteFailed => phase == AgentPhase::Executing,
        AgentEvent::CompleteAcked => phase == AgentPhase::Reporting,
        AgentEvent::CompleteFailed => phase == AgentPhase::Reporting,
    }
}

impl Agent {
    /// Builds the agent's state from a successful handshake: the server's
    /// config reply carries the assigned name and the snapshot. A failed
    /// handshake never reaches this point — it is fatal to the process
    /// before the loop starts.
    pub fn new(config: AgentConfig) -> (a: Agent)
        ensures
            a.name@ == config.agent_name@,
            a.config.contents@ == config.crater_config.contents@,
            a.phase == AgentPhase::Fetching,
    {
        Agent { name: config.agent_name, config: config.crater_config, phase: AgentPhase::Fetching }
    }

    /// Interprets the server's answer to a fetch: an experiment goes to the
    /// execution engine; "no work" means ask again.
    pub fn experiment(&mut self, reply: Option<Experiment>) -> (a: AgentAction)
        requires
            old(self).phase == AgentPhase::Fetching,
        ensures
            final(self).name@ == old(self).name@,
            final(self).config.contents@ == old(self).config.contents@,
            match reply {
                Some(ex) => final(self).phase == AgentPhase::Executing && (a
                    matches AgentAction::RunExperiment(e) && e@ == ex@),
                None => final(self).phase == AgentPhase::Fetching && a
                    == AgentAction::FetchExperiment,
            },
    {
        match reply {
            Some(ex) => run(self, AgentEvent::Fetched(ex)),
            None => run(self, AgentEvent::NoWork),
        }
    }
}

/// One step of the work loop: from the current phase and an event to the
/// next action. Every failure event is fatal; `NoWork` alone loops back to
/// fetching.
pub fn run(agent: &mut Agent, event: AgentEvent) -> (a: AgentAction)
    requires
        event_fits(old(agent).phase, event),
    ensures
        final(agent).name@ == old(agent).name@,
        final(agent).config.contents@ == old(agent).config.contents@,
        match event {
            AgentEvent::Fetched(ex) => final(agent).phase == AgentPhase::Executing && (a
                matches AgentAction::RunExperiment(e) && e@ == ex@),
            AgentEvent::NoWork => final(agent).phase == AgentPhase::Fetching && a
                == AgentAction::FetchExperiment,
            AgentEvent::FetchFailed => final(agent).phase == AgentPhase::Stopped && a
                == AgentAction::Shutdown,
            AgentEvent::ExecuteFinished => final(agent).phase == AgentPhase::Reporting && a
                == AgentAction::ReportComplete,
            AgentEvent::ExecuteFailed => final(agent).phase == AgentPhase::Stopped && a
                == AgentAction::Shutdown,
            AgentEvent::CompleteAcked => final(agent).phase == AgentPhase::Fetching && a
                == AgentAction::FetchExperiment,
            AgentEvent::CompleteFailed => final(agent).phase == AgentPhase::Stopped && a
                == AgentAction::Shutdown,
        },
{
    match event {
        AgentEvent::Fetched(ex) => {
            agent.phase = AgentPhase::Executing;
            AgentAction::RunExperiment(ex)
        },
        AgentEvent::NoWork => {
            agent.phase = AgentPhase::Fetching;
            AgentAction::FetchExperiment
        },
        AgentEvent::FetchFailed => {
            agent.phase = AgentPhase::Stopped;
            AgentAction::Shutdown
        },
        AgentEvent::ExecuteFinished => {
            agent.phase = AgentPhase::Reporting;
            AgentAction::ReportComplete
        },
        AgentEvent::ExecuteFailed => {
            agent.phase = AgentPhase::Stopped;
            AgentAction::Shutdown
        },
        AgentEvent::CompleteAcked => {
            agent.phase = AgentPhase::Fetching;
            AgentAction::FetchExperiment
        },
        AgentEvent::CompleteFailed => {
            agent.phase = AgentPhase::Stopped;
            AgentAction::Shutdown
        },
    }
}

/// The heartbeat task's one decision, after a send that worked or failed
/// alike: sleep one interval and try again. A heartbeat failure never
/// terminates the agent; liveness tracking just degrades by one interval.
pub fn run_heartbeat(send_failed: bool) -> (delay_secs: u64)
    ensures
        delay_secs == HEARTBEAT_INTERVAL_SECS,
{
    let _ = send_failed;
    HEARTBEAT_INTERVAL_SECS
}

} // verus!
