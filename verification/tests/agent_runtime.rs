use agent_coord::agent::Agent;
use agent_coord::agent::AgentAction;
use agent_coord::agent::AgentEvent;
use agent_coord::agent::AgentPhase;
use agent_coord::agent::HEARTBEAT_INTERVAL_SECS;
use agent_coord::agent::run;
use agent_coord::agent::run_heartbeat;
use agent_coord::agents::AgentRegistry;
use agent_coord::experiments::Experiment;
use agent_coord::experiments::Status;
use agent_coord::server::AgentConfig;
use agent_coord::server::Config;

fn connected_agent() -> Agent {
    Agent::new(AgentConfig {
        agent_name: "alpha".to_string(),
        crater_config: Config { contents: "cfg".to_string() },
    })
}

fn some_experiment() -> Experiment {
    Experiment {
        name: "E1".to_string(),
        status: Status::Running,
        assignee: None,
        github_issue: None,
        packages: vec!["foo".to_string()],
    }
}

#[test]
fn handshake_fixes_name_and_config() {
    let agent = connected_agent();
    assert_eq!(agent.name, "alpha");
    assert_eq!(agent.config.contents, "cfg");
    assert_eq!(agent.phase, AgentPhase::Fetching);
}

#[test]
fn fetched_experiment_goes_to_the_execution_engine() {
    let mut agent = connected_agent();
    let action = agent.experiment(Some(some_experiment()));
    match action {
        AgentAction::RunExperiment(e) => assert_eq!(e.name, "E1"),
        _ => panic!("a fetched experiment is handed to the execution engine"),
    }
    assert_eq!(agent.phase, AgentPhase::Executing);
}

#[test]
fn no_work_keeps_fetching() {
    let mut agent = connected_agent();
    let action = agent.experiment(None);
    assert!(matches!(action, AgentAction::FetchExperiment));
    assert_eq!(agent.phase, AgentPhase::Fetching);
}

#[test]
fn work_loop_happy_path() {
    let mut agent = connected_agent();
    agent.experiment(Some(some_experiment()));
    let action = run(&mut agent, AgentEvent::ExecuteFinished);
    assert!(matches!(action, AgentAction::ReportComplete));
    assert_eq!(agent.phase, AgentPhase::Reporting);
    let action = run(&mut agent, AgentEvent::CompleteAcked);
    assert!(matches!(action, AgentAction::FetchExperiment));
    assert_eq!(agent.phase, AgentPhase::Fetching);
}

#[test]
fn every_work_loop_failure_is_fatal() {
    let mut agent = connected_agent();
    assert!(matches!(run(&mut agent, AgentEvent::FetchFailed), AgentAction::Shutdown));
    assert_eq!(agent.phase, AgentPhase::Stopped);

    let mut agent = connected_agent();
    agent.experiment(Some(some_experiment()));
    assert!(matches!(run(&mut agent, AgentEvent::ExecuteFailed), AgentAction::Shutdown));
    assert_eq!(agent.phase, AgentPhase::Stopped);

    let mut agent = connected_agent();
    agent.experiment(Some(some_experiment()));
    run(&mut agent, AgentEvent::ExecuteFinished);
    assert!(matches!(run(&mut agent, AgentEvent::CompleteFailed), AgentAction::Shutdown));
    assert_eq!(agent.phase, AgentPhase::Stopped);
}

#[test]
fn heartbeat_failure_never_stops_the_task() {
    assert_eq!(run_heartbeat(false), HEARTBEAT_INTERVAL_SECS);
    assert_eq!(run_heartbeat(true), HEARTBEAT_INTERVAL_SECS);
    assert_eq!(HEARTBEAT_INTERVAL_SECS, 60);
}

#[test]
fn heartbeat_without_revision_keeps_the_stored_one() {
    let mut agents = AgentRegistry::new();
    let alpha = "alpha".to_string();

    agents.heartbeat(&alpha, None, 100);
    let rec = agents.get(&alpha).unwrap();
    assert_eq!(rec.last_heartbeat, 100);
    assert_eq!(rec.git_revision, None);

    agents.heartbeat(&alpha, Some("deadbeef".to_string()), 200);
    let rec = agents.get(&alpha).unwrap();
    assert_eq!(rec.last_heartbeat, 200);
    assert_eq!(rec.git_revision, Some("deadbeef".to_string()));

    // No revision supplied: the timestamp still moves, the revision stays.
    agents.heartbeat(&alpha, None, 300);
    let rec = agents.get(&alpha).unwrap();
    assert_eq!(rec.last_heartbeat, 300);
    assert_eq!(rec.git_revision, Some("deadbeef".to_string()));
}

#[test]
fn heartbeat_tracks_agents_independently() {
    let mut agents = AgentRegistry::new();
    agents.heartbeat(&"alpha".to_string(), Some("aaaa".to_string()), 10);
    agents.heartbeat(&"beta".to_string(), None, 20);
    assert_eq!(agents.get(&"alpha".to_string()).unwrap().last_heartbeat, 10);
    assert_eq!(agents.get(&"beta".to_string()).unwrap().last_heartbeat, 20);
    assert_eq!(agents.get(&"beta".to_string()).unwrap().git_revision, None);
    assert!(agents.get(&"gamma".to_string()).is_none());
}
