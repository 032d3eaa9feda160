use agent_coord::auth::TokenEntry;
use agent_coord::auth::TokenType;
use agent_coord::auth::Tokens;
use agent_coord::experiments::Experiment;
use agent_coord::experiments::ExperimentRegistry;
use agent_coord::experiments::ProgressData;
use agent_coord::experiments::Status;
use agent_coord::server::Config;
use agent_coord::server::Data;
use agent_coord::server::Endpoint;
use agent_coord::server::HttpMethod;
use agent_coord::server::Payload;
use agent_coord::server::ReportsWaker;
use agent_coord::server::Request;
use agent_coord::server::routes;
use agent_coord::server::handle_request;
use agent_coord::agents::AgentRegistry;

fn queued_experiment(name: &str, issue: Option<&str>, packages: &[&str]) -> Experiment {
    Experiment {
        name: name.to_string(),
        status: Status::Queued,
        assignee: None,
        github_issue: issue.map(|s| s.to_string()),
        packages: packages.iter().map(|s| s.to_string()).collect(),
    }
}

fn server_with(experiments: Vec<Experiment>) -> Data {
    let mut tokens = Tokens::new();
    tokens.add(TokenEntry {
        token: "tok-alpha".to_string(),
        token_type: TokenType::Agent,
        name: "alpha".to_string(),
    });
    tokens.add(TokenEntry {
        token: "tok-beta".to_string(),
        token_type: TokenType::Agent,
        name: "beta".to_string(),
    });
    tokens.add(TokenEntry {
        token: "tok-site".to_string(),
        token_type: TokenType::Site,
        name: "operator".to_string(),
    });
    let mut registry = ExperimentRegistry::new();
    for e in experiments {
        registry.add_experiment(e);
    }
    Data {
        config: Config { contents: "default-config".to_string() },
        tokens,
        experiments: registry,
        agents: AgentRegistry::new(),
        reports_worker: ReportsWaker::new(),
    }
}

fn request(method: HttpMethod, path: &str, token: &str) -> Request {
    Request {
        method,
        path: path.to_string(),
        authorization: Some(format!("Bearer {}", token)),
        git_revision: None,
        body: None,
        now: 0,
    }
}

#[test]
fn route_table_matches_wire_protocol() {
    assert_eq!(routes(HttpMethod::Get, &"config".to_string()), Some(Endpoint::Config));
    assert_eq!(
        routes(HttpMethod::Get, &"next-experiment".to_string()),
        Some(Endpoint::NextExperiment)
    );
    assert_eq!(
        routes(HttpMethod::Post, &"complete-experiment".to_string()),
        Some(Endpoint::CompleteExperiment)
    );
    assert_eq!(
        routes(HttpMethod::Post, &"record-progress".to_string()),
        Some(Endpoint::RecordProgress)
    );
    assert_eq!(routes(HttpMethod::Post, &"heartbeat".to_string()), Some(Endpoint::Heartbeat));
    assert_eq!(routes(HttpMethod::Post, &"config".to_string()), None);
    assert_eq!(routes(HttpMethod::Get, &"heartbeat".to_string()), None);
    assert_eq!(routes(HttpMethod::Get, &"nothing-here".to_string()), None);
}

#[test]
fn claim_is_exclusive_between_two_agents() {
    let mut data = server_with(vec![queued_experiment("E1", None, &["foo"])]);
    let alpha = "alpha".to_string();
    let beta = "beta".to_string();

    let (first, newly) = data.experiments.claim_next(&alpha);
    let first = first.expect("the queued experiment goes to the first claimer");
    assert!(newly);
    assert_eq!(first.name, "E1");
    assert_eq!(first.status, Status::Running);

    let (second, newly2) = data.experiments.claim_next(&beta);
    assert!(second.is_none(), "the second claimer gets no work, never the same experiment");
    assert!(!newly2);
}

#[test]
fn repeated_claim_is_idempotent_redelivery() {
    let mut data = server_with(vec![queued_experiment("E1", Some("http://issue/1"), &["foo"])]);
    let alpha = "alpha".to_string();

    let (first, newly1) = data.experiments.claim_next(&alpha);
    assert_eq!(first.unwrap().name, "E1");
    assert!(newly1);

    let (again, newly2) = data.experiments.claim_next(&alpha);
    assert_eq!(again.unwrap().name, "E1");
    assert!(!newly2, "redelivery is not a new assignment");
}

#[test]
fn complete_transitions_exactly_once() {
    let mut data = server_with(vec![queued_experiment("E1", None, &[])]);
    let alpha = "alpha".to_string();
    data.experiments.claim_next(&alpha);

    assert!(data.experiments.complete(&alpha));
    let e = data.experiments.find_experiment(&"E1".to_string()).unwrap();
    assert_eq!(e.status, Status::NeedsReport);

    assert!(
        !data.experiments.complete(&alpha),
        "a second completion without reassignment is the ownership error"
    );
    let e = data.experiments.find_experiment(&"E1".to_string()).unwrap();
    assert_eq!(e.status, Status::NeedsReport);
}

#[test]
fn progress_requires_the_current_assignee() {
    let mut data = server_with(vec![queued_experiment("E1", None, &["foo", "bar"])]);
    let alpha = "alpha".to_string();
    let beta = "beta".to_string();
    data.experiments.claim_next(&alpha);

    let stray = ProgressData { package: "foo".to_string(), data: "result".to_string() };
    assert!(!data.experiments.record_progress(&beta, stray));
    assert_eq!(data.experiments.progress_count(), 0);

    let owned = ProgressData { package: "foo".to_string(), data: "result".to_string() };
    assert!(data.experiments.record_progress(&alpha, owned));
    assert_eq!(data.experiments.progress_count(), 1);
    let e = data.experiments.find_experiment(&"E1".to_string()).unwrap();
    assert_eq!(e.status, Status::Running, "progress never changes the status");
}

#[test]
fn redelivery_strips_completed_packages() {
    let mut data = server_with(vec![queued_experiment("E1", None, &["foo", "bar"])]);
    let alpha = "alpha".to_string();

    let (first, _) = data.experiments.claim_next(&alpha);
    assert_eq!(first.unwrap().packages, vec!["foo".to_string(), "bar".to_string()]);

    let done = ProgressData { package: "foo".to_string(), data: "ok".to_string() };
    assert!(data.experiments.record_progress(&alpha, done));

    let (again, _) = data.experiments.claim_next(&alpha);
    assert_eq!(again.unwrap().packages, vec!["bar".to_string()]);
}

#[test]
fn reports_waker_coalesces() {
    let mut w = ReportsWaker::new();
    assert!(!w.take());
    w.wake();
    w.wake();
    assert!(w.take(), "many wakes before the worker looks are one");
    assert!(!w.take());
}

#[test]
fn end_to_end_scenario() {
    let mut data = server_with(vec![queued_experiment("E1", Some("http://issue/7"), &["foo"])]);

    // Agent A fetches its config.
    let (resp, notif) = handle_request(&mut data, request(HttpMethod::Get, "config", "tok-alpha"));
    assert_eq!(resp.status, 200);
    assert!(notif.is_none());
    match resp.payload {
        Payload::Config(c) => {
            assert_eq!(c.agent_name, "alpha");
            assert_eq!(c.crater_config.contents, "default-config");
        },
        _ => panic!("config request answers with the agent config"),
    }

    // A claims: E1 becomes Running, assigned to A, one notification.
    let (resp, notif) =
        handle_request(&mut data, request(HttpMethod::Get, "next-experiment", "tok-alpha"));
    assert_eq!(resp.status, 200);
    match resp.payload {
        Payload::NextExperiment(Some(e)) => assert_eq!(e.name, "E1"),
        _ => panic!("the one queued experiment goes to A"),
    }
    let n = notif.expect("first assignment of an experiment with an issue notifies");
    assert_eq!(n.issue_url, "http://issue/7");
    assert_eq!(n.message, "Experiment `E1` is now running on agent `alpha`.");
    let e = data.experiments.find_experiment(&"E1".to_string()).unwrap();
    assert_eq!(e.status, Status::Running);

    // B claims: no work, and no notification.
    let (resp, notif) =
        handle_request(&mut data, request(HttpMethod::Get, "next-experiment", "tok-beta"));
    assert_eq!(resp.status, 200);
    assert!(notif.is_none());
    match resp.payload {
        Payload::NextExperiment(None) => {},
        _ => panic!("B gets no work while A runs the only experiment"),
    }

    // A posts progress for package "foo": stored, status unchanged.
    let mut req = request(HttpMethod::Post, "record-progress", "tok-alpha");
    req.body = Some(ProgressData { package: "foo".to_string(), data: "built".to_string() });
    let (resp, notif) = handle_request(&mut data, req);
    assert_eq!(resp.status, 200);
    assert!(notif.is_none());
    assert!(matches!(resp.payload, Payload::Flag(true)));
    assert_eq!(data.experiments.progress_count(), 1);
    let e = data.experiments.find_experiment(&"E1".to_string()).unwrap();
    assert_eq!(e.status, Status::Running);

    // A completes: NeedsReport, the reports worker is signaled.
    let (resp, _) =
        handle_request(&mut data, request(HttpMethod::Post, "complete-experiment", "tok-alpha"));
    assert_eq!(resp.status, 200);
    assert!(matches!(resp.payload, Payload::Flag(true)));
    let e = data.experiments.find_experiment(&"E1".to_string()).unwrap();
    assert_eq!(e.status, Status::NeedsReport);
    assert!(data.reports_worker.take());

    // A completes again: the ownership error.
    let (resp, _) =
        handle_request(&mut data, request(HttpMethod::Post, "complete-experiment", "tok-alpha"));
    assert_eq!(resp.status, 500);
    match resp.payload {
        Payload::Error(m) => assert_eq!(m, "no experiment run by this agent"),
        _ => panic!("a second completion fails with the ownership error"),
    }
}

#[test]
fn unknown_route_is_not_found() {
    let mut data = server_with(vec![]);
    let (resp, notif) = handle_request(&mut data, request(HttpMethod::Get, "missing", "tok-alpha"));
    assert_eq!(resp.status, 404);
    assert!(notif.is_none());
    match resp.payload {
        Payload::Error(m) => assert_eq!(m, "not found"),
        _ => panic!("an unrouted request is answered not-found"),
    }
}

#[test]
fn bad_credential_is_forbidden_on_a_real_route() {
    let mut data = server_with(vec![]);
    let (resp, _) = handle_request(&mut data, request(HttpMethod::Get, "config", "tok-wrong"));
    assert_eq!(resp.status, 403);
    match resp.payload {
        Payload::Error(m) => assert_eq!(m, "invalid authorization token"),
        _ => panic!("a rejected credential is forbidden"),
    }

    // A valid credential of the wrong type gets the very same answer.
    let (resp, _) = handle_request(&mut data, request(HttpMethod::Get, "config", "tok-site"));
    assert_eq!(resp.status, 403);
    match resp.payload {
        Payload::Error(m) => assert_eq!(m, "invalid authorization token"),
        _ => panic!("a wrong-type credential is forbidden, not distinguished"),
    }
}

#[test]
fn record_progress_without_body_is_a_server_error() {
    let mut data = server_with(vec![]);
    let (resp, _) =
        handle_request(&mut data, request(HttpMethod::Post, "record-progress", "tok-alpha"));
    assert_eq!(resp.status, 500);
    match resp.payload {
        Payload::Error(m) => assert_eq!(m, "invalid request body"),
        _ => panic!("a record-progress call without a body is a server error"),
    }
}

#[test]
fn heartbeat_updates_liveness_through_the_wire() {
    let mut data = server_with(vec![]);
    let mut req = request(HttpMethod::Post, "heartbeat", "tok-alpha");
    req.git_revision = Some("deadbeef".to_string());
    req.now = 1234;
    let (resp, _) = handle_request(&mut data, req);
    assert_eq!(resp.status, 200);
    assert!(matches!(resp.payload, Payload::Flag(true)));
    let rec = data.agents.get(&"alpha".to_string()).unwrap();
    assert_eq!(rec.last_heartbeat, 1234);
    assert_eq!(rec.git_revision, Some("deadbeef".to_string()));
}

#[test]
fn notification_only_with_a_linked_issue() {
    let mut data = server_with(vec![queued_experiment("E2", None, &[])]);
    let (resp, notif) =
        handle_request(&mut data, request(HttpMethod::Get, "next-experiment", "tok-alpha"));
    assert_eq!(resp.status, 200);
    assert!(notif.is_none(), "no linked issue, no notification");
    match resp.payload {
        Payload::NextExperiment(Some(e)) => assert_eq!(e.name, "E2"),
        _ => panic!("the queued experiment is still assigned"),
    }
}

#[test]
fn redelivery_does_not_retrigger_notification() {
    let mut data = server_with(vec![queued_experiment("E1", Some("http://issue/9"), &[])]);

    let (_, notif) =
        handle_request(&mut data, request(HttpMethod::Get, "next-experiment", "tok-alpha"));
    assert!(notif.is_some(), "the first assignment notifies once");

    let (resp, notif) =
        handle_request(&mut data, request(HttpMethod::Get, "next-experiment", "tok-alpha"));
    assert!(notif.is_none(), "idempotent redelivery never notifies again");
    match resp.payload {
        Payload::NextExperiment(Some(e)) => assert_eq!(e.name, "E1"),
        _ => panic!("redelivery returns the same experiment"),
    }
}
