//! The server coordinator: request handlers wiring the credential gate,
//! the experiment registry, the agent registry and the notification sink
//! into the wire protocol.
//!
//! Transport stays outside: a request arrives here as plain values and the
//! answer goes back as plain values, together with at most one notification
//! for the caller to post after the state change is committed.

use vstd::prelude::*;
use vstd::string::StringExecFns;
use crate::agents::AgentRegistry;
use crate::agents::AgentRecordView;
use crate::agents::option_string_view;
use crate::agents::spec_heartbeat;
use crate::auth::AuthDetails;
use crate::auth::HttpError;
use crate::auth::TokenEntryView;
use crate::auth::TokenType;
use crate::auth::Tokens;
use crate::auth::authenticate;
use crate::auth::spec_authenticate;
use crate::experiments::Experiment;
use crate::experiments::ExperimentRegistry;
use crate::experiments::ProgressData;
use crate::experiments::RegistryView;
use crate::experiments::option_experiment_view;
use crate::experiments::spec_claim_next;
use crate::experiments::spec_complete;
use crate::experiments::spec_record_progress;

verus! {

/// Server-wide run configuration: an opaque snapshot that agents fetch once
/// at startup, hold read-only, and forward to the execution engine.
#[derive(Debug)]
pub struct Config {
    pub contents: String,
}

/// What the config endpoint returns: the display name the server assigned
/// to this credential, plus the configuration snapshot.
#[derive(Debug)]
pub struct AgentConfig {
    pub agent_name: String,
    pub crater_config: Config,
}

/// A message to post to the external tracker issue linked to an experiment.
/// Posting happens outside, strictly after the assignment is committed.
#[derive(Debug)]
pub struct Notification {
    pub issue_url: String,
    pub message: String,
}

/// The coalescing wake signal for the external reports worker: many wakes
/// before the worker looks are the same as one.
pub struct ReportsWaker {
    woken: bool,
}

impl ReportsWaker {
    pub closed spec fn is_woken(&self) -> bool {
        self.woken
    }

    pub fn new() -> (r: ReportsWaker)
        ensures
            !r.is_woken(),
    {
        ReportsWaker { woken: false }
    }

    /// Raises the signal; raising it twice is the same as once.
    pub fn wake(&mut self)
        ensures
            final(self).is_woken(),
    {
        self.woken = true;
    }

    /// Consumes the signal, saying whether it was raised since last asked.
    pub fn take(&mut self) -> (r: bool)
        ensures
            r == old(self).is_woken(),
            !final(self).is_woken(),
    {
        let was = self.woken;
        self.woken = false;
        was
    }
}

/// The whole server state behind the request handlers.
pub struct Data {
    pub config: Config,
    pub tokens: Tokens,
    pub experiments: ExperimentRegistry,
    pub agents: AgentRegistry,
    pub reports_worker: ReportsWaker,
}

#[verifier::ext_equal]
pub struct DataView {
    pub config: Seq<char>,
    pub tokens: Seq<TokenEntryView>,
    pub experiments: RegistryView,
    pub agents: Seq<AgentRecordView>,
    pub reports_worker_woken: bool,
}

impl View for Data {
    type V = DataView;

    open spec fn view(&self) -> DataView {
        DataView {
            config: self.config.contents@,
            tokens: self.tokens@,
            experiments: self.experiments@,
            agents: self.agents@,
            reports_worker_woken: self.reports_worker.is_woken(),
        }
    }
}

impl Data {
    pub open spec fn wf(&self) -> bool {
        self.experiments.wf() && self.agents.wf() && self.tokens.wf()
    }
}

/// The error an endpoint can answer: a request that presumes an assignment
/// this agent does not hold.
#[derive(Clone, Copy, PartialEq, Eq, Structural, Debug)]
pub enum ServerError {
    NoExperimentRunByAgent,
}

pub open spec fn server_error_message(e: ServerError) -> Seq<char> {
    "no experiment run by this agent"@
}

impl ServerError {
    /// The wire-level text of this error.
    pub fn message(&self) -> (r: String)
        ensures
            r@ == server_error_message(*self),
    {
        "no experiment run by this agent".to_owned()
    }
}

/// The tracker message posted when an experiment first starts running.
pub open spec fn assignment_message(experiment: Seq<char>, agent: Seq<char>) -> Seq<char> {
    "Experiment `"@ + experiment + "` is now running on agent `"@ + agent + "`."@
}

fn build_assignment_message(experiment: &String, agent: &String) -> (r: String)
    ensures
        r@ == assignment_message(experiment@, agent@),
{
    let mut m = "Experiment `".to_owned();
    m.append(experiment.as_str());
    m.append("` is now running on agent `");
    m.append(agent.as_str());
    m.append("`.");
    proof {
        assert(m@ =~= assignment_message(experiment@, agent@));
    }
    m
}

/// Read-only: the identity resolved for this credential and the current
/// configuration snapshot.
pub fn endpoint_config(data: &Data, auth: &AuthDetails) -> (r: AgentConfig)
    ensures
        r.agent_name@ == auth.name@,
        r.crater_config.contents@ == data@.config,
{
    AgentConfig {
        agent_name: auth.name.clone(),
        crater_config: Config { contents: data.config.contents.clone() },
    }
}

/// Claims the next experiment for the calling agent, and decides whether a
/// notification must be posted: exactly on a first assignment of an
/// experiment that has a linked issue, never on idempotent redelivery.
pub fn endpoint_next_experiment(data: &mut Data, auth: &AuthDetails) -> (r: (
    Option<Experiment>,
    Option<Notification>,
))
    requires
        old(data).wf(),
    ensures
        final(data).wf(),
        final(data)@.experiments == spec_claim_next(old(data)@.experiments, auth.name@).0,
        option_experiment_view(r.0) == spec_claim_next(old(data)@.experiments, auth.name@).1,
        final(data)@.config == old(data)@.config,
        final(data)@.tokens == old(data)@.tokens,
        final(data)@.agents == old(data)@.agents,
        final(data)@.reports_worker_woken == old(data)@.reports_worker_woken,
        ({
            let (s2, exv, newly) = spec_claim_next(old(data)@.experiments, auth.name@);
            match r.1 {
                Some(n) => newly && exv is Some && exv->Some_0.github_issue == Some(n.issue_url@)
                    && n.message@ == assignment_message(exv->Some_0.name, auth.name@),
                None => !(newly && exv is Some && exv->Some_0.github_issue is Some),
            }
        }),
{
    let (ex, newly) = data.experiments.claim_next(&auth.name);
    let notification = if newly {
        match &ex {
            Some(e) => match &e.github_issue {
                Some(url) => Some(
                    Notification {
                        issue_url: url.clone(),
                        message: build_assignment_message(&e.name, &auth.name),
                    },
                ),
                None => None,
            },
            None => None,
        }
    } else {
        None
    };
    (ex, notification)
}

/// Marks the experiment run by the calling agent as needing a report and
/// wakes the reports worker; fails with the ownership error when this agent
/// runs nothing.
pub fn endpoint_complete_experiment(data: &mut Data, auth: &AuthDetails) -> (r: Result<
    bool,
    ServerError,
>)
    requires
        old(data).wf(),
    ensures
        final(data).wf(),
        final(data)@.experiments == spec_complete(old(data)@.experiments, auth.name@).0,
        final(data)@.config == old(data)@.config,
        final(data)@.tokens == old(data)@.tokens,
        final(data)@.agents == old(data)@.agents,
        spec_complete(old(data)@.experiments, auth.name@).1 ==> r == Ok::<bool, ServerError>(true)
            && final(data)@.reports_worker_woken,
        !spec_complete(old(data)@.experiments, auth.name@).1 ==> r == Err::<bool, ServerError>(
            ServerError::NoExperimentRunByAgent,
        ) && final(data)@.reports_worker_woken == old(data)@.reports_worker_woken,
{
    let done = data.experiments.complete(&auth.name);
    if done {
        data.reports_worker.wake();
        Ok(true)
    } else {
        Err(ServerError::NoExperimentRunByAgent)
    }
}

/// Stores a progress record for the experiment run by the calling agent;
/// fails with the ownership error when this agent runs nothing. Never
/// changes any experiment's status.
pub fn endpoint_record_progress(data: &mut Data, progress: ProgressData, auth: &AuthDetails) -> (r:
    Result<bool, ServerError>)
    requires
        old(data).wf(),
    ensures
        final(data).wf(),
        final(data)@.experiments == spec_record_progress(
            old(data)@.experiments,
            auth.name@,
            progress@,
        ).0,
        final(data)@.config == old(data)@.config,
        final(data)@.tokens == old(data)@.tokens,
        final(data)@.agents == old(data)@.agents,
        final(data)@.reports_worker_woken == old(data)@.reports_worker_woken,
        spec_record_progress(old(data)@.experiments, auth.name@, progress@).1 ==> r == Ok::<
            bool,
            ServerError,
        >(true),
        !spec_record_progress(old(data)@.experiments, auth.name@, progress@).1 ==> r == Err::<
            bool,
            ServerError,
        >(ServerError::NoExperimentRunByAgent),
{
    let stored = data.experiments.record_progress(&auth.name, progress);
    if stored {
        Ok(true)
    } else {
        Err(ServerError::NoExperimentRunByAgent)
    }
}

/// Updates the calling agent's liveness record at time `now`. Succeeds
/// whether or not the agent holds an assignment.
pub fn endpoint_heartbeat(data: &mut Data, auth: &AuthDetails, now: u64) -> (r: bool)
    requires
        old(data).wf(),
    ensures
        final(data).wf(),
        final(data)@.agents == spec_heartbeat(
            old(data)@.agents,
            auth.name@,
            option_string_view(auth.git_revision),
            now,
        ),
        final(data)@.config == old(data)@.config,
        final(data)@.tokens == old(data)@.tokens,
        final(data)@.experiments == old(data)@.experiments,
        final(data)@.reports_worker_woken == old(data)@.reports_worker_woken,
        r == true,
{
    let revision = match &auth.git_revision {
        Some(rev) => Some(rev.clone()),
        None => None,
    };
    data.agents.heartbeat(&auth.name, revision, now);
    true
}

#[derive(Clone, Copy, PartialEq, Eq, Structural, Debug)]
pub enum HttpMethod {
    Get,
    Post,
}

/// The endpoints of the wire protocol.
#[derive(Clone, Copy, PartialEq, Eq, Structural, Debug)]
pub enum Endpoint {
    Config,
    NextExperiment,
    CompleteExperiment,
    RecordProgress,
    Heartbeat,
}

/// The route table: which endpoint a method and path reach, if any.
pub open spec fn spec_route(method: HttpMethod, path: Seq<char>) -> Option<Endpoint> {
    if method == HttpMethod::Get && path == "config"@ {
        Some(Endpoint::Config)
    } else if method == HttpMethod::Get && path == "next-experiment"@ {
        Some(Endpoint::NextExperiment)
    } else if method == HttpMethod::Post && path == "complete-experiment"@ {
        Some(Endpoint::CompleteExperiment)
    } else if method == HttpMethod::Post && path == "record-progress"@ {
        Some(Endpoint::RecordProgress)
    } else if method == HttpMethod::Post && path == "heartbeat"@ {
        Some(Endpoint::Heartbeat)
    } else {
        None
    }
}

/// Resolves a method and path to an endpoint; anything else is unrouted and
/// answered not-found.
pub fn routes(method: HttpMethod, path: &String) -> (r: Option<Endpoint>)
    ensures
        r == spec_route(method, path@),
{
    if method == HttpMethod::Get && *path == "config".to_owned() {
        Some(Endpoint::Config)
    } else if method == HttpMethod::Get && *path == "next-experiment".to_owned() {
        Some(Endpoint::NextExperiment)
    } else if method == HttpMethod::Post && *path == "complete-experiment".to_owned() {
        Some(Endpoint::CompleteExperiment)
    } else if method == HttpMethod::Post && *path == "record-progress".to_owned() {
        Some(Endpoint::RecordProgress)
    } else if method == HttpMethod::Post && *path == "heartbeat".to_owned() {
        Some(Endpoint::Heartbeat)
    } else {
        None
    }
}

/// One request, already unwrapped from the transport: the route, the raw
/// authorization and revision headers, the decoded body of a
/// record-progress call, and the server's clock reading for this request.
#[derive(Debug)]
pub struct Request {
    pub method: HttpMethod,
    pub path: String,
    pub authorization: Option<String>,
    pub git_revision: Option<String>,
    pub body: Option<ProgressData>,
    pub now: u64,
}

/// A success or error payload, still as plain values; the transport
/// serializes it into the success/error envelope.
#[derive(Debug)]
pub enum Payload {
    Config(AgentConfig),
    NextExperiment(Option<Experiment>),
    Flag(bool),
    Error(String),
}

/// What goes back on the wire: an HTTP status code and the payload.
#[derive(Debug)]
pub struct WireResponse {
    pub status: u16,
    pub payload: Payload,
}

pub open spec fn spec_header_view(h: Option<String>) -> Option<Seq<char>> {
    match h {
        Some(s) => Some(s@),
        None => None,
    }
}

/// Maps a failure ahead of dispatch to its wire answer: an unknown route or
/// method is not-found; a rejected credential is the one uniform forbidden
/// answer.
pub fn error_response(e: HttpError) -> (r: WireResponse)
    ensures
        e == HttpError::NotFound ==> r.status == 404 && r.payload is Error
            && r.payload->Error_0@ == "not found"@,
        e == HttpError::Forbidden ==> r.status == 403 && r.payload is Error
            && r.payload->Error_0@ == "invalid authorization token"@,
{
    match e {
        HttpError::NotFound => WireResponse {
            status: 404,
            payload: Payload::Error("not found".to_owned()),
        },
        HttpError::Forbidden => WireResponse {
            status: 403,
            payload: Payload::Error("invalid authorization token".to_owned()),
        },
    }
}

/// Handles one request against the whole server state: route, authenticate,
/// dispatch, and wrap the outcome. An unrouted request is 404; a rejected
/// credential is 403; an ownership error or missing body is 500 with the
/// error text; everything else is 200 with the endpoint's payload.
pub fn handle_request(data: &mut Data, req: Request) -> (r: (WireResponse, Option<Notification>))
    requires
        old(data).wf(),
    ensures
        final(data).wf(),
        final(data)@.config == old(data)@.config,
        final(data)@.tokens == old(data)@.tokens,
        spec_route(req.method, req.path@) is None ==> final(data)@ == old(data)@ && r.0.status
            == 404 && r.0.payload is Error && r.0.payload->Error_0@ == "not found"@ && r.1 is None,
        spec_route(req.method, req.path@) is Some && spec_authenticate(
            old(data)@.tokens,
            spec_header_view(req.authorization),
            TokenType::Agent,
        ) is None ==> final(data)@ == old(data)@ && r.0.status == 403 && r.0.payload is Error
            && r.0.payload->Error_0@ == "invalid authorization token"@ && r.1 is None,
        ({
            let route = spec_route(req.method, req.path@);
            let auth = spec_authenticate(
                old(data)@.tokens,
                spec_header_view(req.authorization),
                TokenType::Agent,
            );
            route is Some && auth is Some ==> {
                let name = auth->Some_0;
                match route->Some_0 {
                    Endpoint::Config => final(data)@ == old(data)@ && r.0.status == 200
                        && r.0.payload is Config && r.0.payload->Config_0.agent_name@ == name
                        && r.0.payload->Config_0.crater_config.contents@ == old(data)@.config
                        && r.1 is None,
                    Endpoint::NextExperiment => {
                        let (s2, exv, newly) = spec_claim_next(old(data)@.experiments, name);
                        &&& final(data)@.experiments == s2
                        &&& final(data)@.agents == old(data)@.agents
                        &&& final(data)@.reports_worker_woken == old(
                            data,
                        )@.reports_worker_woken
                        &&& r.0.status == 200
                        &&& r.0.payload is NextExperiment
                        &&& option_experiment_view(r.0.payload->NextExperiment_0) == exv
                        &&& (match r.1 {
                            Some(n) => newly && exv is Some && exv->Some_0.github_issue == Some(
                                n.issue_url@,
                            ) && n.message@ == assignment_message(exv->Some_0.name, name),
                            None => !(newly && exv is Some && exv->Some_0.github_issue is Some),
                        })
                    },
                    Endpoint::CompleteExperiment => {
                        let (s2, ok) = spec_complete(old(data)@.experiments, name);
                        &&& final(data)@.experiments == s2
                        &&& final(data)@.agents == old(data)@.agents
                        &&& r.1 is None
                        &&& (ok ==> r.0.status == 200 && r.0.payload is Flag
                            && r.0.payload->Flag_0 == true && final(data)@.reports_worker_woken)
                        &&& (!ok ==> r.0.status == 500 && r.0.payload is Error
                            && r.0.payload->Error_0@ == server_error_message(
                            ServerError::NoExperimentRunByAgent,
                        ) && final(data)@.reports_worker_woken == old(
                            data,
                        )@.reports_worker_woken)
                    },
                    Endpoint::RecordProgress => {
                        &&& final(data)@.agents == old(data)@.agents
                        &&& final(data)@.reports_worker_woken == old(
                            data,
                        )@.reports_worker_woken
                        &&& r.1 is None
                        &&& (match req.body {
                            Some(pd) => {
                                let (s2, ok) = spec_record_progress(
                                    old(data)@.experiments,
                                    name,
                                    pd@,
                                );
                                &&& final(data)@.experiments == s2
                                &&& (ok ==> r.0.status == 200 && r.0.payload is Flag
                                    && r.0.payload->Flag_0 == true)
                                &&& (!ok ==> r.0.status == 500 && r.0.payload is Error
                                    && r.0.payload->Error_0@ == server_error_message(
                                    ServerError::NoExperimentRunByAgent,
                                ))
                            },
                            None => final(data)@ == old(data)@ && r.0.status == 500
                                && r.0.payload is Error && r.0.payload->Error_0@
                                == "invalid request body"@,
                        })
                    },
                    Endpoint::Heartbeat => {
                        &&& final(data)@.experiments == old(data)@.experiments
                        &&& final(data)@.reports_worker_woken == old(
                            data,
                        )@.reports_worker_woken
                        &&& final(data)@.agents == spec_heartbeat(
                            old(data)@.agents,
                            name,
                            option_string_view(req.git_revision),
                            req.now,
                        )
                        &&& r.0.status == 200
                        &&& r.0.payload is Flag
                        &&& r.0.payload->Flag_0 == true
                        &&& r.1 is None
                    },
                }
            }
        }),
{
    let route = match routes(req.method, &req.path) {
        Some(e) => e,
        None => {
            return (error_response(HttpError::NotFound), None);
        },
    };
    let auth = match authenticate(
        &data.tokens,
        req.authorization.as_ref(),
        TokenType::Agent,
        req.git_revision,
    ) {
        Ok(details) => details,
        Err(e) => {
            return (error_response(e), None);
        },
    };
    match route {
        Endpoint::Config => {
            let c = endpoint_config(data, &auth);
            (WireResponse { status: 200, payload: Payload::Config(c) }, None)
        },
        Endpoint::NextExperiment => {
            let (ex, notification) = endpoint_next_experiment(data, &auth);
            (WireResponse { status: 200, payload: Payload::NextExperiment(ex) }, notification)
        },
        Endpoint::CompleteExperiment => {
            match endpoint_complete_experiment(data, &auth) {
                Ok(flag) => (WireResponse { status: 200, payload: Payload::Flag(flag) }, None),
                Err(e) => (
                    WireResponse { status: 500, payload: Payload::Error(e.message()) },
                    None,
                ),
            }
        },
        Endpoint::RecordProgress => {
            match req.body {
                Some(pd) => {
                    match endpoint_record_progress(data, pd, &auth) {
                        Ok(flag) => (
                            WireResponse { status: 200, payload: Payload::Flag(flag) },
                            None,
                        ),
                        Err(e) => (
                            WireResponse { status: 500, payload: Payload::Error(e.message()) },
                            None,
                        ),
                    }
                },
                None => (
                    WireResponse {
                        status: 500,
                        payload: Payload::Error("invalid request body".to_owned()),
                    },
                    None,
                ),
            }
        },
        Endpoint::Heartbeat => {
            let flag = endpoint_heartbeat(data, &auth, req.now);
            (WireResponse { status: 200, payload: Payload::Flag(flag) }, None)
        },
    }
}

} // verus!
