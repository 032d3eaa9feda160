//! Experiments, their lifecycle, and the registry that assigns them.
//!
//! An experiment moves forward through `Queued -> Running -> NeedsReport ->
//! GeneratingReport -> Completed` and never backward. The registry serializes
//! every claim, so a `Queued` experiment is handed to exactly one agent.

use vstd::prelude::*;
use crate::search::first_where;
use crate::search::lemma_first_where_is;
use crate::search::lemma_first_where_none;
use crate::search::lemma_first_where_characterization;

verus! {

/// Lifecycle of an experiment; transitions only ever move forward.
#[derive(Clone, Copy, PartialEq, Eq, Structural, Debug)]
pub enum Status {
    Queued,
    Running,
    NeedsReport,
    GeneratingReport,
    Completed,
}

/// Who is responsible for an experiment: an agent that claimed it, or an
/// operator who triggered it by hand.
#[derive(Debug)]
pub enum Assignee {
    Agent(String),
    ManuallyTriggered,
}

pub enum AssigneeView {
    Agent(Seq<char>),
    ManuallyTriggered,
}

impl View for Assignee {
    type V = AssigneeView;

    open spec fn view(&self) -> AssigneeView {
        match self {
            Assignee::Agent(name) => AssigneeView::Agent(name@),
            Assignee::ManuallyTriggered => AssigneeView::ManuallyTriggered,
        }
    }
}

impl Assignee {
    /// A deep copy.
    pub fn duplicate(&self) -> (r: Assignee)
        ensures
            r@ == self@,
    {
        match self {
            Assignee::Agent(name) => Assignee::Agent(name.clone()),
            Assignee::ManuallyTriggered => Assignee::ManuallyTriggered,
        }
    }
}

/// One unit of distributed work: a named matrix of packages to build and
/// test, plus where it stands in the lifecycle and who runs it.
#[derive(Debug)]
pub struct Experiment {
    pub name: String,
    pub status: Status,
    pub assignee: Option<Assignee>,
    /// API URL of a linked external issue, if the experiment has one.
    pub github_issue: Option<String>,
    /// Work items still part of the experiment, one per package.
    pub packages: Vec<String>,
}

#[verifier::ext_equal]
pub struct ExperimentView {
    pub name: Seq<char>,
    pub status: Status,
    pub assignee: Option<AssigneeView>,
    pub github_issue: Option<Seq<char>>,
    pub packages: Seq<Seq<char>>,
}

impl View for Experiment {
    type V = ExperimentView;

    open spec fn view(&self) -> ExperimentView {
        ExperimentView {
            name: self.name@,
            status: self.status,
            assignee: match self.assignee {
                Some(a) => Some(a@),
                None => None,
            },
            github_issue: match self.github_issue {
                Some(u) => Some(u@),
                None => None,
            },
            packages: self.packages@.map_values(|p: String| p@),
        }
    }
}

impl Experiment {
    /// A deep copy; the registry hands copies out so callers never alias its
    /// own state.
    pub fn duplicate(&self) -> (r: Experiment)
        ensures
            r@ == self@,
    {
        let mut packages: Vec<String> = Vec::new();
        let mut i: usize = 0;
        while i < self.packages.len()
            invariant
                i <= self.packages.len(),
                packages@.len() == i,
                forall|j: int| 0 <= j < i ==> packages@[j] == self.packages@[j],
            decreases self.packages.len() - i,
        {
            packages.push(self.packages[i].clone());
            i = i + 1;
        }
        let r = Experiment {
            name: self.name.clone(),
            status: self.status,
            assignee: match &self.assignee {
                Some(a) => Some(a.duplicate()),
                None => None,
            },
            github_issue: match &self.github_issue {
                Some(u) => Some(u.clone()),
                None => None,
            },
            packages,
        };
        proof {
            assert(r.packages@ =~= self.packages@);
            assert(r@ =~= self@);
        }
        r
    }
}

/// Result payload reported by an agent for one package of one experiment.
#[derive(Debug)]
pub struct ProgressData {
    pub package: String,
    pub data: String,
}

pub struct ProgressDataView {
    pub package: Seq<char>,
    pub data: Seq<char>,
}

impl View for ProgressData {
    type V = ProgressDataView;

    open spec fn view(&self) -> ProgressDataView {
        ProgressDataView { package: self.package@, data: self.data@ }
    }
}

/// A stored progress record, attributed to the agent that reported it.
#[derive(Debug)]
pub struct ProgressRecord {
    pub experiment: String,
    pub agent: String,
    pub package: String,
    pub data: String,
}

#[verifier::ext_equal]
pub struct ProgressRecordView {
    pub experiment: Seq<char>,
    pub agent: Seq<char>,
    pub package: Seq<char>,
    pub data: Seq<char>,
}

impl View for ProgressRecord {
    type V = ProgressRecordView;

    open spec fn view(&self) -> ProgressRecordView {
        ProgressRecordView {
            experiment: self.experiment@,
            agent: self.agent@,
            package: self.package@,
            data: self.data@,
        }
    }
}

/// The agent running `e`, when `e` is `Running` with an agent assignee.
pub open spec fn running_agent(e: ExperimentView) -> Option<Seq<char>> {
    if e.status == Status::Running {
        match e.assignee {
            Some(AssigneeView::Agent(name)) => Some(name),
            _ => None,
        }
    } else {
        None
    }
}

/// Whether `e` is currently run by `agent`.
pub open spec fn is_run_by(e: ExperimentView, agent: Seq<char>) -> bool {
    running_agent(e) == Some(agent)
}

pub open spec fn is_queued(e: ExperimentView) -> bool {
    e.status == Status::Queued
}

/// Index of the experiment currently run by `agent`, if any.
pub open spec fn spec_run_by(exps: Seq<ExperimentView>, agent: Seq<char>) -> Option<int> {
    first_where(exps, |e: ExperimentView| is_run_by(e, agent))
}

/// Index of the first `Queued` experiment, if any.
pub open spec fn spec_first_queued(exps: Seq<ExperimentView>) -> Option<int> {
    first_where(exps, |e: ExperimentView| is_queued(e))
}

/// Index of the experiment named `name`, if any.
pub open spec fn spec_find(exps: Seq<ExperimentView>, name: Seq<char>) -> Option<int> {
    first_where(exps, |e: ExperimentView| e.name == name)
}

/// Whether some agent has already reported a result for `package` within
/// `experiment`.
pub open spec fn package_completed(
    progress: Seq<ProgressRecordView>,
    experiment: Seq<char>,
    package: Seq<char>,
) -> bool {
    exists|k: int|
        0 <= k < progress.len() && progress[k].experiment == experiment && progress[k].package
            == package
}

/// The packages of an experiment that no agent has completed yet, in order.
pub open spec fn remaining_packages(
    packages: Seq<Seq<char>>,
    progress: Seq<ProgressRecordView>,
    experiment: Seq<char>,
) -> Seq<Seq<char>>
    decreases packages.len(),
{
    if packages.len() == 0 {
        Seq::empty()
    } else {
        let prefix = remaining_packages(packages.drop_last(), progress, experiment);
        if package_completed(progress, experiment, packages.last()) {
            prefix
        } else {
            prefix.push(packages.last())
        }
    }
}

/// `e` with the packages other agents already completed stripped out.
pub open spec fn strip_completed(
    e: ExperimentView,
    progress: Seq<ProgressRecordView>,
) -> ExperimentView {
    ExperimentView { packages: remaining_packages(e.packages, progress, e.name), ..e }
}

#[verifier::ext_equal]
pub struct RegistryView {
    pub experiments: Seq<ExperimentView>,
    pub progress: Seq<ProgressRecordView>,
}

/// Registry invariant: experiment names are unique, and no two experiments
/// are run by the same agent at once.
pub open spec fn wf_experiments(exps: Seq<ExperimentView>) -> bool {
    forall|i: int, j: int|
        #![trigger exps[i], exps[j]]
        0 <= i < exps.len() && 0 <= j < exps.len() && i != j ==> exps[i].name != exps[j].name && !(
        running_agent(exps[i]) is Some && running_agent(exps[i]) == running_agent(exps[j]))
}

/// What a claim does: idempotent redelivery of the experiment the agent
/// already runs, else assignment of the first `Queued` experiment, else no
/// work. The returned experiment is stripped of completed packages; the
/// flag says whether this claim newly assigned it.
pub open spec fn spec_claim_next(s: RegistryView, agent: Seq<char>) -> (
    RegistryView,
    Option<ExperimentView>,
    bool,
) {
    match spec_run_by(s.experiments, agent) {
        Some(i) => (s, Some(strip_completed(s.experiments[i], s.progress)), false),
        None => match spec_first_queued(s.experiments) {
            Some(i) => {
                let assigned = ExperimentView {
                    status: Status::Running,
                    assignee: Some(AssigneeView::Agent(agent)),
                    ..s.experiments[i]
                };
                (
                    RegistryView { experiments: s.experiments.update(i, assigned), ..s },
                    Some(strip_completed(assigned, s.progress)),
                    true,
                )
            },
            None => (s, None, false),
        },
    }
}

/// What completion does: the experiment run by `agent` moves to
/// `NeedsReport`; with no such experiment the state is unchanged and the
/// flag reports the ownership failure.
pub open spec fn spec_complete(s: RegistryView, agent: Seq<char>) -> (RegistryView, bool) {
    match spec_run_by(s.experiments, agent) {
        Some(i) => (
            RegistryView {
                experiments: s.experiments.update(
                    i,
                    ExperimentView { status: Status::NeedsReport, ..s.experiments[i] },
                ),
                ..s
            },
            true,
        ),
        None => (s, false),
    }
}

/// What progress ingestion does: append one record attributed to `agent`
/// for the experiment it runs, touching no experiment state; with no such
/// experiment the state is unchanged and the flag reports the failure.
pub open spec fn spec_record_progress(
    s: RegistryView,
    agent: Seq<char>,
    pd: ProgressDataView,
) -> (RegistryView, bool) {
    match spec_run_by(s.experiments, agent) {
        Some(i) => (
            RegistryView {
                progress: s.progress.push(
                    ProgressRecordView {
                        experiment: s.experiments[i].name,
                        agent: agent,
                        package: pd.package,
                        data: pd.data,
                    },
                ),
                ..s
            },
            true,
        ),
        None => (s, false),
    }
}

pub open spec fn option_experiment_view(o: Option<Experiment>) -> Option<ExperimentView> {
    match o {
        Some(e) => Some(e@),
        None => None,
    }
}

/// Persisted state of experiments and of ingested progress. All mutation
/// goes through the atomic operations below, which keep the invariant.
pub struct ExperimentRegistry {
    experiments: Vec<Experiment>,
    progress: Vec<ProgressRecord>,
}

impl View for ExperimentRegistry {
    type V = RegistryView;

    closed spec fn view(&self) -> RegistryView {
        RegistryView {
            experiments: self.experiments@.map_values(|e: Experiment| e@),
            progress: self.progress@.map_values(|p: ProgressRecord| p@),
        }
    }
}

impl ExperimentRegistry {
    pub open spec fn wf(&self) -> bool {
        wf_experiments(self@.experiments)
    }

    pub fn new() -> (r: ExperimentRegistry)
        ensures
            r@.experiments == Seq::<ExperimentView>::empty(),
            r@.progress == Seq::<ProgressRecordView>::empty(),
            r.wf(),
    {
        let r = ExperimentRegistry { experiments: Vec::new(), progress: Vec::new() };
        proof {
            assert(r@.experiments =~= Seq::<ExperimentView>::empty());
            assert(r@.progress =~= Seq::<ProgressRecordView>::empty());
        }
        r
    }

    /// Registers a freshly created experiment. Creation always starts the
    /// lifecycle in `Queued` with no assignee.
    pub fn add_experiment(&mut self, e: Experiment)
        requires
            old(self).wf(),
            e@.status == Status::Queued,
            e@.assignee is None,
            forall|j: int|
                0 <= j < old(self)@.experiments.len() ==> (#[trigger] old(
                    self,
                )@.experiments[j]).name != e@.name,
        ensures
            final(self)@.experiments == old(self)@.experiments.push(e@),
            final(self)@.progress == old(self)@.progress,
            final(self).wf(),
    {
        let ghost pre = self@;
        self.experiments.push(e);
        proof {
            assert(self@.experiments =~= pre.experiments.push(e@));
            assert(self@.progress =~= pre.progress);
        }
    }

    /// Index of the experiment currently run by `agent`, if any.
    fn run_by_index(&self, agent: &String) -> (r: Option<usize>)
        ensures
            match r {
                Some(i) => spec_run_by(self@.experiments, agent@) == Some(i as int),
                None => spec_run_by(self@.experiments, agent@) is None,
            },
    {
        let ghost p = |e: ExperimentView| is_run_by(e, agent@);
        let mut i: usize = 0;
        while i < self.experiments.len()
            invariant
                i <= self.experiments.len(),
                self@.experiments.len() == self.experiments@.len(),
                forall|j: int| 0 <= j < i ==> !p(self@.experiments[j]),
                p == (|e: ExperimentView| is_run_by(e, agent@)),
            decreases self.experiments.len() - i,
        {
            let e = &self.experiments[i];
            proof {
                assert(self@.experiments[i as int] == self.experiments@[i as int]@);
            }
            let matches_agent = match e.status {
                Status::Running => match &e.assignee {
                    Some(Assignee::Agent(name)) => *name == *agent,
                    _ => false,
                },
                _ => false,
            };
            if matches_agent {
                proof {
                    assert(running_agent(e@) == Some(agent@));
                    assert(p(self@.experiments[i as int]));
                    lemma_first_where_is(self@.experiments, p, i as int);
                }
                return Some(i);
            }
            proof {
                assert(running_agent(e@) != Some(agent@));
                assert(!p(self@.experiments[i as int]));
            }
            i = i + 1;
        }
        proof {
            lemma_first_where_none(self@.experiments, p);
        }
        None
    }

    /// Index of the first `Queued` experiment, if any.
    fn first_queued_index(&self) -> (r: Option<usize>)
        ensures
            match r {
                Some(i) => spec_first_queued(self@.experiments) == Some(i as int),
                None => spec_first_queued(self@.experiments) is None,
            },
    {
        let ghost p = |e: ExperimentView| is_queued(e);
        let mut i: usize = 0;
        while i < self.experiments.len()
            invariant
                i <= self.experiments.len(),
                self@.experiments.len() == self.experiments@.len(),
                forall|j: int| 0 <= j < i ==> !p(self@.experiments[j]),
                p == (|e: ExperimentView| is_queued(e)),
            decreases self.experiments.len() - i,
        {
            let e = &self.experiments[i];
            proof {
                assert(self@.experiments[i as int] == self.experiments@[i as int]@);
            }
            let queued_here = match e.status {
                Status::Queued => true,
                _ => false,
            };
            if queued_here {
                proof {
                    assert(p(self@.experiments[i as int]));
                    lemma_first_where_is(self@.experiments, p, i as int);
                }
                return Some(i);
            }
            proof {
                assert(!p(self@.experiments[i as int]));
            }
            i = i + 1;
        }
        proof {
            lemma_first_where_none(self@.experiments, p);
        }
        None
    }

    /// Whether some agent already reported a result for `package` of the
    /// experiment named `experiment`.
    fn package_done(&self, experiment: &String, package: &String) -> (r: bool)
        ensures
            r == package_completed(self@.progress, experiment@, package@),
    {
        let mut k: usize = 0;
        while k < self.progress.len()
            invariant
                k <= self.progress.len(),
                self@.progress.len() == self.progress@.len(),
                forall|j: int|
                    0 <= j < k ==> !((#[trigger] self@.progress[j]).experiment == experiment@
                        && self@.progress[j].package == package@),
            decreases self.progress.len() - k,
        {
            let rec = &self.progress[k];
            proof {
                assert(self@.progress[k as int] == self.progress@[k as int]@);
            }
            if rec.experiment == *experiment && rec.package == *package {
                proof {
                    assert(self@.progress[k as int].experiment == experiment@);
                    assert(self@.progress[k as int].package == package@);
                }
                return true;
            }
            proof {
                assert(!(self@.progress[k as int].experiment == experiment@
                    && self@.progress[k as int].package == package@));
            }
            k = k + 1;
        }
        false
    }

    /// A copy of `e` with the packages other agents completed stripped out.
    fn stripped(&self, e: &Experiment) -> (r: Experiment)
        ensures
            r@ == strip_completed(e@, self@.progress),
    {
        let mut packages: Vec<String> = Vec::new();
        let mut i: usize = 0;
        while i < e.packages.len()
            invariant
                i <= e.packages.len(),
                e@.packages.len() == e.packages@.len(),
                packages@.map_values(|p: String| p@) =~= remaining_packages(
                    e@.packages.take(i as int),
                    self@.progress,
                    e@.name,
                ),
            decreases e.packages.len() - i,
        {
            let ghost prefix = packages@.map_values(|p: String| p@);
            let done = self.package_done(&e.name, &e.packages[i]);
            if !done {
                packages.push(e.packages[i].clone());
            }
            proof {
                assert(e@.packages.take(i + 1 as int).drop_last() =~= e@.packages.take(i as int));
                assert(e@.packages.take(i + 1 as int).last() == e@.packages[i as int]);
                assert(e@.packages[i as int] == e.packages@[i as int]@);
                if done {
                    assert(packages@.map_values(|p: String| p@) =~= prefix);
                } else {
                    assert(packages@.map_values(|p: String| p@) =~= prefix.push(
                        e@.packages[i as int],
                    ));
                }
            }
            i = i + 1;
        }
        let r = Experiment {
            name: e.name.clone(),
            status: e.status,
            assignee: match &e.assignee {
                Some(a) => Some(a.duplicate()),
                None => None,
            },
            github_issue: match &e.github_issue {
                Some(u) => Some(u.clone()),
                None => None,
            },
            packages,
        };
        proof {
            assert(e@.packages.take(e@.packages.len() as int) =~= e@.packages);
            assert(r@ =~= strip_completed(e@, self@.progress));
        }
        r
    }

    /// Atomically claims the next experiment for `agent`.
    ///
    /// Idempotent: if `agent` already runs an experiment, that experiment
    /// comes back unchanged and nothing is newly assigned. Otherwise the
    /// first `Queued` experiment, if any, is assigned to `agent` and set
    /// `Running`. The returned copy has completed packages stripped; the
    /// flag is true exactly on a new assignment.
    pub fn claim_next(&mut self, agent: &String) -> (r: (Option<Experiment>, bool))
        requires
            old(self).wf(),
        ensures
            final(self)@ == spec_claim_next(old(self)@, agent@).0,
            option_experiment_view(r.0) == spec_claim_next(old(self)@, agent@).1,
            r.1 == spec_claim_next(old(self)@, agent@).2,
            final(self).wf(),
    {
        let ghost pre = self@;
        if let Some(i) = self.run_by_index(agent) {
            proof {
                lemma_first_where_characterization(
                    self@.experiments,
                    |e: ExperimentView| is_run_by(e, agent@),
                );
                assert(self@.experiments.len() == self.experiments@.len());
                assert(self@.experiments[i as int] == self.experiments@[i as int]@);
            }
            let copy = self.stripped(&self.experiments[i]);
            return (Some(copy), false);
        }
        match self.first_queued_index() {
            Some(i) => {
                proof {
                    lemma_first_where_characterization(
                        self@.experiments,
                        |e: ExperimentView| is_queued(e),
                    );
                    assert(self@.experiments.len() == self.experiments@.len());
                }
                let picked = self.experiments.remove(i);
                let assigned = Experiment {
                    name: picked.name,
                    status: Status::Running,
                    assignee: Some(Assignee::Agent(agent.clone())),
                    github_issue: picked.github_issue,
                    packages: picked.packages,
                };
                self.experiments.insert(i, assigned);
                proof {
                    let q = spec_first_queued(pre.experiments)->Some_0;
                    let assigned_view = ExperimentView {
                        status: Status::Running,
                        assignee: Some(AssigneeView::Agent(agent@)),
                        ..pre.experiments[q]
                    };
                    assert(self@.experiments =~= pre.experiments.update(q, assigned_view));
                    assert(self@.progress =~= pre.progress);
                    assert(self@ =~= spec_claim_next(pre, agent@).0);
                    lemma_claim_preserves_wf(pre, agent@);
                }
                let copy = self.stripped(&self.experiments[i]);
                (Some(copy), true)
            },
            None => (None, false),
        }
    }

    /// Marks the experiment run by `agent` as needing a report.
    ///
    /// Returns false, leaving the registry unchanged, when no experiment is
    /// run by this agent (the ownership failure).
    pub fn complete(&mut self, agent: &String) -> (r: bool)
        requires
            old(self).wf(),
        ensures
            final(self)@ == spec_complete(old(self)@, agent@).0,
            r == spec_complete(old(self)@, agent@).1,
            final(self).wf(),
    {
        let ghost pre = self@;
        match self.run_by_index(agent) {
            Some(i) => {
                proof {
                    lemma_first_where_characterization(
                        self@.experiments,
                        |e: ExperimentView| is_run_by(e, agent@),
                    );
                    assert(self@.experiments.len() == self.experiments@.len());
                }
                let picked = self.experiments.remove(i);
                let finished = Experiment {
                    name: picked.name,
                    status: Status::NeedsReport,
                    assignee: picked.assignee,
                    github_issue: picked.github_issue,
                    packages: picked.packages,
                };
                self.experiments.insert(i, finished);
                proof {
                    let finished_view = ExperimentView {
                        status: Status::NeedsReport,
                        ..pre.experiments[i as int]
                    };
                    assert(self@.experiments =~= pre.experiments.update(
                        i as int,
                        finished_view,
                    ));
                    assert(self@.progress =~= pre.progress);
                    assert(self@ =~= spec_complete(pre, agent@).0);
                    lemma_status_update_preserves_wf(
                        pre.experiments,
                        i as int,
                        Status::NeedsReport,
                    );
                }
                true
            },
            None => false,
        }
    }

    /// Stores one progress record for the experiment run by `agent`.
    ///
    /// Returns false, leaving the registry unchanged, when no experiment is
    /// run by this agent (the ownership failure). Never changes any
    /// experiment's status or assignee.
    pub fn record_progress(&mut self, agent: &String, pd: ProgressData) -> (r: bool)
        requires
            old(self).wf(),
        ensures
            final(self)@ == spec_record_progress(old(self)@, agent@, pd@).0,
            r == spec_record_progress(old(self)@, agent@, pd@).1,
            final(self).wf(),
    {
        let ghost pre = self@;
        match self.run_by_index(agent) {
            Some(i) => {
                proof {
                    lemma_first_where_characterization(
                        self@.experiments,
                        |e: ExperimentView| is_run_by(e, agent@),
                    );
                    assert(self@.experiments.len() == self.experiments@.len());
                    assert(self@.experiments[i as int] == self.experiments@[i as int]@);
                }
                let rec = ProgressRecord {
                    experiment: self.experiments[i].name.clone(),
                    agent: agent.clone(),
                    package: pd.package,
                    data: pd.data,
                };
                self.progress.push(rec);
                proof {
                    assert(self@.experiments =~= pre.experiments);
                    assert(self@.progress =~= spec_record_progress(pre, agent@, pd@).0.progress);
                    assert(self@ =~= spec_record_progress(pre, agent@, pd@).0);
                }
                true
            },
            None => false,
        }
    }

    /// Read-only lookup of an experiment by name.
    pub fn find_experiment(&self, name: &String) -> (r: Option<&Experiment>)
        ensures
            match spec_find(self@.experiments, name@) {
                Some(i) => r is Some && r->Some_0@ == self@.experiments[i],
                None => r is None,
            },
    {
        let ghost p = |e: ExperimentView| e.name == name@;
        let mut i: usize = 0;
        while i < self.experiments.len()
            invariant
                i <= self.experiments.len(),
                self@.experiments.len() == self.experiments@.len(),
                forall|j: int| 0 <= j < i ==> !p(self@.experiments[j]),
                p == (|e: ExperimentView| e.name == name@),
            decreases self.experiments.len() - i,
        {
            if self.experiments[i].name == *name {
                proof {
                    assert(p(self@.experiments[i as int]));
                    lemma_first_where_is(self@.experiments, p, i as int);
                }
                return Some(&self.experiments[i]);
            }
            proof {
                assert(!p(self@.experiments[i as int]));
            }
            i = i + 1;
        }
        proof {
            lemma_first_where_none(self@.experiments, p);
        }
        None
    }

    /// How many progress records are stored.
    pub fn progress_count(&self) -> (r: usize)
        ensures
            r == self@.progress.len(),
    {
        self.progress.len()
    }
}

/// Assigning the first queued experiment to an agent that runs nothing
/// keeps the registry invariant.
proof fn lemma_claim_preserves_wf(s: RegistryView, agent: Seq<char>)
    requires
        wf_experiments(s.experiments),
        spec_run_by(s.experiments, agent) is None,
        spec_first_queued(s.experiments) is Some,
    ensures
        wf_experiments(spec_claim_next(s, agent).0.experiments),
{
    let q = spec_first_queued(s.experiments)->Some_0;
    lemma_first_where_characterization(s.experiments, |e: ExperimentView| is_queued(e));
    lemma_first_where_characterization(s.experiments, |e: ExperimentView| is_run_by(e, agent));
    let post = spec_claim_next(s, agent).0.experiments;
    assert forall|i: int, j: int|
        0 <= i < post.len() && 0 <= j < post.len() && i != j implies (#[trigger] post[i]).name != (
    #[trigger] post[j]).name && !(running_agent(post[i]) is Some && running_agent(post[i])
        == running_agent(post[j])) by {
        if i != q && j != q {
            assert(post[i] == s.experiments[i]);
            assert(post[j] == s.experiments[j]);
        } else if i == q {
            assert(post[j] == s.experiments[j]);
            assert(post[i].name == s.experiments[q].name);
            assert(running_agent(post[i]) == Some(agent));
            assert(!is_run_by(s.experiments[j], agent));
        } else {
            assert(post[i] == s.experiments[i]);
            assert(post[j].name == s.experiments[q].name);
            assert(running_agent(post[j]) == Some(agent));
            assert(!is_run_by(s.experiments[i], agent));
        }
    }
}

/// Moving one experiment to a non-`Running` status keeps the registry
/// invariant.
proof fn lemma_status_update_preserves_wf(exps: Seq<ExperimentView>, i: int, st: Status)
    requires
        wf_experiments(exps),
        0 <= i < exps.len(),
        st != Status::Running,
    ensures
        wf_experiments(exps.update(i, ExperimentView { status: st, ..exps[i] })),
{
    let post = exps.update(i, ExperimentView { status: st, ..exps[i] });
    assert forall|a: int, b: int|
        0 <= a < post.len() && 0 <= b < post.len() && a != b implies (#[trigger] post[a]).name != (
    #[trigger] post[b]).name && !(running_agent(post[a]) is Some && running_agent(post[a])
        == running_agent(post[b])) by {
        assert(post[a].name == exps[a].name);
        assert(post[b].name == exps[b].name);
        if a != i && b != i {
            assert(post[a] == exps[a]);
            assert(post[b] == exps[b]);
        } else if a == i {
            assert(running_agent(post[a]) is None);
            assert(post[b] == exps[b]);
        } else {
            assert(running_agent(post[b]) is None);
            assert(post[a] == exps[a]);
        }
    }
}

/// Law: claims are mutually exclusive. With exactly one `Queued` experiment
/// and two distinct agents that run nothing, two claims in either
/// serialization order hand that experiment to the first claimer alone; the
/// second claimer gets no work and changes nothing — never both.
pub proof fn lemma_claim_exclusive(s: RegistryView, a: Seq<char>, b: Seq<char>, q: int)
    requires
        wf_experiments(s.experiments),
        a != b,
        0 <= q < s.experiments.len(),
        is_queued(s.experiments[q]),
        forall|j: int|
            0 <= j < s.experiments.len() && j != q ==> !is_queued(#[trigger] s.experiments[j]),
        spec_run_by(s.experiments, a) is None,
        spec_run_by(s.experiments, b) is None,
    ensures
        ({
            let (s1, r1, new1) = spec_claim_next(s, a);
            let (s2, r2, new2) = spec_claim_next(s1, b);
            &&& r1 is Some
            &&& r1->Some_0.name == s.experiments[q].name
            &&& new1
            &&& s1.experiments[q].status == Status::Running
            &&& s1.experiments[q].assignee == Some(AssigneeView::Agent(a))
            &&& r2 is None
            &&& !new2
            &&& s2 == s1
        }),
{
    lemma_first_where_is(s.experiments, |e: ExperimentView| is_queued(e), q);
    let (s1, r1, new1) = spec_claim_next(s, a);
    assert forall|j: int| 0 <= j < s1.experiments.len() implies !is_run_by(
        #[trigger] s1.experiments[j],
        b,
    ) by {
        lemma_first_where_characterization(s.experiments, |e: ExperimentView| is_run_by(e, b));
        if j != q {
            assert(s1.experiments[j] == s.experiments[j]);
        }
    }
    lemma_first_where_none(s1.experiments, |e: ExperimentView| is_run_by(e, b));
    assert forall|j: int| 0 <= j < s1.experiments.len() implies !is_queued(
        #[trigger] s1.experiments[j],
    ) by {
        if j != q {
            assert(s1.experiments[j] == s.experiments[j]);
        }
    }
    lemma_first_where_none(s1.experiments, |e: ExperimentView| is_queued(e));
}

/// Law: a repeated claim by the agent already running an experiment is
/// idempotent redelivery. It returns that same experiment (stripped of
/// completed packages), changes no state, and is not a new assignment — so
/// it triggers no notification.
pub proof fn lemma_claim_idempotent(s: RegistryView, a: Seq<char>)
    requires
        wf_experiments(s.experiments),
        spec_run_by(s.experiments, a) is Some,
    ensures
        ({
            let i = spec_run_by(s.experiments, a)->Some_0;
            let (s1, r1, new1) = spec_claim_next(s, a);
            &&& s1 == s
            &&& r1 == Some(strip_completed(s.experiments[i], s.progress))
            &&& !new1
        }),
{
}

/// Law: completion happens exactly once. The experiment run by the agent
/// moves `Running -> NeedsReport`, every other experiment is untouched, and
/// a second completion without an intervening reassignment fails with the
/// ownership error and changes nothing.
pub proof fn lemma_complete_once(s: RegistryView, a: Seq<char>)
    requires
        wf_experiments(s.experiments),
        spec_run_by(s.experiments, a) is Some,
    ensures
        ({
            let i = spec_run_by(s.experiments, a)->Some_0;
            let (s1, ok1) = spec_complete(s, a);
            let (s2, ok2) = spec_complete(s1, a);
            &&& ok1
            &&& 0 <= i < s.experiments.len()
            &&& s1.experiments[i].status == Status::NeedsReport
            &&& s1.experiments[i].name == s.experiments[i].name
            &&& forall|j: int|
                0 <= j < s.experiments.len() && j != i ==> s1.experiments[j] == s.experiments[j]
            &&& !ok2
            &&& s2 == s1
        }),
{
    let i = spec_run_by(s.experiments, a)->Some_0;
    lemma_first_where_characterization(s.experiments, |e: ExperimentView| is_run_by(e, a));
    let (s1, ok1) = spec_complete(s, a);
    assert forall|j: int| 0 <= j < s1.experiments.len() implies !is_run_by(
        #[trigger] s1.experiments[j],
        a,
    ) by {
        if j != i {
            assert(s1.experiments[j] == s.experiments[j]);
            assert(is_run_by(s.experiments[i], a));
            assert(!(running_agent(s.experiments[i]) is Some && running_agent(s.experiments[i])
                == running_agent(s.experiments[j])));
        }
    }
    lemma_first_where_none(s1.experiments, |e: ExperimentView| is_run_by(e, a));
}

/// Law: progress is accepted from the current assignee alone. From an agent
/// with no assignment it fails with the ownership error and changes
/// nothing; from the assignee one record is appended and every experiment
/// — status, assignee, packages — is left exactly as it was.
pub proof fn lemma_progress_ownership(s: RegistryView, a: Seq<char>, pd: ProgressDataView)
    requires
        wf_experiments(s.experiments),
    ensures
        spec_run_by(s.experiments, a) is None ==> spec_record_progress(s, a, pd).0 == s
            && !spec_record_progress(s, a, pd).1,
        spec_run_by(s.experiments, a) is Some ==> ({
            let i = spec_run_by(s.experiments, a)->Some_0;
            let (s1, ok) = spec_record_progress(s, a, pd);
            &&& ok
            &&& s1.experiments == s.experiments
            &&& 0 <= i < s.experiments.len()
            &&& s1.progress == s.progress.push(
                ProgressRecordView {
                    experiment: s.experiments[i].name,
                    agent: a,
                    package: pd.package,
                    data: pd.data,
                },
            )
        }),
{
    if spec_run_by(s.experiments, a) is Some {
        lemma_first_where_characterization(s.experiments, |e: ExperimentView| is_run_by(e, a));
    }
}

/// Position of a status in the lifecycle order.
pub open spec fn status_rank(s: Status) -> int {
    match s {
        Status::Queued => 0,
        Status::Running => 1,
        Status::NeedsReport => 2,
        Status::GeneratingReport => 3,
        Status::Completed => 4,
    }
}

/// Law: the lifecycle only moves forward. Neither a claim nor a completion
/// ever moves any experiment's status backward, and progress ingestion
/// leaves every experiment exactly as it was.
pub proof fn lemma_no_backward_transitions(s: RegistryView, a: Seq<char>, pd: ProgressDataView)
    requires
        wf_experiments(s.experiments),
    ensures
        spec_claim_next(s, a).0.experiments.len() == s.experiments.len(),
        forall|j: int|
            0 <= j < s.experiments.len() ==> status_rank(
                (#[trigger] spec_claim_next(s, a).0.experiments[j]).status,
            ) >= status_rank(s.experiments[j].status),
        spec_complete(s, a).0.experiments.len() == s.experiments.len(),
        forall|j: int|
            0 <= j < s.experiments.len() ==> status_rank(
                (#[trigger] spec_complete(s, a).0.experiments[j]).status,
            ) >= status_rank(s.experiments[j].status),
        spec_record_progress(s, a, pd).0.experiments == s.experiments,
{
    if spec_run_by(s.experiments, a) is None && spec_first_queued(s.experiments) is Some {
        lemma_first_where_characterization(s.experiments, |e: ExperimentView| is_queued(e));
    }
    if spec_run_by(s.experiments, a) is Some {
        lemma_first_where_characterization(s.experiments, |e: ExperimentView| is_run_by(e, a));
    }
}

} // verus!
