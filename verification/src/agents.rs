//! Per-agent liveness state: last heartbeat and last known build revision.

use vstd::prelude::*;
use crate::search::first_where;
use crate::search::lemma_first_where_is;
use crate::search::lemma_first_where_none;
use crate::search::lemma_first_where_characterization;

verus! {

/// Liveness record of one agent. It is created on the agent's first
/// heartbeat and never deleted by this subsystem.
#[derive(Debug)]
pub struct AgentRecord {
    pub name: String,
    /// Time of the last heartbeat, as handed in by the caller.
    pub last_heartbeat: u64,
    /// Build revision the agent last reported, if it ever reported one.
    pub git_revision: Option<String>,
}

#[verifier::ext_equal]
pub struct AgentRecordView {
    pub name: Seq<char>,
    pub last_heartbeat: u64,
    pub git_revision: Option<Seq<char>>,
}

impl View for AgentRecord {
    type V = AgentRecordView;

    open spec fn view(&self) -> AgentRecordView {
        AgentRecordView {
            name: self.name@,
            last_heartbeat: self.last_heartbeat,
            git_revision: match self.git_revision {
                Some(r) => Some(r@),
                None => None,
            },
        }
    }
}

pub open spec fn option_string_view(o: Option<String>) -> Option<Seq<char>> {
    match o {
        Some(s) => Some(s@),
        None => None,
    }
}

/// Index of the record for `name`, if any.
pub open spec fn spec_agent_record(records: Seq<AgentRecordView>, name: Seq<char>) -> Option<int> {
    first_where(records, |a: AgentRecordView| a.name == name)
}

/// What a heartbeat does: the timestamp is always replaced; the stored
/// revision is replaced only when one was supplied; an unknown agent gets a
/// fresh record.
pub open spec fn spec_heartbeat(
    records: Seq<AgentRecordView>,
    name: Seq<char>,
    revision: Option<Seq<char>>,
    now: u64,
) -> Seq<AgentRecordView> {
    match spec_agent_record(records, name) {
        Some(i) => records.update(
            i,
            AgentRecordView {
                name: records[i].name,
                last_heartbeat: now,
                git_revision: if revision is Some {
                    revision
                } else {
                    records[i].git_revision
                },
            },
        ),
        None => records.push(AgentRecordView { name, last_heartbeat: now, git_revision: revision }),
    }
}

/// Registry of agent liveness records, one per agent name.
pub struct AgentRegistry {
    records: Vec<AgentRecord>,
}

impl View for AgentRegistry {
    type V = Seq<AgentRecordView>;

    closed spec fn view(&self) -> Seq<AgentRecordView> {
        self.records@.map_values(|a: AgentRecord| a@)
    }
}

impl AgentRegistry {
    /// Registry invariant: one record per agent name.
    pub open spec fn wf(&self) -> bool {
        forall|i: int, j: int|
            #![trigger self@[i], self@[j]]
            0 <= i < self@.len() && 0 <= j < self@.len() && i != j ==> self@[i].name != self@[j].name
    }

    pub fn new() -> (r: AgentRegistry)
        ensures
            r@ == Seq::<AgentRecordView>::empty(),
            r.wf(),
    {
        let r = AgentRegistry { records: Vec::new() };
        proof {
            assert(r@ =~= Seq::<AgentRecordView>::empty());
        }
        r
    }

    /// Index of the record for `name`, if any.
    fn index_of(&self, name: &String) -> (r: Option<usize>)
        ensures
            match r {
                Some(i) => spec_agent_record(self@, name@) == Some(i as int) && i < self@.len(),
                None => spec_agent_record(self@, name@) is None,
            },
    {
        let ghost p = |a: AgentRecordView| a.name == name@;
        let mut i: usize = 0;
        while i < self.records.len()
            invariant
                i <= self.records.len(),
                self@.len() == self.records@.len(),
                forall|j: int| 0 <= j < i ==> !p(self@[j]),
                p == (|a: AgentRecordView| a.name == name@),
            decreases self.records.len() - i,
        {
            proof {
                assert(self@[i as int] == self.records@[i as int]@);
            }
            if self.records[i].name == *name {
                proof {
                    assert(p(self@[i as int]));
                    lemma_first_where_is(self@, p, i as int);
                }
                return Some(i);
            }
            proof {
                assert(!p(self@[i as int]));
            }
            i = i + 1;
        }
        proof {
            lemma_first_where_none(self@, p);
        }
        None
    }

    /// Records a heartbeat from `name` at time `now`, carrying a freshly
    /// reported revision or none. Always succeeds, assignment or not: the
    /// timestamp is replaced unconditionally, the stored revision only when
    /// one was supplied, and an unknown agent gets a fresh record.
    pub fn heartbeat(&mut self, name: &String, revision: Option<String>, now: u64)
        requires
            old(self).wf(),
        ensures
            final(self)@ == spec_heartbeat(old(self)@, name@, option_string_view(revision), now),
            final(self).wf(),
    {
        let ghost pre = self@;
        match self.index_of(name) {
            Some(i) => {
                let prior = self.records.remove(i);
                let updated = AgentRecord {
                    name: prior.name,
                    last_heartbeat: now,
                    git_revision: match revision {
                        Some(r) => Some(r),
                        None => prior.git_revision,
                    },
                };
                self.records.insert(i, updated);
                proof {
                    assert(self@ =~= spec_heartbeat(pre, name@, option_string_view(revision), now));
                    assert forall|a: int, b: int|
                        0 <= a < self@.len() && 0 <= b < self@.len() && a != b implies (
                    #[trigger] self@[a]).name != (#[trigger] self@[b]).name by {
                        assert(self@[a].name == pre[a].name);
                        assert(self@[b].name == pre[b].name);
                    }
                }
            },
            None => {
                let fresh = AgentRecord { name: name.clone(), last_heartbeat: now, git_revision: revision };
                self.records.push(fresh);
                proof {
                    assert(self@ =~= spec_heartbeat(pre, name@, option_string_view(revision), now));
                    lemma_first_where_characterization(pre, |a: AgentRecordView| a.name == name@);
                    assert forall|a: int, b: int|
                        0 <= a < self@.len() && 0 <= b < self@.len() && a != b implies (
                    #[trigger] self@[a]).name != (#[trigger] self@[b]).name by {
                        if a < pre.len() && b < pre.len() {
                            assert(self@[a] == pre[a]);
                            assert(self@[b] == pre[b]);
                        } else if a == pre.len() {
                            assert(self@[b] == pre[b]);
                            assert(pre[b].name != name@);
                        } else {
                            assert(self@[a] == pre[a]);
                            assert(pre[a].name != name@);
                        }
                    }
                }
            },
        }
    }

    /// Read-only lookup of the record for `name`.
    pub fn get(&self, name: &String) -> (r: Option<&AgentRecord>)
        ensures
            match spec_agent_record(self@, name@) {
                Some(i) => r is Some && r->Some_0@ == self@[i],
                None => r is None,
            },
    {
        match self.index_of(name) {
            Some(i) => {
                proof {
                    assert(self@[i as int] == self.records@[i as int]@);
                }
                Some(&self.records[i])
            },
            None => None,
        }
    }
}

} // verus!
