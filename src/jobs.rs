//! Jobs, one per benchmarked node, and the collection that the scheduler
//! grows and persists.
use crate::inventories::Node;
use crate::state::{
    action_on_entry, decide, decision, entry_action, is_terminal_state, settle, settled,
    submitted, Action, Decision, JobError, Lifecycle, OARState, Observation,
};
use crate::text::{decimal, decimal_string, str_eq};
use vstd::prelude::*;
use vstd::string::StringExecFns;

verus! {

pub struct Job {
    pub id: usize,
    pub node: Node,
    pub oar_job_id: Option<u64>,
    pub state: OARState,
    pub core_values: Vec<u32>,
    pub script_file: String,
    pub results_dir: String,
    pub site: String,
    pub deployment_id: Option<String>,
    pub os_flavor: String,
}

/// `<root>/<site>/<cluster>/<node>`
pub open spec fn node_path(root: Seq<char>, site: Seq<char>, cluster: Seq<char>, uid: Seq<char>) -> Seq<
    char,
> {
    root + "/"@ + site + "/"@ + cluster + "/"@ + uid
}

fn join_node_path(root: &str, site: &str, cluster: &str, uid: &str) -> (r: String)
    ensures
        r@ == node_path(root@, site@, cluster@, uid@),
{
    let mut s = root.to_owned();
    s.append("/");
    s.append(site);
    s.append("/");
    s.append(cluster);
    s.append("/");
    s.append(uid);
    s
}

impl Job {
    /// The path of the node's generated script: `<root>/<site>/<cluster>/<node>.sh`.
    pub fn build_script_file_path(node: &Node, site: &str, root_scripts_dir: &str) -> (r: String)
        requires
            node.cluster is Some,
        ensures
            r@ == node_path(root_scripts_dir@, site@, node.cluster->0@, node.uid@) + ".sh"@,
    {
        let cluster = match &node.cluster {
            Some(c) => c.as_str(),
            None => "",
        };
        let mut s = join_node_path(root_scripts_dir, site, cluster, node.uid.as_str());
        s.append(".sh");
        s
    }

    /// The node's results directory: `<root>/<site>/<cluster>/<node>`.
    pub fn build_results_dir_path(node: &Node, site: &str, root_results_dir: &str) -> (r: String)
        requires
            node.cluster is Some,
        ensures
            r@ == node_path(root_results_dir@, site@, node.cluster->0@, node.uid@),
    {
        let cluster = match &node.cluster {
            Some(c) => c.as_str(),
            None => "",
        };
        join_node_path(root_results_dir, site, cluster, node.uid.as_str())
    }

    /// A job that has not been submitted yet, for a node whose cluster is known.
    pub fn new(
        id: usize,
        node: Node,
        core_values: Vec<u32>,
        site: String,
        root_scripts_dir: &str,
        root_results_dir: &str,
        os_flavor: String,
    ) -> (r: Job)
        requires
            node.cluster is Some,
        ensures
            r.id == id,
            r.node == node,
            r.oar_job_id is None,
            r.state == OARState::NotSubmitted,
            r.core_values == core_values,
            r.script_file@ == node_path(root_scripts_dir@, site@, node.cluster->0@, node.uid@)
                + ".sh"@,
            r.results_dir@ == node_path(root_results_dir@, site@, node.cluster->0@, node.uid@),
            r.site == site,
            r.deployment_id is None,
            r.os_flavor == os_flavor,
    {
        let script_file = Job::build_script_file_path(&node, site.as_str(), root_scripts_dir);
        let results_dir = Job::build_results_dir_path(&node, site.as_str(), root_results_dir);
        Job {
            id,
            node,
            oar_job_id: None,
            state: OARState::NotSubmitted,
            core_values,
            script_file,
            results_dir,
            site,
            deployment_id: None,
            os_flavor,
        }
    }

    /// `self` is `before` with at most its state, its scheduler id and its
    /// deployment id changed: the node binding, the core values, the paths,
    /// the site and the OS flavor stay.
    pub open spec fn keeps_record(self, before: Job) -> bool {
        &&& self.id == before.id
        &&& self.node == before.node
        &&& self.core_values == before.core_values
        &&& self.script_file == before.script_file
        &&& self.results_dir == before.results_dir
        &&& self.site == before.site
        &&& self.os_flavor == before.os_flavor
    }

    pub open spec fn is_finished(&self) -> bool {
        is_terminal_state(self.state)
    }

    pub fn finished(&self) -> (r: bool)
        ensures
            r == self.is_finished(),
    {
        self.state.is_terminal()
    }

    /// The lifecycle the job follows: the default one when it asked for the
    /// default OS image.
    pub fn lifecycle(&self, default_os_flavor: &str) -> (r: Lifecycle)
        ensures
            r == (if self.os_flavor@ == default_os_flavor@ {
                Lifecycle::DefaultImage
            } else {
                Lifecycle::CustomImage
            }),
    {
        if str_eq(self.os_flavor.as_str(), default_os_flavor) {
            Lifecycle::DefaultImage
        } else {
            Lifecycle::CustomImage
        }
    }

    /// Records how submission went: accepted (with the scheduler's id for the
    /// job, if it gave one) or not. Only a job not yet submitted can be.
    pub fn submit_job(&mut self, path: Lifecycle, accepted: bool, oar_job_id: Option<u64>) -> (r:
        Result<(), JobError>)
        ensures
            old(self).state == OARState::NotSubmitted ==> r is Ok && final(self).state == submitted(
                path,
                accepted,
            ) && final(self).oar_job_id == (if accepted {
                oar_job_id
            } else {
                old(self).oar_job_id
            }),
            old(self).state != OARState::NotSubmitted ==> (r matches Err(JobError::NotApplicable(s))
                && s == old(self).state) && final(self).oar_job_id == old(self).oar_job_id
                && final(self).state == old(self).state,
            final(self).keeps_record(*old(self)),
            final(self).deployment_id == old(self).deployment_id,
    {
        if self.state != OARState::NotSubmitted {
            return Err(JobError::NotApplicable(self.state));
        }
        if accepted {
            self.oar_job_id = oar_job_id;
            self.state = match path {
                Lifecycle::DefaultImage => OARState::Waiting,
                Lifecycle::CustomImage => OARState::WaitingToBeDeployed,
            };
        } else {
            self.state = OARState::Failed;
        }
        Ok(())
    }

    /// Enters `new_state` and tells which action its entry calls for.
    pub fn state_transition(&mut self, path: Lifecycle, new_state: OARState) -> (r: Action)
        ensures
            final(self).state == new_state,
            r == entry_action(path, new_state),
            final(self).keeps_record(*old(self)),
            final(self).oar_job_id == old(self).oar_job_id,
            final(self).deployment_id == old(self).deployment_id,
    {
        self.state = new_state;
        action_on_entry(path, new_state)
    }

    /// Applies a status poll: the job enters the state that `decision` gives,
    /// if any, and the action its entry calls for is returned.
    pub fn update_job_state(&mut self, path: Lifecycle, obs: &Observation) -> (r: Result<
        Action,
        JobError,
    >)
        ensures
            match decision(path, old(self).state, *obs) {
                Decision::Enter(t) => final(self).state == t && r == Ok::<Action, JobError>(
                    entry_action(path, t),
                ),
                Decision::Stay => *final(self) == *old(self) && r == Ok::<Action, JobError>(
                    Action::Nothing,
                ),
                Decision::Unrecognized => *final(self) == *old(self) && (*obs matches Observation::Scheduler(s)
                    && r matches Err(JobError::UnknownState(u)) && u@ == s@),
                Decision::Illegal(t) => *final(self) == *old(self) && (r matches Err(
                    JobError::IllegalTransition(a, b),
                ) && a == old(self).state && b == t),
            },
            final(self).keeps_record(*old(self)),
            final(self).oar_job_id == old(self).oar_job_id,
            final(self).deployment_id == old(self).deployment_id,
    {
        match decide(path, self.state, obs) {
            Ok(Some(t)) => Ok(self.state_transition(path, t)),
            Ok(None) => Ok(Action::Nothing),
            Err(e) => Err(e),
        }
    }

    /// Settles a job that entered `Running` after its deployment request:
    /// the deployer's id for it, or `None` when the request failed.
    pub fn job_running(&mut self, path: Lifecycle, deployment_id: Option<String>) -> (r: Result<
        (),
        JobError,
    >)
        ensures
            old(self).state == OARState::Running ==> r is Ok && final(self).state == settled(
                path,
                OARState::Running,
                deployment_id is Some,
            ) && final(self).deployment_id == (if path == Lifecycle::CustomImage
                && deployment_id is Some {
                deployment_id
            } else {
                old(self).deployment_id
            }),
            old(self).state != OARState::Running ==> r is Err && final(self).state == old(
                self,
            ).state && final(self).deployment_id == old(self).deployment_id,
            final(self).keeps_record(*old(self)),
            final(self).oar_job_id == old(self).oar_job_id,
    {
        if self.state != OARState::Running {
            return Err(JobError::NotApplicable(self.state));
        }
        let ok = deployment_id.is_some();
        if path == Lifecycle::CustomImage && ok {
            self.deployment_id = deployment_id;
        }
        self.state = settle(path, OARState::Running, ok);
        Ok(())
    }

    /// Settles a job that entered `Deployed`: the launch of its script went
    /// through, or not.
    pub fn job_os_deployed(&mut self, path: Lifecycle, launched: bool) -> (r: Result<(), JobError>)
        ensures
            old(self).state == OARState::Deployed ==> r is Ok && final(self).state == settled(
                path,
                OARState::Deployed,
                launched,
            ),
            old(self).state != OARState::Deployed ==> r is Err && final(self).state == old(
                self,
            ).state,
            final(self).keeps_record(*old(self)),
            final(self).oar_job_id == old(self).oar_job_id,
            final(self).deployment_id == old(self).deployment_id,
    {
        if self.state != OARState::Deployed {
            return Err(JobError::NotApplicable(self.state));
        }
        self.state = settle(path, OARState::Deployed, launched);
        Ok(())
    }

    /// Settles a job that ended: its results were fetched and verified, or not.
    pub fn job_terminated(&mut self, path: Lifecycle, retrieved: bool) -> (r: Result<(), JobError>)
        ensures
            (old(self).state == OARState::Terminated || old(self).state == OARState::Failed)
                ==> r is Ok && final(self).state == settled(path, old(self).state, retrieved),
            !(old(self).state == OARState::Terminated || old(self).state == OARState::Failed)
                ==> r is Err && final(self).state == old(self).state,
            final(self).keeps_record(*old(self)),
            final(self).oar_job_id == old(self).oar_job_id,
            final(self).deployment_id == old(self).deployment_id,
    {
        if !(self.state == OARState::Terminated || self.state == OARState::Failed) {
            return Err(JobError::NotApplicable(self.state));
        }
        self.state = settle(path, self.state, retrieved);
        Ok(())
    }
}

impl Job {
    /// Whether a poll of the job asks the deployer (while its node is being
    /// deployed) rather than the batch scheduler.
    pub fn polls_deployer(&self) -> (r: bool)
        ensures
            r == (self.state == OARState::Processing),
    {
        self.state == OARState::Processing
    }

    /// The node's host name within its site: `<node>.<site>.grid5000.fr`.
    pub fn host_name(&self) -> (r: String)
        ensures
            r@ == self.node.uid@ + "."@ + self.site@ + ".grid5000.fr"@,
    {
        let mut s = self.node.uid.clone();
        s.append(".");
        s.append(self.site.as_str());
        s.append(".grid5000.fr");
        s
    }

    /// The scheduler endpoint for this job's status: `<base>/sites/<site>/jobs/<id>`.
    pub fn status_endpoint(&self, base_url: &str) -> (r: Option<String>)
        ensures
            match self.oar_job_id {
                Some(id) => r matches Some(e) && e@ == base_url@ + "/sites/"@ + self.site@ + "/jobs/"@
                    + decimal(id as nat),
                None => r is None,
            },
    {
        match self.oar_job_id {
            Some(id) => {
                let mut s = base_url.to_owned();
                s.append("/sites/");
                s.append(self.site.as_str());
                s.append("/jobs/");
                let digits = decimal_string(id);
                s.append(digits.as_str());
                Some(s)
            },
            None => None,
        }
    }

    /// The deployer endpoint for this job's deployment:
    /// `<base>/sites/<site>/deployments/<id>`.
    pub fn deployment_endpoint(&self, base_url: &str) -> (r: Option<String>)
        ensures
            match self.deployment_id {
                Some(id) => r matches Some(e) && e@ == base_url@ + "/sites/"@ + self.site@
                    + "/deployments/"@ + id@,
                None => r is None,
            },
    {
        match &self.deployment_id {
            Some(id) => {
                let mut s = base_url.to_owned();
                s.append("/sites/");
                s.append(self.site.as_str());
                s.append("/deployments/");
                s.append(id.as_str());
                Some(s)
            },
            None => None,
        }
    }

    /// Takes the fresh descriptor of the job's node from a catalog listing:
    /// the first one with the same id. Without one the node stays as it was.
    pub fn update_node(&mut self, nodes: Vec<Node>) -> (r: bool)
        ensures
            r == exists|i: int| 0 <= i < nodes@.len() && #[trigger] nodes@[i].uid@ == old(self).node.uid@,
            r ==> exists|i: int|
                0 <= i < nodes@.len() && final(self).node == #[trigger] nodes@[i] && nodes@[i].uid@
                    == old(self).node.uid@ && forall|k: int|
                    0 <= k < i ==> nodes@[k].uid@ != old(self).node.uid@,
            !r ==> final(self).node == old(self).node,
            final(self).id == old(self).id,
            final(self).state == old(self).state,
            final(self).oar_job_id == old(self).oar_job_id,
            final(self).deployment_id == old(self).deployment_id,
            final(self).core_values == old(self).core_values,
            final(self).script_file == old(self).script_file,
            final(self).results_dir == old(self).results_dir,
            final(self).site == old(self).site,
            final(self).os_flavor == old(self).os_flavor,
    {
        let ghost all = nodes@;
        let mut i: usize = 0;
        while i < nodes.len()
            invariant
                i <= nodes@.len(),
                nodes@ == all,
                *self == *old(self),
                forall|k: int| 0 <= k < i ==> #[trigger] all[k].uid@ != self.node.uid@,
            decreases nodes@.len() - i,
        {
            if str_eq(nodes[i].uid.as_str(), self.node.uid.as_str()) {
                proof {
                    assert(nodes@[i as int].uid@ == old(self).node.uid@);
                }
                let mut pool = nodes;
                let fresh = pool.swap_remove(i);
                proof {
                    assert(fresh == all[i as int]);
                }
                self.node = fresh;
                return true;
            }
            i = i + 1;
        }
        false
    }
}

/// Base of the remote services' endpoints for a site: `<base>/sites/<site>`.
pub fn site_endpoint(base_url: &str, site: &str, tail: &str) -> (r: String)
    ensures
        r@ == base_url@ + "/sites/"@ + site@ + tail@,
{
    let mut s = base_url.to_owned();
    s.append("/sites/");
    s.append(site);
    s.append(tail);
    s
}

/// Number of jobs in `s` that are not in a terminal state.
pub open spec fn ongoing_count(s: Seq<Job>) -> nat
    decreases s.len(),
{
    if s.len() == 0 {
        0
    } else {
        ongoing_count(s.drop_last()) + if is_terminal_state(s.last().state) {
            0nat
        } else {
            1nat
        }
    }
}

proof fn lemma_ongoing_update(s: Seq<Job>, i: int, j: Job)
    requires
        0 <= i < s.len(),
        is_terminal_state(s[i].state) ==> is_terminal_state(j.state),
    ensures
        ongoing_count(s.update(i, j)) <= ongoing_count(s),
    decreases s.len(),
{
    if i == s.len() - 1 {
        assert(s.update(i, j).drop_last() =~= s.drop_last());
    } else {
        lemma_ongoing_update(s.drop_last(), i, j);
        assert(s.update(i, j).drop_last() =~= s.drop_last().update(i, j));
    }
}

/// What the scheduler does with a node drawn in its round-robin pass.
#[derive(Debug, Clone, Copy, PartialEq, Eq, Structural)]
pub enum Plan {
    /// A job already exists for the node.
    Skip,
    /// Too many jobs are ongoing: poll them before submitting more.
    Wait,
    /// Create and submit a job for the node.
    Submit,
}

/// The ordered collection of all jobs of a run, the unit of persistence.
pub struct Jobs {
    pub jobs: Vec<Job>,
}

impl Jobs {
    /// Job ids are the positions of the jobs, so they are unique and follow
    /// creation order; no two jobs share a node.
    pub open spec fn wf(&self) -> bool {
        &&& forall|i: int| 0 <= i < self.jobs@.len() ==> #[trigger] self.jobs@[i].id == i
        &&& forall|i: int, j: int|
            0 <= i < j < self.jobs@.len() ==> #[trigger] self.jobs@[i].node.uid@
                != #[trigger] self.jobs@[j].node.uid@
    }

    pub open spec fn planned(&self, uid: Seq<char>) -> bool {
        exists|i: int| 0 <= i < self.jobs@.len() && #[trigger] self.jobs@[i].node.uid@ == uid
    }

    pub open spec fn ongoing(&self) -> nat {
        ongoing_count(self.jobs@)
    }

    pub open spec fn done(&self) -> bool {
        forall|i: int| 0 <= i < self.jobs@.len() ==> #[trigger] self.jobs@[i].is_finished()
    }

    pub fn new() -> (r: Jobs)
        ensures
            r.jobs@.len() == 0,
            r.wf(),
    {
        Jobs { jobs: Vec::new() }
    }

    /// Takes back the jobs of a checkpoint, provided they form a valid collection.
    pub fn restore(jobs: Vec<Job>) -> (r: Result<Jobs, JobError>)
        ensures
            (Jobs { jobs }).wf() ==> (r matches Ok(j) && j.jobs == jobs),
            !(Jobs { jobs }).wf() ==> r matches Err(JobError::InvalidCollection),
    {
        let mut i: usize = 0;
        while i < jobs.len()
            invariant
                i <= jobs.len(),
                forall|k: int| 0 <= k < i ==> #[trigger] jobs@[k].id == k,
                forall|k: int, l: int|
                    0 <= k < l < i ==> #[trigger] jobs@[k].node.uid@ != #[trigger] jobs@[l].node.uid@,
            decreases jobs.len() - i,
        {
            if jobs[i].id != i {
                return Err(JobError::InvalidCollection);
            }
            let mut k: usize = 0;
            while k < i
                invariant
                    k <= i < jobs.len(),
                    forall|m: int| 0 <= m < k ==> #[trigger] jobs@[m].node.uid@ != jobs@[i as int].node.uid@,
                decreases i - k,
            {
                if str_eq(jobs[k].node.uid.as_str(), jobs[i].node.uid.as_str()) {
                    return Err(JobError::InvalidCollection);
                }
                k = k + 1;
            }
            i = i + 1;
        }
        Ok(Jobs { jobs })
    }

    pub fn job_planned_on_node(&self, searched_node_uid: &str) -> (r: bool)
        ensures
            r == self.planned(searched_node_uid@),
    {
        let mut i: usize = 0;
        while i < self.jobs.len()
            invariant
                i <= self.jobs.len(),
                forall|k: int| 0 <= k < i ==> #[trigger] self.jobs@[k].node.uid@ != searched_node_uid@,
            decreases self.jobs.len() - i,
        {
            if str_eq(self.jobs[i].node.uid.as_str(), searched_node_uid) {
                return true;
            }
            i = i + 1;
        }
        false
    }

    /// Positions of the jobs not in a terminal state, in order: those a
    /// polling pass visits.
    pub fn unfinished_indices(&self) -> (r: Vec<usize>)
        ensures
            forall|k: int| 0 <= k < r@.len() ==> (#[trigger] r@[k] as int) < self.jobs@.len(),
            forall|k: int| 0 <= k < r@.len() ==> !self.jobs@[#[trigger] r@[k] as int].is_finished(),
            forall|i: int|
                0 <= i < self.jobs@.len() && !(#[trigger] self.jobs@[i]).is_finished() ==> r@.contains(
                    i as usize,
                ),
            forall|k: int, l: int| 0 <= k < l < r@.len() ==> #[trigger] r@[k] < #[trigger] r@[l],
    {
        let mut r: Vec<usize> = Vec::new();
        let mut i: usize = 0;
        while i < self.jobs.len()
            invariant
                i <= self.jobs@.len(),
                forall|k: int| 0 <= k < r@.len() ==> #[trigger] r@[k] < i,
                forall|k: int| 0 <= k < r@.len() ==> !self.jobs@[#[trigger] r@[k] as int].is_finished(),
                forall|j: int|
                    0 <= j < i && !(#[trigger] self.jobs@[j]).is_finished() ==> r@.contains(j as usize),
                forall|k: int, l: int| 0 <= k < l < r@.len() ==> #[trigger] r@[k] < #[trigger] r@[l],
            decreases self.jobs@.len() - i,
        {
            if !self.jobs[i].finished() {
                let ghost before = r@;
                r.push(i);
                proof {
                    assert forall|k: int| 0 <= k < r@.len() implies #[trigger] r@[k] < i + 1 by {
                        if k < before.len() {
                            assert(r@[k] == before[k]);
                        }
                    }
                    assert forall|k: int| 0 <= k < r@.len() implies !self.jobs@[#[trigger] r@[k] as int].is_finished() by {
                        if k < before.len() {
                            assert(r@[k] == before[k]);
                        }
                    }
                    assert forall|k: int, l: int| 0 <= k < l < r@.len() implies #[trigger] r@[k] < #[trigger] r@[l] by {
                        if l < before.len() {
                            assert(r@[k] == before[k] && r@[l] == before[l]);
                        } else {
                            assert(r@[k] == before[k]);
                        }
                    }
                    assert forall|j: int|
                        0 <= j < i + 1 && !(#[trigger] self.jobs@[j]).is_finished() implies r@.contains(
                            j as usize,
                        ) by {
                        if j < i {
                            let k = choose|k: int| 0 <= k < before.len() && before[k] == j as usize;
                            assert(r@[k] == j as usize);
                        } else {
                            assert(r@[before.len() as int] == j as usize);
                        }
                    }
                }
            }
            i = i + 1;
        }
        r
    }

    pub fn job_is_done(&self) -> (r: bool)
        ensures
            r == self.done(),
    {
        let mut i: usize = 0;
        while i < self.jobs.len()
            invariant
                i <= self.jobs.len(),
                forall|k: int| 0 <= k < i ==> #[trigger] self.jobs@[k].is_finished(),
            decreases self.jobs.len() - i,
        {
            if !self.jobs[i].finished() {
                return false;
            }
            i = i + 1;
        }
        true
    }

    pub fn nb_ongoing_jobs(&self) -> (r: usize)
        ensures
            r == self.ongoing(),
    {
        let mut n: usize = 0;
        let mut i: usize = 0;
        while i < self.jobs.len()
            invariant
                i <= self.jobs.len(),
                n == ongoing_count(self.jobs@.subrange(0, i as int)),
                n <= i,
            decreases self.jobs.len() - i,
        {
            proof {
                assert(self.jobs@.subrange(0, i + 1).drop_last() =~= self.jobs@.subrange(0, i as int));
            }
            if !self.jobs[i].finished() {
                n = n + 1;
            }
            i = i + 1;
        }
        proof {
            assert(self.jobs@.subrange(0, self.jobs@.len() as int) =~= self.jobs@);
        }
        n
    }

    /// What to do with a drawn node: skip it when a job exists for it, wait
    /// while `ceiling` jobs or more are ongoing, else submit.
    pub fn plan(&self, node_uid: &str, ceiling: usize) -> (r: Plan)
        ensures
            self.planned(node_uid@) ==> r == Plan::Skip,
            !self.planned(node_uid@) && self.ongoing() >= ceiling ==> r == Plan::Wait,
            !self.planned(node_uid@) && self.ongoing() < ceiling ==> r == Plan::Submit,
    {
        if self.job_planned_on_node(node_uid) {
            Plan::Skip
        } else if self.nb_ongoing_jobs() >= ceiling {
            Plan::Wait
        } else {
            Plan::Submit
        }
    }

    /// Appends a job. It is refused unless its id is the next one, no job
    /// exists for its node, and, if it is ongoing, fewer than `ceiling` jobs are.
    pub fn push_job(&mut self, job: Job, ceiling: usize) -> (r: bool)
        requires
            old(self).wf(),
        ensures
            r == (job.id == old(self).jobs@.len() && !old(self).planned(job.node.uid@) && (
            job.is_finished() || old(self).ongoing() < ceiling)),
            r ==> final(self).jobs@ == old(self).jobs@.push(job),
            !r ==> final(self).jobs@ == old(self).jobs@,
            final(self).wf(),
            old(self).ongoing() <= ceiling ==> final(self).ongoing() <= ceiling,
    {
        if job.id != self.jobs.len() || self.job_planned_on_node(job.node.uid.as_str()) {
            return false;
        }
        if !job.finished() && self.nb_ongoing_jobs() >= ceiling {
            return false;
        }
        let ghost before = self.jobs@;
        self.jobs.push(job);
        proof {
            assert(self.jobs@.drop_last() =~= before);
            assert forall|i: int, j: int|
                0 <= i < j < self.jobs@.len() implies #[trigger] self.jobs@[i].node.uid@
                != #[trigger] self.jobs@[j].node.uid@ by {
                if j == before.len() {
                    assert(before[i] == self.jobs@[i]);
                }
            }
        }
        true
    }

    /// Applies a status poll to the job at `index`, as `Job::update_job_state` does.
    pub fn poll_job(&mut self, index: usize, path: Lifecycle, obs: &Observation) -> (r: Result<
        Action,
        JobError,
    >)
        requires
            old(self).wf(),
            index < old(self).jobs@.len(),
        ensures
            final(self).wf(),
            final(self).jobs@.len() == old(self).jobs@.len(),
            forall|k: int|
                0 <= k < old(self).jobs@.len() && k != index ==> #[trigger] final(self).jobs@[k]
                    == old(self).jobs@[k],
            match decision(path, old(self).jobs@[index as int].state, *obs) {
                Decision::Enter(t) => final(self).jobs@[index as int].state == t && r == Ok::<
                    Action,
                    JobError,
                >(entry_action(path, t)),
                Decision::Stay => final(self).jobs@[index as int] == old(self).jobs@[index as int]
                    && r == Ok::<Action, JobError>(Action::Nothing),
                Decision::Unrecognized => final(self).jobs@[index as int] == old(self).jobs@[index as int]
                    && (*obs matches Observation::Scheduler(s) && r matches Err(JobError::UnknownState(u))
                    && u@ == s@),
                Decision::Illegal(t) => final(self).jobs@[index as int] == old(self).jobs@[index as int]
                    && (r matches Err(JobError::IllegalTransition(a, b)) && a == old(self).jobs@[index as int].state
                    && b == t),
            },
            final(self).jobs@[index as int].keeps_record(old(self).jobs@[index as int]),
            final(self).jobs@[index as int].oar_job_id == old(self).jobs@[index as int].oar_job_id,
            final(self).jobs@[index as int].deployment_id == old(self).jobs@[index as int].deployment_id,
            final(self).ongoing() <= old(self).ongoing(),
    {
        let ghost before = self.jobs@;
        let mut job = self.jobs.remove(index);
        let r = job.update_job_state(path, obs);
        proof {
            if is_terminal_state(before[index as int].state) {
                assert(decision(path, before[index as int].state, *obs) == Decision::Stay);
            }
            lemma_ongoing_update(before, index as int, job);
        }
        self.jobs.insert(index, job);
        proof {
            assert(self.jobs@ =~= before.update(index as int, job));
        }
        r
    }

    /// Settles the job at `index` after the action that entering its state
    /// called for: for a deployment request, by the deployer's id (`None` when
    /// the request failed); for a launch or a retrieval, by `ok`.
    pub fn settle_job(
        &mut self,
        index: usize,
        path: Lifecycle,
        ok: bool,
        deployment_id: Option<String>,
    ) -> (r: Result<(), JobError>)
        requires
            old(self).wf(),
            index < old(self).jobs@.len(),
        ensures
            final(self).wf(),
            final(self).jobs@.len() == old(self).jobs@.len(),
            forall|k: int|
                0 <= k < old(self).jobs@.len() && k != index ==> #[trigger] final(self).jobs@[k]
                    == old(self).jobs@[k],
            ({
                let s = old(self).jobs@[index as int].state;
                let a = entry_action(path, s);
                let succeeded = if a == Action::SubmitDeployment {
                    deployment_id is Some
                } else {
                    ok
                };
                if a == Action::Nothing {
                    r is Err && final(self).jobs@[index as int] == old(self).jobs@[index as int]
                } else {
                    r is Ok && final(self).jobs@[index as int].state == settled(path, s, succeeded)
                }
            }),
            final(self).jobs@[index as int].keeps_record(old(self).jobs@[index as int]),
            final(self).jobs@[index as int].oar_job_id == old(self).jobs@[index as int].oar_job_id,
            final(self).jobs@[index as int].deployment_id == (if entry_action(
                path,
                old(self).jobs@[index as int].state,
            ) == Action::SubmitDeployment && path == Lifecycle::CustomImage && deployment_id is Some {
                deployment_id
            } else {
                old(self).jobs@[index as int].deployment_id
            }),
            final(self).ongoing() <= old(self).ongoing(),
    {
        let ghost before = self.jobs@;
        let mut job = self.jobs.remove(index);
        let r = match action_on_entry(path, job.state) {
            Action::SubmitDeployment => job.job_running(path, deployment_id),
            Action::LaunchScript => job.job_os_deployed(path, ok),
            Action::RetrieveResults => job.job_terminated(path, ok),
            Action::Nothing => Err(JobError::NotApplicable(job.state)),
        };
        proof {
            lemma_ongoing_update(before, index as int, job);
        }
        self.jobs.insert(index, job);
        proof {
            assert(self.jobs@ =~= before.update(index as int, job));
        }
        r
    }
}

/// The state a job is in after a status poll and the action its entry calls
/// for.
pub open spec fn after_poll(path: Lifecycle, from: OARState, obs: Observation, ok: bool) -> OARState {
    match decision(path, from, obs) {
        Decision::Enter(t) => settled(path, t, ok),
        _ => from,
    }
}

/// Polling a job never makes more jobs ongoing: a job in a terminal state
/// stays there, so the count of ongoing jobs stays within the ceiling.
pub proof fn lemma_polling_keeps_ceiling(
    jobs: Seq<Job>,
    i: int,
    path: Lifecycle,
    obs: Observation,
    ok: bool,
    ceiling: nat,
)
    requires
        0 <= i < jobs.len(),
        ongoing_count(jobs) <= ceiling,
    ensures
        ongoing_count(
            jobs.update(i, Job { state: after_poll(path, jobs[i].state, obs, ok), ..jobs[i] }),
        ) <= ceiling,
{
    let j = Job { state: after_poll(path, jobs[i].state, obs, ok), ..jobs[i] };
    lemma_ongoing_update(jobs, i, j);
}

/// Adding a job when fewer than `ceiling` jobs are ongoing keeps the count of
/// ongoing jobs within the ceiling.
pub proof fn lemma_submission_keeps_ceiling(jobs: Seq<Job>, job: Job, ceiling: nat)
    requires
        ongoing_count(jobs) < ceiling || (ongoing_count(jobs) <= ceiling && job.is_finished()),
    ensures
        ongoing_count(jobs.push(job)) <= ceiling,
{
    assert(jobs.push(job).drop_last() =~= jobs);
}

/// No two jobs of a valid collection are bound to the same node.
pub proof fn lemma_one_job_per_node(jobs: Jobs, i: int, j: int)
    requires
        jobs.wf(),
        0 <= i < jobs.jobs@.len(),
        0 <= j < jobs.jobs@.len(),
        i != j,
    ensures
        jobs.jobs@[i].node.uid@ != jobs.jobs@[j].node.uid@,
{
    if i > j {
        assert(jobs.jobs@[j].node.uid@ != jobs.jobs@[i].node.uid@);
    }
}

} // verus!
