//! The job lifecycle: states, the status strings of the remote services, and
//! the transition table that governs how a job's state may change.
use crate::text::str_eq;
use vstd::prelude::*;

verus! {

#[derive(Debug, Clone, Copy, PartialEq, Eq, Structural)]
pub enum OARState {
    NotSubmitted,
    Hold,
    Waiting,
    Running,
    Terminated,
    Finishing,
    Failed,
    UnknownState,
    Processing,
    Deployed,
    WaitingToBeDeployed,
}

/// Which of the two lifecycle shapes a job follows, by the OS image it asked for.
#[derive(Debug, Clone, Copy, PartialEq, Eq, Structural)]
pub enum Lifecycle {
    /// The node keeps its default image: the script is queued at submission.
    DefaultImage,
    /// The node is re-imaged first: deployment, then an explicit launch.
    CustomImage,
}

/// What a status poll of a job brought back.
pub enum Observation {
    /// The state string that the batch scheduler reports for the job.
    Scheduler(String),
    /// The status string that the deployer reports for the job's deployment.
    Deployment(String),
    /// The status query failed.
    Unreachable,
}

/// The side effect that runs on entering a state.
#[derive(Debug, Clone, Copy, PartialEq, Eq, Structural)]
pub enum Action {
    Nothing,
    /// Ask the deployer to re-image the node.
    SubmitDeployment,
    /// Start the benchmark script on the node, without waiting for it.
    LaunchScript,
    /// Fetch, verify, extract and aggregate the job's results.
    RetrieveResults,
}

pub enum JobError {
    /// A status string outside the known set.
    UnknownState(String),
    /// A change of state that the job's lifecycle does not allow.
    IllegalTransition(OARState, OARState),
    /// A job was asked to do what its current state does not allow.
    NotApplicable(OARState),
    /// A collection of jobs read back breaks the collection's invariants.
    InvalidCollection,
}

/// The outcome of a status poll, before any side effect.
#[derive(PartialEq, Eq, Structural)]
pub enum Decision {
    Stay,
    Enter(OARState),
    Unrecognized,
    Illegal(OARState),
}

pub open spec fn is_terminal_state(s: OARState) -> bool {
    s == OARState::Terminated || s == OARState::Failed || s == OARState::UnknownState
}

/// The allow-list of status strings, and the state each one names.
pub open spec fn status_state(s: Seq<char>) -> Option<OARState> {
    if s == "running"@ {
        Some(OARState::Running)
    } else if s == "error"@ {
        Some(OARState::Failed)
    } else if s == "waiting"@ {
        Some(OARState::Waiting)
    } else if s == "terminated"@ {
        Some(OARState::Terminated)
    } else if s == "hold"@ {
        Some(OARState::Hold)
    } else if s == "finishing"@ {
        Some(OARState::Finishing)
    } else if s == "not_submitted"@ {
        Some(OARState::NotSubmitted)
    } else if s == "processing"@ {
        Some(OARState::Processing)
    } else if s == "deployed"@ {
        Some(OARState::Deployed)
    } else if s == "waiting_to_be_deployed"@ {
        Some(OARState::WaitingToBeDeployed)
    } else {
        None
    }
}

/// The transition table: the states that a job of lifecycle `path` in state
/// `from` may be in after one transition, its entry action included.
pub open spec fn edge(path: Lifecycle, from: OARState, to: OARState) -> bool {
    let ended = is_terminal_state(to);
    match path {
        Lifecycle::DefaultImage => match from {
            OARState::NotSubmitted => to == OARState::Waiting || to == OARState::Failed,
            OARState::Waiting => to == OARState::Hold || to == OARState::Running || to
                == OARState::Finishing || ended,
            OARState::Hold => to == OARState::Waiting || to == OARState::Running || to
                == OARState::Finishing || ended,
            OARState::Running => to == OARState::Finishing || ended,
            OARState::Finishing => ended,
            _ => false,
        },
        Lifecycle::CustomImage => match from {
            OARState::NotSubmitted => to == OARState::WaitingToBeDeployed || to
                == OARState::Failed,
            OARState::WaitingToBeDeployed => to == OARState::Hold || to == OARState::Processing
                || to == OARState::Finishing || ended,
            OARState::Hold => to == OARState::WaitingToBeDeployed || to == OARState::Processing
                || to == OARState::Finishing || ended,
            OARState::Processing => to == OARState::Running || ended,
            OARState::Running => to == OARState::Finishing || ended,
            OARState::Finishing => ended,
            _ => false,
        },
    }
}

/// The state that an observation points a job to; `None` for a status string
/// outside the allow-list. The deployer's status matters only to a job whose
/// node is being deployed.
pub open spec fn target(path: Lifecycle, from: OARState, obs: Observation) -> Option<OARState> {
    match obs {
        Observation::Unreachable => Some(OARState::Failed),
        Observation::Deployment(s) => if from != OARState::Processing {
            Some(from)
        } else if s@ == "terminated"@ {
            Some(OARState::Deployed)
        } else if s@ == "processing"@ {
            Some(OARState::Processing)
        } else {
            Some(OARState::Failed)
        },
        Observation::Scheduler(s) => if s@ == "launching"@ || s@ == "to_launch"@ {
            Some(from)
        } else if s@ == "waiting"@ && (from == OARState::WaitingToBeDeployed || path
            == Lifecycle::CustomImage) {
            Some(OARState::WaitingToBeDeployed)
        } else {
            status_state(s@)
        },
    }
}

/// The action that entering `to` triggers.
pub open spec fn entry_action(path: Lifecycle, to: OARState) -> Action {
    match to {
        OARState::Running => if path == Lifecycle::CustomImage {
            Action::SubmitDeployment
        } else {
            Action::Nothing
        },
        OARState::Deployed => Action::LaunchScript,
        OARState::Terminated | OARState::Failed => Action::RetrieveResults,
        _ => Action::Nothing,
    }
}

/// The state a job settles in after entering `to` and running its entry
/// action, which succeeded or not.
pub open spec fn settled(path: Lifecycle, to: OARState, ok: bool) -> OARState {
    match entry_action(path, to) {
        Action::SubmitDeployment => if ok {
            OARState::Processing
        } else {
            OARState::Failed
        },
        Action::LaunchScript => if ok {
            OARState::Running
        } else {
            OARState::Failed
        },
        Action::RetrieveResults => if ok {
            to
        } else {
            OARState::UnknownState
        },
        Action::Nothing => to,
    }
}

/// Entering `to` from `from` is allowed whatever its entry action gives.
pub open spec fn may_enter(path: Lifecycle, from: OARState, to: OARState) -> bool {
    edge(path, from, settled(path, to, true)) && edge(path, from, settled(path, to, false))
}

/// What a status poll decides for a job of lifecycle `path` in state `from`.
pub open spec fn decision(path: Lifecycle, from: OARState, obs: Observation) -> Decision {
    if is_terminal_state(from) {
        Decision::Stay
    } else {
        match target(path, from, obs) {
            None => Decision::Unrecognized,
            Some(t) => if t == from {
                Decision::Stay
            } else if may_enter(path, from, t) {
                Decision::Enter(t)
            } else {
                Decision::Illegal(t)
            },
        }
    }
}

/// The state right after submission: queued, or failed.
pub open spec fn submitted(path: Lifecycle, accepted: bool) -> OARState {
    if !accepted {
        OARState::Failed
    } else if path == Lifecycle::DefaultImage {
        OARState::Waiting
    } else {
        OARState::WaitingToBeDeployed
    }
}

impl OARState {
    pub open spec fn name(self) -> &'static str {
        match self {
            OARState::NotSubmitted => "NotSubmitted",
            OARState::Hold => "Hold",
            OARState::Waiting => "Waiting",
            OARState::Running => "Running",
            OARState::Terminated => "Terminated",
            OARState::Finishing => "Finishing",
            OARState::Failed => "Failed",
            OARState::UnknownState => "UnknownState",
            OARState::Processing => "Processing",
            OARState::Deployed => "Deployed",
            OARState::WaitingToBeDeployed => "WaitingToBeDeployed",
        }
    }

    /// The state's name, for display.
    pub fn to_str(&self) -> (r: &'static str)
        ensures
            r == self.name(),
    {
        match self {
            OARState::NotSubmitted => "NotSubmitted",
            OARState::Hold => "Hold",
            OARState::Waiting => "Waiting",
            OARState::Running => "Running",
            OARState::Terminated => "Terminated",
            OARState::Finishing => "Finishing",
            OARState::Failed => "Failed",
            OARState::UnknownState => "UnknownState",
            OARState::Processing => "Processing",
            OARState::Deployed => "Deployed",
            OARState::WaitingToBeDeployed => "WaitingToBeDeployed",
        }
    }

    pub fn is_terminal(&self) -> (r: bool)
        ensures
            r == is_terminal_state(*self),
    {
        *self == OARState::Terminated || *self == OARState::Failed || *self
            == OARState::UnknownState
    }

    /// The state that a status string names; an unknown string is an error.
    pub fn from_status(s: &str) -> (r: Result<OARState, JobError>)
        ensures
            match status_state(s@) {
                Some(t) => r == Ok::<OARState, JobError>(t),
                None => r matches Err(JobError::UnknownState(u)) && u@ == s@,
            },
    {
        if str_eq(s, "running") {
            Ok(OARState::Running)
        } else if str_eq(s, "error") {
            Ok(OARState::Failed)
        } else if str_eq(s, "waiting") {
            Ok(OARState::Waiting)
        } else if str_eq(s, "terminated") {
            Ok(OARState::Terminated)
        } else if str_eq(s, "hold") {
            Ok(OARState::Hold)
        } else if str_eq(s, "finishing") {
            Ok(OARState::Finishing)
        } else if str_eq(s, "not_submitted") {
            Ok(OARState::NotSubmitted)
        } else if str_eq(s, "processing") {
            Ok(OARState::Processing)
        } else if str_eq(s, "deployed") {
            Ok(OARState::Deployed)
        } else if str_eq(s, "waiting_to_be_deployed") {
            Ok(OARState::WaitingToBeDeployed)
        } else {
            Err(JobError::UnknownState(s.to_owned()))
        }
    }
}

pub fn action_on_entry(path: Lifecycle, to: OARState) -> (r: Action)
    ensures
        r == entry_action(path, to),
{
    match to {
        OARState::Running => if path == Lifecycle::CustomImage {
            Action::SubmitDeployment
        } else {
            Action::Nothing
        },
        OARState::Deployed => Action::LaunchScript,
        OARState::Terminated | OARState::Failed => Action::RetrieveResults,
        _ => Action::Nothing,
    }
}

pub fn settle(path: Lifecycle, to: OARState, ok: bool) -> (r: OARState)
    ensures
        r == settled(path, to, ok),
{
    match action_on_entry(path, to) {
        Action::SubmitDeployment => if ok {
            OARState::Processing
        } else {
            OARState::Failed
        },
        Action::LaunchScript => if ok {
            OARState::Running
        } else {
            OARState::Failed
        },
        Action::RetrieveResults => if ok {
            to
        } else {
            OARState::UnknownState
        },
        Action::Nothing => to,
    }
}

pub fn is_edge(path: Lifecycle, from: OARState, to: OARState) -> (r: bool)
    ensures
        r == edge(path, from, to),
{
    let ended = to.is_terminal();
    match path {
        Lifecycle::DefaultImage => match from {
            OARState::NotSubmitted => to == OARState::Waiting || to == OARState::Failed,
            OARState::Waiting => to == OARState::Hold || to == OARState::Running || to
                == OARState::Finishing || ended,
            OARState::Hold => to == OARState::Waiting || to == OARState::Running || to
                == OARState::Finishing || ended,
            OARState::Running => to == OARState::Finishing || ended,
            OARState::Finishing => ended,
            _ => false,
        },
        Lifecycle::CustomImage => match from {
            OARState::NotSubmitted => to == OARState::WaitingToBeDeployed || to
                == OARState::Failed,
            OARState::WaitingToBeDeployed => to == OARState::Hold || to == OARState::Processing
                || to == OARState::Finishing || ended,
            OARState::Hold => to == OARState::WaitingToBeDeployed || to == OARState::Processing
                || to == OARState::Finishing || ended,
            OARState::Processing => to == OARState::Running || ended,
            OARState::Running => to == OARState::Finishing || ended,
            OARState::Finishing => ended,
            _ => false,
        },
    }
}

fn observed_target(path: Lifecycle, from: OARState, obs: &Observation) -> (r: Result<
    OARState,
    JobError,
>)
    ensures
        match target(path, from, *obs) {
            Some(t) => r == Ok::<OARState, JobError>(t),
            None => r is Err,
        },
        target(path, from, *obs) is None ==> (*obs matches Observation::Scheduler(s) && r matches Err(
            JobError::UnknownState(u),
        ) && u@ == s@),
{
    match obs {
        Observation::Unreachable => Ok(OARState::Failed),
        Observation::Deployment(s) => if from != OARState::Processing {
            Ok(from)
        } else if str_eq(s.as_str(), "terminated") {
            Ok(OARState::Deployed)
        } else if str_eq(s.as_str(), "processing") {
            Ok(OARState::Processing)
        } else {
            Ok(OARState::Failed)
        },
        Observation::Scheduler(s) => if str_eq(s.as_str(), "launching") || str_eq(
            s.as_str(),
            "to_launch",
        ) {
            Ok(from)
        } else if str_eq(s.as_str(), "waiting") && (from == OARState::WaitingToBeDeployed || path
            == Lifecycle::CustomImage) {
            Ok(OARState::WaitingToBeDeployed)
        } else {
            OARState::from_status(s.as_str())
        },
    }
}

/// Decides what a status poll does to a job of lifecycle `path` in state
/// `from`: `Ok(None)` when the state stays, `Ok(Some(t))` when the job enters
/// `t`; an unknown status string and a change that the table forbids are errors.
pub fn decide(path: Lifecycle, from: OARState, obs: &Observation) -> (r: Result<
    Option<OARState>,
    JobError,
>)
    ensures
        match decision(path, from, *obs) {
            Decision::Stay => r == Ok::<Option<OARState>, JobError>(None),
            Decision::Enter(t) => r == Ok::<Option<OARState>, JobError>(Some(t)),
            Decision::Unrecognized => *obs matches Observation::Scheduler(s) && r matches Err(
                JobError::UnknownState(u),
            ) && u@ == s@,
            Decision::Illegal(t) => r matches Err(JobError::IllegalTransition(a, b)) && a == from
                && b == t,
        },
{
    if from.is_terminal() {
        return Ok(None);
    }
    match observed_target(path, from, obs) {
        Err(e) => Err(e),
        Ok(t) => {
            if t == from {
                Ok(None)
            } else if is_edge(path, from, settle(path, t, true)) && is_edge(
                path,
                from,
                settle(path, t, false),
            ) {
                Ok(Some(t))
            } else {
                Err(JobError::IllegalTransition(from, t))
            }
        },
    }
}

/// Every change of state that a status poll and the outcome of the action it
/// triggers bring about follows the transition table of the job's lifecycle,
/// and a job in a terminal state never changes state.
pub proof fn lemma_transitions_follow_table(
    path: Lifecycle,
    from: OARState,
    obs: Observation,
    ok: bool,
)
    ensures
        is_terminal_state(from) ==> decision(path, from, obs) == Decision::Stay,
        decision(path, from, obs) matches Decision::Enter(t) ==> edge(
            path,
            from,
            settled(path, t, ok),
        ),
{
}

/// Submission moves a new job along the first edge of its lifecycle.
pub proof fn lemma_submission_follows_table(path: Lifecycle, accepted: bool)
    ensures
        edge(path, OARState::NotSubmitted, submitted(path, accepted)),
{
}

/// Terminal states have no outgoing edge in the table.
pub proof fn lemma_terminal_states_have_no_edge(path: Lifecycle, from: OARState, to: OARState)
    requires
        is_terminal_state(from),
    ensures
        !edge(path, from, to),
{
}

} // verus!
