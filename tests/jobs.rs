use benchmarks::results::{retrieved, ResultStep};
use benchmarks::inventories::{
    Architecture, Node, OperatingSystem, Processor, StrOrFloat, SupportedJobTypes,
};
use benchmarks::jobs::{site_endpoint, Job, Jobs, Plan};
use benchmarks::scheduler::round_robin_order;
use benchmarks::state::{Action, JobError, Lifecycle, OARState, Observation};

fn node(uid: &str, vendor: &str, queues: &[&str]) -> Node {
    Node {
        uid: uid.to_string(),
        cluster: Some("taurus".to_string()),
        exotic: false,
        processor: Processor {
            cache_l1: None,
            cache_l1d: 32768,
            cache_l1i: 32768,
            cache_l2: 262144,
            cache_l3: 15728640,
            clock_speed: 2300000000,
            ht_capable: true,
            instruction_set: "x86-64".to_string(),
            microarchitecture: "Sandy Bridge".to_string(),
            microcode: None,
            model: "Intel Xeon".to_string(),
            other_description: String::new(),
            vendor: vendor.to_string(),
            version: StrOrFloat::Str("E5-2630".to_string()),
        },
        architecture: Architecture {
            cpu_core_numbering: "contiguous".to_string(),
            nb_cores: 12,
            nb_procs: 2,
            nb_threads: 24,
            platform_type: "x86_64".to_string(),
        },
        operating_system: Some(OperatingSystem {
            cstate_driver: "intel_idle".to_string(),
            cstate_governor: "menu".to_string(),
            pstate_driver: "intel_pstate".to_string(),
            pstate_governor: "performance".to_string(),
            turboboost_enabled: true,
        }),
        supported_job_types: SupportedJobTypes {
            queues: queues.iter().map(|q| q.to_string()).collect(),
        },
    }
}

fn job(id: usize, uid: &str, flavor: &str) -> Job {
    Job::new(
        id,
        node(uid, "Intel", &["default"]),
        vec![3, 6],
        "lyon".to_string(),
        "scripts.d",
        "results.d",
        flavor.to_string(),
    )
}

fn sched(s: &str) -> Observation {
    Observation::Scheduler(s.to_string())
}

#[test]
fn job_paths_follow_site_cluster_node() {
    let j = job(0, "taurus-3", "debian11-min");
    assert_eq!(j.script_file, "scripts.d/lyon/taurus/taurus-3.sh");
    assert_eq!(j.results_dir, "results.d/lyon/taurus/taurus-3");
    assert_eq!(j.state, OARState::NotSubmitted);
    assert_eq!(j.oar_job_id, None);
    assert_eq!(j.host_name(), "taurus-3.lyon.grid5000.fr");
}

#[test]
fn endpoints() {
    let mut j = job(0, "taurus-3", "debian11-min");
    assert_eq!(j.status_endpoint("https://api"), None);
    j.oar_job_id = Some(4242);
    assert_eq!(j.status_endpoint("https://api").unwrap(), "https://api/sites/lyon/jobs/4242");
    j.deployment_id = Some("D-1".to_string());
    assert_eq!(
        j.deployment_endpoint("https://api").unwrap(),
        "https://api/sites/lyon/deployments/D-1"
    );
    assert_eq!(site_endpoint("https://api", "lyon", "/jobs"), "https://api/sites/lyon/jobs");
}

#[test]
fn node_selection() {
    assert!(node("a", "Intel", &["default", "admin"]).is_to_be_deployed());
    assert!(node("a", "Cavium", &["default"]).is_to_be_deployed());
    assert!(!node("a", "Fujitsu", &["default"]).is_to_be_deployed());
    assert!(!node("a", "AMD", &["production"]).is_to_be_deployed());
}

#[test]
fn default_image_lifecycle() {
    let path = Lifecycle::DefaultImage;
    let mut j = job(0, "taurus-1", "debian11-min");
    assert_eq!(j.lifecycle("debian11-min"), path);
    assert!(j.submit_job(path, true, Some(77)).is_ok());
    assert_eq!(j.state, OARState::Waiting);
    assert_eq!(j.oar_job_id, Some(77));
    assert_eq!(j.update_job_state(path, &sched("launching")).ok(), Some(Action::Nothing));
    assert_eq!(j.state, OARState::Waiting);
    assert_eq!(j.update_job_state(path, &sched("running")).ok(), Some(Action::Nothing));
    assert_eq!(j.state, OARState::Running);
    assert_eq!(j.update_job_state(path, &sched("terminated")).ok(), Some(Action::RetrieveResults));
    assert_eq!(j.state, OARState::Terminated);
    assert!(j.job_terminated(path, true).is_ok());
    assert_eq!(j.state, OARState::Terminated);
    assert!(j.finished());
}

#[test]
fn custom_image_lifecycle() {
    let path = Lifecycle::CustomImage;
    let mut j = job(0, "taurus-1", "ubuntu2404-nfs");
    assert_eq!(j.lifecycle("debian11-min"), path);
    assert!(j.submit_job(path, true, Some(5)).is_ok());
    assert_eq!(j.state, OARState::WaitingToBeDeployed);
    assert_eq!(j.update_job_state(path, &sched("waiting")).ok(), Some(Action::Nothing));
    assert_eq!(j.state, OARState::WaitingToBeDeployed);
    assert_eq!(j.update_job_state(path, &sched("running")).ok(), Some(Action::SubmitDeployment));
    assert_eq!(j.state, OARState::Running);
    assert!(j.job_running(path, Some("D-9".to_string())).is_ok());
    assert_eq!(j.state, OARState::Processing);
    assert_eq!(j.deployment_id, Some("D-9".to_string()));
    let deployment = |s: &str| Observation::Deployment(s.to_string());
    assert_eq!(j.update_job_state(path, &deployment("processing")).ok(), Some(Action::Nothing));
    assert_eq!(j.state, OARState::Processing);
    assert_eq!(j.update_job_state(path, &deployment("terminated")).ok(), Some(Action::LaunchScript));
    assert_eq!(j.state, OARState::Deployed);
    assert!(j.job_os_deployed(path, true).is_ok());
    assert_eq!(j.state, OARState::Running);
    assert_eq!(j.update_job_state(path, &sched("error")).ok(), Some(Action::RetrieveResults));
    assert_eq!(j.state, OARState::Failed);
}

#[test]
fn failed_submission_fails_the_job() {
    let mut j = job(0, "taurus-1", "debian11-min");
    assert!(j.submit_job(Lifecycle::DefaultImage, false, None).is_ok());
    assert_eq!(j.state, OARState::Failed);
    assert!(matches!(
        j.submit_job(Lifecycle::DefaultImage, true, Some(1)),
        Err(JobError::NotApplicable(OARState::Failed))
    ));
}

#[test]
fn failed_deployment_request_fails_the_job() {
    let path = Lifecycle::CustomImage;
    let mut j = job(0, "taurus-1", "ubuntu2404-nfs");
    j.submit_job(path, true, Some(5)).ok();
    j.update_job_state(path, &sched("running")).ok();
    assert!(j.job_running(path, None).is_ok());
    assert_eq!(j.state, OARState::Failed);
    assert_eq!(j.deployment_id, None);
}

#[test]
fn unknown_status_is_an_error() {
    let mut j = job(0, "taurus-1", "debian11-min");
    j.submit_job(Lifecycle::DefaultImage, true, Some(1)).ok();
    match j.update_job_state(Lifecycle::DefaultImage, &sched("exploded")) {
        Err(JobError::UnknownState(s)) => assert_eq!(s, "exploded"),
        _ => panic!("unknown status accepted"),
    }
    assert_eq!(j.state, OARState::Waiting);
}

#[test]
fn transition_outside_the_table_is_an_error() {
    let mut j = job(0, "taurus-1", "debian11-min");
    j.submit_job(Lifecycle::DefaultImage, true, Some(1)).ok();
    j.update_job_state(Lifecycle::DefaultImage, &sched("running")).ok();
    assert!(matches!(
        j.update_job_state(Lifecycle::DefaultImage, &sched("waiting")),
        Err(JobError::IllegalTransition(OARState::Running, OARState::Waiting))
    ));
    assert_eq!(j.state, OARState::Running);
}

#[test]
fn terminal_states_do_not_move() {
    let path = Lifecycle::DefaultImage;
    let mut j = job(0, "taurus-1", "debian11-min");
    j.submit_job(path, true, Some(1)).ok();
    j.update_job_state(path, &sched("terminated")).ok();
    j.job_terminated(path, false).ok();
    assert_eq!(j.state, OARState::UnknownState);
    for s in ["running", "waiting", "terminated", "error", "bogus"] {
        assert_eq!(j.update_job_state(path, &sched(s)).ok(), Some(Action::Nothing));
        assert_eq!(j.state, OARState::UnknownState);
    }
    assert_eq!(j.update_job_state(path, &Observation::Unreachable).ok(), Some(Action::Nothing));
}

#[test]
fn unreachable_scheduler_fails_the_job() {
    let path = Lifecycle::DefaultImage;
    let mut j = job(0, "taurus-1", "debian11-min");
    j.submit_job(path, true, Some(1)).ok();
    assert_eq!(j.update_job_state(path, &Observation::Unreachable).ok(), Some(Action::RetrieveResults));
    assert_eq!(j.state, OARState::Failed);
}

#[test]
fn state_names_and_statuses() {
    assert_eq!(OARState::WaitingToBeDeployed.to_str(), "WaitingToBeDeployed");
    assert!(OARState::UnknownState.is_terminal());
    assert!(!OARState::Finishing.is_terminal());
    assert!(matches!(OARState::from_status("error"), Ok(OARState::Failed)));
    assert!(matches!(OARState::from_status("hold"), Ok(OARState::Hold)));
    assert!(matches!(OARState::from_status("Running"), Err(JobError::UnknownState(_))));
}

#[test]
fn ceiling_bounds_ongoing_jobs() {
    let mut jobs = Jobs::new();
    for i in 0..20 {
        let mut j = job(i, &format!("node-{}", i), "debian11-min");
        j.submit_job(Lifecycle::DefaultImage, true, Some(i as u64)).ok();
        assert!(jobs.push_job(j, 20));
    }
    assert_eq!(jobs.nb_ongoing_jobs(), 20);
    assert_eq!(jobs.plan("node-20", 20), Plan::Wait);
    let mut extra = job(20, "node-20", "debian11-min");
    extra.submit_job(Lifecycle::DefaultImage, true, Some(99)).ok();
    assert!(!jobs.push_job(extra, 20));
    assert_eq!(jobs.jobs.len(), 20);
    // one job ends: room for one more
    jobs.poll_job(3, Lifecycle::DefaultImage, &sched("terminated")).ok();
    jobs.settle_job(3, Lifecycle::DefaultImage, true, None).ok();
    assert_eq!(jobs.nb_ongoing_jobs(), 19);
    assert_eq!(jobs.plan("node-20", 20), Plan::Submit);
    let mut extra = job(20, "node-20", "debian11-min");
    extra.submit_job(Lifecycle::DefaultImage, true, Some(99)).ok();
    assert!(jobs.push_job(extra, 20));
    assert_eq!(jobs.nb_ongoing_jobs(), 20);
    assert!(!jobs.job_is_done());
    assert_eq!(jobs.unfinished_indices().len(), 20);
}

#[test]
fn one_job_per_node() {
    let mut jobs = Jobs::new();
    assert!(jobs.push_job(job(0, "taurus-1", "debian11-min"), 20));
    assert!(jobs.job_planned_on_node("taurus-1"));
    assert!(!jobs.job_planned_on_node("taurus-2"));
    assert_eq!(jobs.plan("taurus-1", 20), Plan::Skip);
    assert!(!jobs.push_job(job(1, "taurus-1", "debian11-min"), 20));
    assert!(!jobs.push_job(job(5, "taurus-2", "debian11-min"), 20));
    assert!(jobs.push_job(job(1, "taurus-2", "debian11-min"), 20));
    assert_eq!(jobs.jobs.len(), 2);
}

#[test]
fn checkpoint_restore_keeps_the_collection() {
    let mut a = job(0, "taurus-1", "debian11-min");
    a.submit_job(Lifecycle::DefaultImage, true, Some(10)).ok();
    let b = job(1, "taurus-2", "debian11-min");
    let restored = match Jobs::restore(vec![a, b]) {
        Ok(j) => j,
        Err(_) => panic!("valid collection refused"),
    };
    assert_eq!(restored.jobs.len(), 2);
    assert_eq!(restored.jobs[0].id, 0);
    assert_eq!(restored.jobs[0].state, OARState::Waiting);
    assert_eq!(restored.jobs[1].node.uid, "taurus-2");
    // after a restart the known nodes are skipped
    assert_eq!(restored.plan("taurus-1", 20), Plan::Skip);
    assert_eq!(restored.plan("taurus-3", 20), Plan::Submit);
    assert!(matches!(
        Jobs::restore(vec![job(0, "taurus-1", "x"), job(1, "taurus-1", "x")]),
        Err(JobError::InvalidCollection)
    ));
    assert!(matches!(Jobs::restore(vec![job(1, "taurus-1", "x")]), Err(JobError::InvalidCollection)));
}

#[test]
fn corrupted_results_mark_the_job_unknown() {
    let mut jobs = Jobs::new();
    let mut j = job(0, "taurus-1", "debian11-min");
    j.submit_job(Lifecycle::DefaultImage, true, Some(1)).ok();
    jobs.push_job(j, 20);
    assert_eq!(
        jobs.poll_job(0, Lifecycle::DefaultImage, &sched("terminated")).ok(),
        Some(Action::RetrieveResults)
    );
    assert!(jobs.settle_job(0, Lifecycle::DefaultImage, false, None).is_ok());
    assert_eq!(jobs.jobs[0].state, OARState::UnknownState);
    assert!(jobs.job_is_done());
    assert_eq!(jobs.nb_ongoing_jobs(), 0);
}

#[test]
fn update_node_takes_the_matching_descriptor() {
    let mut j = job(0, "taurus-2", "debian11-min");
    let mut fresh = node("taurus-2", "Intel", &["default"]);
    fresh.architecture.nb_cores = 16;
    assert!(j.update_node(vec![node("taurus-1", "AMD", &[]), fresh]));
    assert_eq!(j.node.architecture.nb_cores, 16);
    assert!(!j.update_node(vec![node("taurus-9", "AMD", &[])]));
    assert_eq!(j.node.architecture.nb_cores, 16);
}

#[test]
fn round_robin_draws_by_index_then_cluster() {
    assert_eq!(
        round_robin_order(&vec![3, 1, 2]),
        vec![(0, 0), (1, 0), (2, 0), (0, 1), (2, 1), (0, 2)]
    );
    assert_eq!(round_robin_order(&vec![]), vec![]);
    assert_eq!(round_robin_order(&vec![0, 2]), vec![(1, 0), (1, 1)]);
}

#[test]
fn unextractable_archive_marks_the_job_unknown() {
    let mut jobs = Jobs::new();
    let mut j = job(0, "taurus-1", "debian11-min");
    j.submit_job(Lifecycle::DefaultImage, true, Some(1)).ok();
    jobs.push_job(j, 20);
    jobs.poll_job(0, Lifecycle::DefaultImage, &sched("terminated")).ok();
    assert!(jobs
        .settle_job(0, Lifecycle::DefaultImage, retrieved(ResultStep::Unextractable), None)
        .is_ok());
    assert_eq!(jobs.jobs[0].state, OARState::UnknownState);
}

#[test]
fn transitions_keep_the_job_record() {
    let path = Lifecycle::CustomImage;
    let mut j = job(0, "taurus-1", "ubuntu2404-nfs");
    j.submit_job(path, true, Some(5)).ok();
    j.update_job_state(path, &sched("running")).ok();
    j.job_running(path, Some("D-1".to_string())).ok();
    assert!(j.polls_deployer());
    j.update_job_state(path, &Observation::Deployment("terminated".to_string())).ok();
    j.job_os_deployed(path, false).ok();
    assert_eq!(j.state, OARState::Failed);
    assert!(!j.polls_deployer());
    assert_eq!(j.core_values, vec![3, 6]);
    assert_eq!(j.site, "lyon");
    assert_eq!(j.os_flavor, "ubuntu2404-nfs");
    assert_eq!(j.script_file, "scripts.d/lyon/taurus/taurus-1.sh");
    assert_eq!(j.results_dir, "results.d/lyon/taurus/taurus-1");
}
