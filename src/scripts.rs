//! The values that the benchmark script of a job is generated from.
use crate::configs::HwpcConfig;
use crate::events::PerfEvents;
use std::collections::HashMap;
use vstd::prelude::*;

verus! {

/// Walltime requested for each job.
pub const WALLTIME: &'static str = "4:00:00";

/// Queue each job is submitted to.
pub const QUEUE_TYPE: &'static str = "default";

/// Times each benchmark is repeated.
pub const NB_ITERATIONS: usize = 10;

/// Where the HWPC sensor lives on the node.
pub const HWPC_HOME_DIRECTORY: &'static str = "/app";

pub enum ScriptError {
    /// The script file could not be written.
    Fs(String),
    /// A sensor configuration could not be produced.
    Config(String),
}

/// Operations per core that each benchmark runs with.
pub fn cpu_ops_per_core_list() -> (r: Vec<u32>)
    ensures
        r@ == seq![25u32, 250, 2_500, 25_000],
{
    let mut r: Vec<u32> = Vec::new();
    r.push(25);
    r.push(250);
    r.push(2_500);
    r.push(25_000);
    r
}

/// Everything the benchmark script of one node is rendered from.
pub struct BenchmarkTemplate {
    pub nb_iterations: usize,
    pub perf_alone: bool,
    pub hwpc_alone: bool,
    pub hwpc_and_perf: bool,
    pub docker_hub_username: String,
    pub docker_hub_token: String,
    pub hwpc_alone_configs: HashMap<u32, HwpcConfig>,
    pub hwpc_and_perf_configs: HashMap<u32, HwpcConfig>,
    pub hwpc_home_directory: String,
    pub queue_type: String,
    pub node_uid: String,
    pub walltime: String,
    pub exotic_node: bool,
    pub results_directory: String,
    pub core_values: Vec<u32>,
    pub perf_events: PerfEvents,
    pub cpu_ops_per_core_list: Vec<u32>,
}

impl BenchmarkTemplate {
    /// Gathers the values; a missing HWPC home directory becomes empty.
    pub fn new(
        nb_iterations: usize,
        perf_alone: bool,
        hwpc_alone: bool,
        hwpc_and_perf: bool,
        docker_hub_username: String,
        docker_hub_token: String,
        hwpc_alone_configs: HashMap<u32, HwpcConfig>,
        hwpc_and_perf_configs: HashMap<u32, HwpcConfig>,
        hwpc_home_directory: Option<String>,
        queue_type: String,
        node_uid: String,
        walltime: String,
        exotic_node: bool,
        results_directory: String,
        core_values: Vec<u32>,
        perf_events: PerfEvents,
        cpu_ops_per_core_list: &[u32],
    ) -> (r: Self)
        ensures
            r.nb_iterations == nb_iterations,
            r.perf_alone == perf_alone,
            r.hwpc_alone == hwpc_alone,
            r.hwpc_and_perf == hwpc_and_perf,
            r.docker_hub_username == docker_hub_username,
            r.docker_hub_token == docker_hub_token,
            r.hwpc_alone_configs == hwpc_alone_configs,
            r.hwpc_and_perf_configs == hwpc_and_perf_configs,
            r.hwpc_home_directory@ == (match hwpc_home_directory {
                Some(d) => d@,
                None => Seq::<char>::empty(),
            }),
            r.queue_type == queue_type,
            r.node_uid == node_uid,
            r.walltime == walltime,
            r.exotic_node == exotic_node,
            r.results_directory == results_directory,
            r.core_values == core_values,
            r.perf_events == perf_events,
            r.cpu_ops_per_core_list@ == cpu_ops_per_core_list@,
    {
        let home = match hwpc_home_directory {
            Some(d) => d,
            None => String::new(),
        };
        let mut ops: Vec<u32> = Vec::new();
        let mut i: usize = 0;
        while i < cpu_ops_per_core_list.len()
            invariant
                i <= cpu_ops_per_core_list@.len(),
                ops@ == cpu_ops_per_core_list@.subrange(0, i as int),
            decreases cpu_ops_per_core_list@.len() - i,
        {
            ops.push(cpu_ops_per_core_list[i]);
            i = i + 1;
            assert(ops@ =~= cpu_ops_per_core_list@.subrange(0, i as int));
        }
        assert(cpu_ops_per_core_list@.subrange(0, cpu_ops_per_core_list@.len() as int)
            =~= cpu_ops_per_core_list@);
        BenchmarkTemplate {
            nb_iterations,
            perf_alone,
            hwpc_alone,
            hwpc_and_perf,
            docker_hub_username,
            docker_hub_token,
            hwpc_alone_configs,
            hwpc_and_perf_configs,
            hwpc_home_directory: home,
            queue_type,
            node_uid,
            walltime,
            exotic_node,
            results_directory,
            core_values,
            perf_events,
            cpu_ops_per_core_list: ops,
        }
    }
}

} // verus!
