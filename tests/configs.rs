use benchmarks::configs::{
    build_hwpc_config, build_hwpc_system, core_values_from_draws, drawable_count,
    generate_core_values, generate_hwpc_configs,
};
use benchmarks::events::HwpcEvents;

const MAX_VALUE: u32 = 100;
const NB_VALUE: usize = 10;

#[test]
fn test_generate_core_values() {
    let values = generate_core_values(NB_VALUE, MAX_VALUE);
    assert!(values.len() > 0);
    assert!(values
        .iter()
        .all(|&v| v <= MAX_VALUE && !v.is_power_of_two()));
}

#[test]
fn test_max_is_present() {
    let values = generate_core_values(NB_VALUE, MAX_VALUE);
    assert!(values.contains(&MAX_VALUE));
}

#[test]
fn core_values_are_sorted_and_distinct() {
    for _ in 0..20 {
        let values = generate_core_values(30, 40);
        assert!(values.len() <= 31);
        assert_eq!(*values.last().unwrap(), 40);
        for w in values.windows(2) {
            assert!(w[0] < w[1]);
        }
        for v in &values[..values.len() - 1] {
            assert!(*v >= 2 && *v <= 40 && !v.is_power_of_two());
        }
    }
}

#[test]
fn core_values_with_nothing_drawable() {
    assert_eq!(generate_core_values(5, 2), vec![2]);
    assert_eq!(generate_core_values(0, 64), vec![64]);
    assert_eq!(generate_core_values(3, 0), vec![0]);
}

fn events() -> HwpcEvents {
    HwpcEvents {
        rapl: vec!["RAPL_ENERGY_PKG".to_string()],
        msr: vec!["TSC".to_string(), "APERF".to_string()],
        core: vec!["LLC_MISSES".to_string()],
    }
}

#[test]
fn hwpc_config_cgroup_follows_flavor() {
    let c = build_hwpc_config("x".to_string(), build_hwpc_system(&events()), "ubuntu2404-nfs");
    assert_eq!(c.cgroup_basepath, "/sys/fs/cgroup");
    assert_eq!(c.frequency, 1000);
    assert!(c.verbose);
    assert_eq!(c.output.kind, "csv");
    let d = build_hwpc_config("x".to_string(), build_hwpc_system(&events()), "debian11-min");
    assert_eq!(d.cgroup_basepath, "/sys/fs/cgroup/perf_event");
}

#[test]
fn hwpc_configs_are_keyed_by_core_value() {
    let configs = generate_hwpc_configs(&events(), &[3, 12, 3], "hwpc_alone", "debian11-min");
    assert_eq!(configs.len(), 2);
    assert_eq!(configs[&3].name, "hwpc_alone_sensor_3");
    assert_eq!(configs[&12].name, "hwpc_alone_sensor_12");
    assert_eq!(configs[&12].system.rapl.events, vec!["RAPL_ENERGY_PKG".to_string()]);
    assert_eq!(configs[&12].system.rapl.monitoring_type, "MONITOR_ONE_CPU_PER_SOCKET");
    assert_eq!(configs[&12].system.msr.events.len(), 2);
}

#[test]
fn core_values_follow_the_drawn_ranks() {
    // drawable up to 10: 3, 5, 6, 7, 9, 10
    assert_eq!(drawable_count(10), 6);
    assert_eq!(drawable_count(2), 0);
    assert_eq!(core_values_from_draws(&vec![4, 1, 1], 10), vec![5, 9, 10]);
    assert_eq!(core_values_from_draws(&vec![5, 0], 10), vec![3, 10]);
    assert_eq!(core_values_from_draws(&vec![], 10), vec![10]);
    assert_eq!(core_values_from_draws(&vec![99], 10), vec![10]);
    assert_eq!(core_values_from_draws(&vec![0], 8), vec![3, 8]);
}
