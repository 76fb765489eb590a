use benchmarks::events::{
    EventsByVendor, HwpcEvents, MicroarchitectureEvents, PerfEvents, VendorEvents,
};
use benchmarks::inventories::StrOrFloat;

fn strings(v: &[&str]) -> Vec<String> {
    v.iter().map(|s| s.to_string()).collect()
}

fn hwpc(rapl: &[&str], msr: &[&str], core: &[&str]) -> HwpcEvents {
    HwpcEvents { rapl: strings(rapl), msr: strings(msr), core: strings(core) }
}

fn catalog() -> EventsByVendor {
    EventsByVendor {
        vendors: vec![
            VendorEvents {
                name: "Intel".to_string(),
                microarchitectures: vec![MicroarchitectureEvents {
                    name: "Skylake".to_string(),
                    versions: vec![
                        StrOrFloat::Str("Gold 5118".to_string()),
                        StrOrFloat::Str("Gold 6130".to_string()),
                    ],
                    perf_specific_events: PerfEvents(strings(&["/power/energy-ram/", "/power/energy-pkg/"])),
                    hwpc_specific_events: hwpc(
                        &["RAPL_ENERGY_DRAM"],
                        &[],
                        &[
                            "CPU_CLK_THREAD_UNHALTED:REF_P",
                            "CPU_CLK_THREAD_UNHALTED:THREAD_P",
                            "LLC_MISSES",
                            "INSTRUCTIONS_RETIRED",
                        ],
                    ),
                }],
                perf_default_events: PerfEvents(strings(&["/power/energy-pkg/"])),
                hwpc_default_events: hwpc(&["RAPL_ENERGY_PKG"], &["TSC", "APERF", "MPERF"], &[]),
            },
            VendorEvents {
                name: "AMD".to_string(),
                microarchitectures: vec![MicroarchitectureEvents {
                    name: "Zen 2".to_string(),
                    versions: vec![StrOrFloat::Float(7352.0f64.to_bits())],
                    perf_specific_events: PerfEvents(vec![]),
                    hwpc_specific_events: hwpc(
                        &[],
                        &["TSC"],
                        &["CYCLES_NOT_IN_HALTS", "RETIRED_INSTRUCTIONS", "RETIRED_UOPS"],
                    ),
                }],
                perf_default_events: PerfEvents(strings(&["/power/energy-pkg/"])),
                hwpc_default_events: hwpc(&["RAPL_ENERGY_PKG"], &["TSC", "APERF", "MPERF"], &[]),
            },
        ],
    }
}

#[test]
fn test_get_events_intel() {
    let events_data = catalog();

    let vendor_name = "Intel";
    let microarchitecture_name = "Skylake";
    let version = StrOrFloat::Str("Gold 5118".to_string());

    let mut expected_perf_events = PerfEvents(vec![
        "/power/energy-pkg/".to_string(),
        "/power/energy-ram/".to_string(),
    ]);
    expected_perf_events.0.sort();

    let mut expected_hwpc_events = HwpcEvents {
        rapl: vec!["RAPL_ENERGY_PKG".to_string(), "RAPL_ENERGY_DRAM".to_string()],
        msr: vec!["TSC".to_string(), "APERF".to_string(), "MPERF".to_string()],
        core: vec![
            "CPU_CLK_THREAD_UNHALTED:REF_P".to_string(),
            "CPU_CLK_THREAD_UNHALTED:THREAD_P".to_string(),
            "LLC_MISSES".to_string(),
            "INSTRUCTIONS_RETIRED".to_string(),
        ],
    };
    expected_hwpc_events.rapl.sort();
    expected_hwpc_events.msr.sort();
    expected_hwpc_events.core.sort();

    let (mut perf_events, mut hwpc_events) =
        events_data.get_events(vendor_name, microarchitecture_name, &version);
    perf_events.0.sort();
    hwpc_events.rapl.sort();
    hwpc_events.msr.sort();
    hwpc_events.core.sort();

    assert_eq!(perf_events, expected_perf_events);
    assert_eq!(hwpc_events, expected_hwpc_events);
}

#[test]
fn test_get_events_amd() {
    let events_data = catalog();

    let vendor_name = "AMD";
    let microarchitecture_name = "Zen 2";
    let version = StrOrFloat::Float(7352.0f64.to_bits());

    let mut expected_perf_events = PerfEvents(vec!["/power/energy-pkg/".to_string()]);
    expected_perf_events.0.sort();

    let mut expected_hwpc_events = HwpcEvents {
        rapl: vec!["RAPL_ENERGY_PKG".to_string()],
        msr: vec!["TSC".to_string(), "APERF".to_string(), "MPERF".to_string()],
        core: vec![
            "CYCLES_NOT_IN_HALTS".to_string(),
            "RETIRED_INSTRUCTIONS".to_string(),
            "RETIRED_UOPS".to_string(),
        ],
    };
    expected_hwpc_events.rapl.sort();
    expected_hwpc_events.msr.sort();
    expected_hwpc_events.core.sort();

    let (mut perf_events, mut hwpc_events) =
        events_data.get_events(vendor_name, microarchitecture_name, &version);

    perf_events.0.sort();
    hwpc_events.rapl.sort();
    hwpc_events.msr.sort();
    hwpc_events.core.sort();

    assert_eq!(perf_events, expected_perf_events);
    assert_eq!(hwpc_events, expected_hwpc_events);
}

#[test]
fn test_get_events_with_nonexistent_values() {
    let events_data = catalog();

    let vendor_name = "NonexistentVendor";
    let microarchitecture_name = "NonexistentArch";
    let version = StrOrFloat::Str("nonexistent_version".to_string());

    let expected_perf_events = PerfEvents(vec![]);
    let expected_hwpc_events = HwpcEvents { rapl: vec![], msr: vec![], core: vec![] };

    let (perf_events, hwpc_events) =
        events_data.get_events(vendor_name, microarchitecture_name, &version);

    assert_eq!(perf_events, expected_perf_events);
    assert_eq!(hwpc_events, expected_hwpc_events);
}

#[test]
fn unlisted_version_gets_vendor_defaults_only() {
    let (perf, hwpc_events) =
        catalog().get_events("Intel", "Skylake", &StrOrFloat::Str("Silver 4110".to_string()));
    assert_eq!(perf.0, strings(&["/power/energy-pkg/"]));
    assert_eq!(hwpc_events.rapl, strings(&["RAPL_ENERGY_PKG"]));
    assert!(hwpc_events.core.is_empty());
}

#[test]
fn version_kinds_do_not_mix() {
    let (_, hwpc_events) =
        catalog().get_events("AMD", "Zen 2", &StrOrFloat::Str("7352".to_string()));
    assert!(hwpc_events.core.is_empty());
}

#[test]
fn perf_events_iterate_in_order() {
    let p = PerfEvents(strings(&["a", "b"]));
    let v: Vec<&String> = p.iter().collect();
    assert_eq!(v, vec!["a", "b"]);
}

#[test]
fn numeric_versions_compare_as_floats() {
    let zero = StrOrFloat::Float(0.0f64.to_bits());
    let minus_zero = StrOrFloat::Float((-0.0f64).to_bits());
    let nan = StrOrFloat::Float(f64::NAN.to_bits());
    assert!(zero.same_as(&minus_zero));
    assert!(!nan.same_as(&nan));
    assert!(StrOrFloat::Float(7352.0f64.to_bits()).same_as(&StrOrFloat::Float(7352.0f64.to_bits())));
    assert!(!StrOrFloat::Float(1.0f64.to_bits()).same_as(&StrOrFloat::Float(2.0f64.to_bits())));
}
