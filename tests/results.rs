use benchmarks::results::aggregate_reports;
use benchmarks::results::{
    aggregate_hwpc_consumption, aggregate_hwpc_consumption_subdir, aggregate_hwpc_frequency, aggregate_hwpc_frequency_subdir,
    aggregate_perf_consumption, aggregate_perf_frequency, archive_path, checksum_path,
    next_result_step, parse_hwpc_consumption_metadata, parse_hwpc_frequency_metadata,
    parse_perf_consumption_metadata, parse_perf_frequency_metadata, process_results, retrieved,
    scan_perf_log, HwpcConsumptionRow, HwpcRowRaw, ResultError, ResultStep,
};

fn lines(text: &str) -> Vec<String> {
    text.lines().map(|l| l.to_string()).collect()
}

const TWO_BLOCKS: &str = " Performance counter stats for 'system wide':

         1,234.56 Joules power/energy-pkg/
            78.90 Joules power/energy-ram/

      10.001234567 seconds time elapsed

         2,000.00 Joules power/energy-pkg/
            80.00 Joules power/energy-ram/
            12.50 Joules power/energy-cores/

      10.5 seconds time elapsed
";

#[test]
fn perf_log_two_blocks_give_two_rows() {
    let rows = match aggregate_perf_consumption("perf_alone_4_250", &lines(TWO_BLOCKS)) {
        Ok(r) => r,
        Err(_) => panic!("name refused"),
    };
    assert_eq!(rows.len(), 2);
    assert_eq!(rows[0].nb_core, 4);
    assert_eq!(rows[0].nb_ops_per_core, 250);
    assert_eq!(rows[0].iteration, 1);
    assert_eq!(rows[1].nb_core, 4);
    assert_eq!(rows[1].nb_ops_per_core, 250);
    assert_eq!(rows[1].iteration, 2);
    assert_eq!(rows[0].power_energy_pkg.as_deref(), Some("1234.56"));
    assert_eq!(rows[0].power_energy_ram.as_deref(), Some("78.90"));
    assert_eq!(rows[0].power_energy_cores, None);
    assert_eq!(rows[0].time_elapsed.as_deref(), Some("10.001234567"));
    assert_eq!(rows[1].power_energy_pkg.as_deref(), Some("2000.00"));
    assert_eq!(rows[1].power_energy_cores.as_deref(), Some("12.50"));
    assert_eq!(rows[1].time_elapsed.as_deref(), Some("10.5"));
}

#[test]
fn perf_log_without_closing_line_gives_nothing() {
    let readings = scan_perf_log(&lines("  5.0 Joules power/energy-pkg/\n"));
    assert!(readings.is_empty());
    assert!(scan_perf_log(&vec![]).is_empty());
}

#[test]
fn perf_log_with_kind_segment() {
    let rows = match aggregate_perf_consumption("perf_and_hwpc_8_25", &lines(TWO_BLOCKS)) {
        Ok(r) => r,
        Err(_) => panic!("name refused"),
    };
    assert_eq!(rows[1].nb_core, 8);
    assert_eq!(rows[1].nb_ops_per_core, 25);
}

#[test]
fn perf_log_name_errors() {
    assert!(matches!(
        aggregate_perf_consumption("perf_alone_x_250", &lines(TWO_BLOCKS)),
        Err(ResultError::UnparsableName(_))
    ));
    assert!(matches!(
        aggregate_perf_consumption("perf_alone_3000000000_250", &lines(TWO_BLOCKS)),
        Err(ResultError::UnparsableName(_))
    ));
}

#[test]
fn perf_frequency_log() {
    let rows = match aggregate_perf_frequency("frequency_100_perf_alone_x", &lines(TWO_BLOCKS)) {
        Ok(r) => r,
        Err(_) => panic!("name refused"),
    };
    assert_eq!(rows.len(), 2);
    assert_eq!(rows[0].frequency, 100);
    assert_eq!(rows[1].iteration, 2);
}

#[test]
fn metadata_from_names() {
    assert_eq!(
        parse_perf_consumption_metadata("perf_alone_4_250"),
        Some(("4".to_string(), "250".to_string()))
    );
    assert_eq!(
        parse_perf_consumption_metadata("perf_and_hwpc_+04_250"),
        Some(("4".to_string(), "250".to_string()))
    );
    assert_eq!(parse_perf_consumption_metadata("perf_alone_4"), None);
    assert_eq!(parse_perf_consumption_metadata("perf_alone_-4_250"), None);
    assert_eq!(parse_perf_frequency_metadata("frequency_1000_perf_a_b"), Some("1000".to_string()));
    assert_eq!(parse_perf_frequency_metadata("frequency_1000_perf_a"), None);
    assert_eq!(parse_hwpc_consumption_metadata("hwpc_alone_4_250_2"), Some((4, 250, 2)));
    assert_eq!(parse_hwpc_consumption_metadata("hwpc_and_perf_4_250_2"), Some((4, 250, 2)));
    assert_eq!(parse_hwpc_consumption_metadata("hwpc_alone_-4_250_2"), Some((-4, 250, 2)));
    assert_eq!(parse_hwpc_consumption_metadata("hwpc_alone_4_250_-2"), None);
    assert_eq!(parse_hwpc_consumption_metadata("hwpc_alone_4_250"), None);
    assert_eq!(parse_hwpc_frequency_metadata("frequency_10_hwpc_a_b_7"), Some((10, 7)));
    assert_eq!(parse_hwpc_frequency_metadata("frequency_10_hwpc_7"), None);
}

fn raw(ts: i64, pkg: Option<i64>) -> HwpcRowRaw {
    HwpcRowRaw {
        timestamp: ts,
        sensor: "sensor".to_string(),
        target: "all".to_string(),
        socket: 0,
        cpu: 1,
        rapl_energy_pkg: pkg,
        rapl_energy_dram: None,
        rapl_energy_cores: Some(7),
        time_enabled: 100,
        time_running: 90,
    }
}

#[test]
fn hwpc_directory_rows_are_tagged_and_header_written_once() {
    let first = match aggregate_hwpc_consumption_subdir("hwpc_alone_4_250_2", &vec![raw(1000, Some(42))], false) {
        Ok(t) => t,
        Err(_) => panic!("name refused"),
    };
    assert!(first.with_header);
    assert_eq!(first.rows.len(), 1);
    let row = &first.rows[0];
    assert_eq!((row.nb_core, row.nb_ops_per_core, row.iteration), (4, 250, 2));
    assert_eq!(row.timestamp, 1000);
    assert_eq!(row.rapl_energy_pkg, Some(42));
    assert_eq!(row.rapl_energy_cores, Some(7));
    assert_eq!(row.sensor, "sensor");
    let second = match aggregate_hwpc_consumption_subdir("hwpc_alone_4_250_3", &vec![raw(2000, None)], true) {
        Ok(t) => t,
        Err(_) => panic!("name refused"),
    };
    assert!(!second.with_header);
    assert_eq!(second.rows[0].iteration, 3);
    assert!(matches!(
        aggregate_hwpc_consumption_subdir("hwpc_alone", &vec![], false),
        Err(ResultError::UnparsableName(_))
    ));
}

#[test]
fn hwpc_frequency_directory_rows() {
    let t = match aggregate_hwpc_frequency_subdir("frequency_10_hwpc_a_b_4", &vec![raw(1, None), raw(2, None)], false) {
        Ok(t) => t,
        Err(_) => panic!("name refused"),
    };
    assert_eq!(t.rows.len(), 2);
    assert_eq!((t.rows[1].frequency, t.rows[1].iteration, t.rows[1].timestamp), (10, 4, 2));
}

#[test]
fn raw_record_conversion_keeps_measures() {
    let row = HwpcConsumptionRow::from_raw_record(raw(5, Some(9)), 2, 25, 1);
    assert_eq!((row.timestamp, row.rapl_energy_pkg, row.time_running), (5, Some(9), 90));
    assert_eq!((row.nb_core, row.nb_ops_per_core, row.iteration), (2, 25, 1));
}

#[test]
fn corrupted_archive_is_never_aggregated() {
    assert_eq!(next_result_step(ResultStep::Transfer, true), ResultStep::VerifyChecksum);
    let s = next_result_step(ResultStep::VerifyChecksum, false);
    assert_eq!(s, ResultStep::Corrupted);
    assert!(!retrieved(s));
    assert_eq!(next_result_step(s, true), ResultStep::Corrupted);
    assert_eq!(next_result_step(ResultStep::Transfer, false), ResultStep::Corrupted);
}

#[test]
fn extraction_tries_five_then_three_segments() {
    let s = next_result_step(ResultStep::VerifyChecksum, true);
    assert_eq!(s, ResultStep::Extract(5));
    // five segments, e.g. a/b/c/d/e/rapl.csv
    assert_eq!(next_result_step(s, true), ResultStep::Aggregate);
    // three segments, e.g. a/b/c/rapl.csv
    let retry = next_result_step(s, false);
    assert_eq!(retry, ResultStep::Extract(3));
    assert_eq!(next_result_step(retry, true), ResultStep::Aggregate);
    assert_eq!(next_result_step(retry, false), ResultStep::Unextractable);
    assert!(!retrieved(ResultStep::Unextractable));
    assert!(retrieved(ResultStep::Done));
    assert_eq!(next_result_step(ResultStep::Aggregate, true), ResultStep::Done);
}

#[test]
fn archive_names() {
    assert_eq!(archive_path("results.d/lyon/taurus/taurus-1"), "results.d/lyon/taurus/taurus-1.tar.xz");
    assert_eq!(checksum_path("results.d/x"), "results.d/x.tar.xz.md5");
}

#[test]
fn results_directory_entries_are_sorted_by_kind() {
    let files: Vec<String> = [
        "perf_alone_4_250",
        "perf_alone_4_250.csv",
        "frequency_10_perf_a_b",
        "frequency_10_perf_a_b.csv",
        "frequency_2_perf_a_b",
        "notes.txt",
    ]
    .iter()
    .map(|s| s.to_string())
    .collect();
    let dirs: Vec<String> = ["hwpc_alone_4_250_1", "frequency_1000_hwpc_a_b_1", "logs"]
        .iter()
        .map(|s| s.to_string())
        .collect();
    let plan = process_results(&files, &dirs);
    assert_eq!(plan.perf_consumption_files, vec!["perf_alone_4_250".to_string()]);
    assert_eq!(plan.perf_frequency_files, vec!["frequency_10_perf_a_b".to_string()]);
    assert_eq!(plan.hwpc_consumption_dirs, vec!["hwpc_alone_4_250_1".to_string()]);
    assert_eq!(plan.hwpc_frequency_dirs, vec!["frequency_1000_hwpc_a_b_1".to_string()]);
}

#[test]
fn hwpc_directory_table_has_one_header() {
    let subdirs = vec![
        ("hwpc_alone_4_250_1".to_string(), vec![raw(1, None), raw(2, None)]),
        ("hwpc_alone_4_250_2".to_string(), vec![raw(3, Some(1))]),
    ];
    let appends = match aggregate_hwpc_consumption(&subdirs) {
        Ok(a) => a,
        Err(_) => panic!("names refused"),
    };
    assert_eq!(appends.len(), 2);
    assert!(appends[0].with_header);
    assert!(!appends[1].with_header);
    assert_eq!(appends[0].rows.len(), 2);
    assert_eq!(appends[1].rows[0].iteration, 2);
    assert_eq!(appends[1].rows[0].timestamp, 3);
    let bad = vec![("hwpc_alone_4_250_1".to_string(), vec![]), ("hwpc".to_string(), vec![])];
    assert!(matches!(
        aggregate_hwpc_consumption(&bad),
        Err(ResultError::UnparsableName(_))
    ));
    let freq = vec![("frequency_1_hwpc_a_b_9".to_string(), vec![raw(5, None)])];
    match aggregate_hwpc_frequency(&freq) {
        Ok(a) => {
            assert!(a[0].with_header);
            assert_eq!((a[0].rows[0].frequency, a[0].rows[0].iteration), (1, 9));
        }
        Err(_) => panic!("name refused"),
    }
}

#[test]
fn one_bad_report_fails_the_pass() {
    let logs = vec![("perf_alone_4_250".to_string(), lines(TWO_BLOCKS))];
    let dirs = vec![vec![("hwpc_alone_4_250_1".to_string(), vec![raw(1, None)])]];
    let tables = match aggregate_reports(&logs, &vec![], &dirs, &vec![]) {
        Ok(t) => t,
        Err(_) => panic!("valid pass refused"),
    };
    assert_eq!(tables.perf_consumption[0].len(), 2);
    assert!(tables.hwpc_consumption[0][0].with_header);
    let bad_logs = vec![
        ("perf_alone_4_250".to_string(), lines(TWO_BLOCKS)),
        ("perf_alone_x_250".to_string(), vec![]),
    ];
    assert!(matches!(
        aggregate_reports(&bad_logs, &vec![], &dirs, &vec![]),
        Err(ResultError::UnparsableName(_))
    ));
    let bad_dirs = vec![vec![("hwpc".to_string(), vec![])]];
    assert!(aggregate_reports(&logs, &vec![], &vec![], &bad_dirs).is_err());
}
