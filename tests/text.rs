use benchmarks::scripts::{cpu_ops_per_core_list, BenchmarkTemplate, NB_ITERATIONS, WALLTIME};
use benchmarks::events::PerfEvents;
use benchmarks::submission::{job_id_from_capture, oarsub_job_id};
use benchmarks::text::{
    contains, decimal_string, ends_with, first_word, parse_i32, parse_u32, parse_usize, split_char, starts_with,
    strip_commas,
};
use benchmarks::window::{parse_walltime, within_time_window};
use std::collections::HashMap;

#[test]
fn decimal_numbers() {
    assert_eq!(parse_u32("4294967295"), Some(u32::MAX));
    assert_eq!(parse_u32("4294967296"), None);
    assert_eq!(parse_u32("+7"), Some(7));
    assert_eq!(parse_u32(""), None);
    assert_eq!(parse_u32("+"), None);
    assert_eq!(parse_u32("1a"), None);
    assert_eq!(parse_i32("-2147483648"), Some(i32::MIN));
    assert_eq!(parse_i32("-2147483649"), None);
    assert_eq!(parse_i32("-"), None);
    assert_eq!(parse_usize("007"), Some(7));
    assert_eq!(decimal_string(0), "0");
    assert_eq!(decimal_string(1200), "1200");
    assert_eq!(strip_commas("1,234,567.8"), "1234567.8");
}

#[test]
fn splitting() {
    assert_eq!(split_char("a_b__c", '_'), vec!["a", "b", "", "c"]);
    assert_eq!(split_char("", '_'), vec![""]);
    assert_eq!(split_char("_", '_'), vec!["", ""]);
}

#[test]
fn submit_output_gives_job_id() {
    let out = "[ADMISSION RULE] Modify resource description\nOAR_JOB_ID=1934567\n";
    assert_eq!(oarsub_job_id(true, out), Some(1934567));
    assert_eq!(oarsub_job_id(false, out), None);
    assert_eq!(oarsub_job_id(true, "no id here"), None);
    assert_eq!(oarsub_job_id(true, "OAR_JOB_ID=99999999999"), None);
    assert_eq!(job_id_from_capture(&Some("12".to_string())), Some(12));
    assert_eq!(job_id_from_capture(&None), None);
}

#[test]
fn walltimes() {
    assert_eq!(parse_walltime(WALLTIME), Some(4 * 3600));
    assert_eq!(parse_walltime("2"), Some(7200));
    assert_eq!(parse_walltime("1:30"), Some(5400));
    assert_eq!(parse_walltime("0:0:45"), Some(45));
    assert_eq!(parse_walltime("1:2:3:4"), None);
    assert_eq!(parse_walltime("x"), None);
    assert_eq!(parse_walltime("99999999999999999"), None);
}

#[test]
fn day_window() {
    // 10h + 4h = 14h: stays within the day
    assert!(within_time_window(10, "4:00:00"));
    // 17h + 4h = 21h: straddles the evening boundary
    assert!(!within_time_window(17, "4:00:00"));
    // night to night
    assert!(within_time_window(21, "1:00:00"));
    assert!(within_time_window(2, "4:00:00"));
    assert!(within_time_window(22, "8:00:00"));
    // night into day
    assert!(!within_time_window(7, "4:00:00"));
}

#[test]
fn benchmark_template_values() {
    let t = BenchmarkTemplate::new(
        NB_ITERATIONS,
        true,
        true,
        false,
        "user".to_string(),
        "token".to_string(),
        HashMap::new(),
        HashMap::new(),
        None,
        "default".to_string(),
        "taurus-1".to_string(),
        WALLTIME.to_string(),
        false,
        "results.d/x".to_string(),
        vec![3, 5],
        PerfEvents(vec![]),
        &cpu_ops_per_core_list(),
    );
    assert_eq!(t.hwpc_home_directory, "");
    assert_eq!(t.cpu_ops_per_core_list, vec![25, 250, 2_500, 25_000]);
    assert_eq!(t.nb_iterations, 10);
    assert!(!t.hwpc_and_perf);
}

#[test]
fn substrings() {
    assert!(contains("12.5 Joules power/energy-pkg/", "power/energy-pkg/"));
    assert!(!contains("12.5 Joules power/energy-ram/", "power/energy-pkg/"));
    assert!(contains("abc", ""));
    assert!(!contains("ab", "abc"));
    assert!(starts_with("perf_alone", "perf_"));
    assert!(!starts_with("perf", "perf_"));
    assert!(ends_with("x.csv", ".csv"));
    assert!(!ends_with("x.csv.bak", ".csv"));
}

#[test]
fn first_words() {
    assert_eq!(first_word("   1,234.5 Joules power/energy-pkg/"), Some("1,234.5".to_string()));
    assert_eq!(first_word("\u{3000}\t12\u{a0}x"), Some("12".to_string()));
    assert_eq!(first_word(" \n\t "), None);
    assert_eq!(first_word(""), None);
}
