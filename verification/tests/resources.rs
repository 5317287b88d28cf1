use jbotci::benchmark::{
    duration_from_timeval, format_memory, nonnegative_counter, peak_rss_bytes_from_ru_maxrss,
    resource_usage_from_rusage, ProcessResourceDelta, RusageCounters,
};
use jbotci::cli::{cli_exit_code, CliStatus};

fn delta(peak: Option<u64>) -> ProcessResourceDelta {
    ProcessResourceDelta {
        user_cpu_nanos: None,
        system_cpu_nanos: None,
        peak_rss_bytes: peak,
        minor_page_faults: None,
        major_page_faults: None,
        voluntary_context_switches: None,
        involuntary_context_switches: None,
        block_input_ops: None,
        block_output_ops: None,
    }
}

#[test]
fn memory_line_shows_the_peak_in_mib() {
    assert_eq!(format_memory(&delta(Some(3 * 1024 * 1024 + 512 * 1024))), "peak-rss=3.5 MiB");
    assert_eq!(format_memory(&delta(None)), "unavailable");
}

#[test]
fn system_times_become_nanoseconds() {
    assert_eq!(duration_from_timeval(2, 500_000), Some(2_500_000_000));
    assert_eq!(duration_from_timeval(0, 999_999), Some(999_999_000));
    assert_eq!(duration_from_timeval(0, 1_000_000), None);
    assert_eq!(duration_from_timeval(-1, 0), None);
    assert_eq!(duration_from_timeval(1, -1), None);
    assert_eq!(
        duration_from_timeval(i64::MAX, 999_999),
        Some(std::time::Duration::new(i64::MAX as u64, 999_999_000).as_nanos())
    );
}

#[test]
fn counters_and_peak_memory() {
    assert_eq!(nonnegative_counter(7), Some(7));
    assert_eq!(nonnegative_counter(-7), None);
    assert_eq!(peak_rss_bytes_from_ru_maxrss(2048, true), Some(2048 * 1024));
    assert_eq!(peak_rss_bytes_from_ru_maxrss(2048, false), Some(2048));
    assert_eq!(peak_rss_bytes_from_ru_maxrss(-1, true), None);
    assert_eq!(peak_rss_bytes_from_ru_maxrss(i64::MAX, true), None);
}

#[test]
fn rusage_fields_map_to_the_usage() {
    let usage = resource_usage_from_rusage(
        RusageCounters {
            user_seconds: 1,
            user_microseconds: 2,
            system_seconds: 0,
            system_microseconds: 3,
            max_rss: 10,
            minor_page_faults: 4,
            major_page_faults: -1,
            voluntary_context_switches: 5,
            involuntary_context_switches: 6,
            block_input_ops: 7,
            block_output_ops: 8,
        },
        true,
    );
    assert_eq!(usage.user_cpu_nanos, Some(1_000_002_000));
    assert_eq!(usage.system_cpu_nanos, Some(3_000));
    assert_eq!(usage.peak_rss_bytes, Some(10_240));
    assert_eq!(usage.minor_page_faults, Some(4));
    assert_eq!(usage.major_page_faults, None);
    assert_eq!(usage.block_output_ops, Some(8));
}

#[test]
fn exit_codes_of_the_statuses() {
    assert_eq!(cli_exit_code(CliStatus::Success), 0);
    assert_eq!(cli_exit_code(CliStatus::Failure), 1);
    assert_eq!(cli_exit_code(CliStatus::ValidMissing), 10);
    assert_eq!(cli_exit_code(CliStatus::InvalidInput), 11);
}
