//! Benchmark bookkeeping: exit statuses of the iterations, wall-time statistics and
//! the change of process resource counters over a run.
//!
//! Durations are counted in nanoseconds.

use crate::cli::CliStatus;
use crate::text::{decimal, owned, push_decimal, push_str};
use crate::units::{format_bytes, mib_spec};
use vstd::prelude::*;
use vstd::relations::{sorted_by, total_ordering};
use vstd::seq_lib::{lemma_sorted_unique, to_multiset_insert};

verus! {

/// How many iterations ended with each exit status.
#[derive(Debug, Clone, Copy, PartialEq, Eq, Structural)]
pub struct BenchmarkStatusCounts {
    pub success: usize,
    pub failure: usize,
    pub valid_missing: usize,
    pub invalid_input: usize,
}

/// The counts after one more iteration ended with `status`.
pub open spec fn recorded(c: BenchmarkStatusCounts, status: CliStatus) -> BenchmarkStatusCounts {
    match status {
        CliStatus::Success => BenchmarkStatusCounts { success: (c.success + 1) as usize, ..c },
        CliStatus::Failure => BenchmarkStatusCounts { failure: (c.failure + 1) as usize, ..c },
        CliStatus::ValidMissing => BenchmarkStatusCounts {
            valid_missing: (c.valid_missing + 1) as usize,
            ..c
        },
        CliStatus::InvalidInput => BenchmarkStatusCounts {
            invalid_input: (c.invalid_input + 1) as usize,
            ..c
        },
    }
}

/// The status of a whole run: the worst status that any iteration had, invalid input
/// before a valid miss before a failure before success.
pub open spec fn final_status_spec(c: BenchmarkStatusCounts) -> CliStatus {
    if c.invalid_input > 0 {
        CliStatus::InvalidInput
    } else if c.valid_missing > 0 {
        CliStatus::ValidMissing
    } else if c.failure > 0 {
        CliStatus::Failure
    } else {
        CliStatus::Success
    }
}

/// The number of counted iterations.
pub open spec fn total_count(c: BenchmarkStatusCounts) -> int {
    c.success + c.failure + c.valid_missing + c.invalid_input
}

impl BenchmarkStatusCounts {
    /// No iteration counted.
    pub fn new() -> (r: Self)
        ensures
            r == (BenchmarkStatusCounts {
                success: 0,
                failure: 0,
                valid_missing: 0,
                invalid_input: 0,
            }),
    {
        BenchmarkStatusCounts { success: 0, failure: 0, valid_missing: 0, invalid_input: 0 }
    }

    /// Counts one more iteration that ended with `status`.
    pub fn record(&mut self, status: CliStatus)
        requires
            total_count(*old(self)) < usize::MAX,
        ensures
            *final(self) == recorded(*old(self), status),
    {
        match status {
            CliStatus::Success => self.success = self.success + 1,
            CliStatus::Failure => self.failure = self.failure + 1,
            CliStatus::ValidMissing => self.valid_missing = self.valid_missing + 1,
            CliStatus::InvalidInput => self.invalid_input = self.invalid_input + 1,
        }
    }

    /// The status of the whole run.
    pub fn final_status(&self) -> (r: CliStatus)
        ensures
            r == final_status_spec(*self),
    {
        if self.invalid_input > 0 {
            CliStatus::InvalidInput
        } else if self.valid_missing > 0 {
            CliStatus::ValidMissing
        } else if self.failure > 0 {
            CliStatus::Failure
        } else {
            CliStatus::Success
        }
    }
}

/// The rank of a status in the final status: the worse, the higher.
pub open spec fn status_rank(s: CliStatus) -> int {
    match s {
        CliStatus::Success => 0,
        CliStatus::Failure => 1,
        CliStatus::ValidMissing => 2,
        CliStatus::InvalidInput => 3,
    }
}

/// Recording an iteration never improves the final status: the new final status is the
/// worse of the old one and the recorded status, and it is success exactly when every
/// counted iteration succeeded.
pub proof fn law_final_status_is_worst(c: BenchmarkStatusCounts, status: CliStatus)
    requires
        total_count(c) < usize::MAX,
    ensures
        status_rank(final_status_spec(recorded(c, status))) == (if status_rank(status)
            > status_rank(final_status_spec(c)) {
            status_rank(status)
        } else {
            status_rank(final_status_spec(c))
        }),
        (final_status_spec(c) == CliStatus::Success) <==> (c.failure == 0 && c.valid_missing == 0
            && c.invalid_input == 0),
{
}

/// The statuses line of a benchmark report.
pub open spec fn statuses_line_spec(c: BenchmarkStatusCounts) -> Seq<char> {
    "success="@ + decimal(c.success as nat) + " failure="@ + decimal(c.failure as nat)
        + " valid-missing="@ + decimal(c.valid_missing as nat) + " invalid-input="@ + decimal(
        c.invalid_input as nat,
    )
}

/// The counts of a benchmark report's statuses line.
pub fn format_status_counts(c: &BenchmarkStatusCounts) -> (r: String)
    ensures
        r@ == statuses_line_spec(*c),
{
    let mut out = crate::text::owned("success=");
    push_decimal(&mut out, c.success as u64);
    push_str(&mut out, " failure=");
    push_decimal(&mut out, c.failure as u64);
    push_str(&mut out, " valid-missing=");
    push_decimal(&mut out, c.valid_missing as u64);
    push_str(&mut out, " invalid-input=");
    push_decimal(&mut out, c.invalid_input as u64);
    out
}

/// The iterations of a benchmark run as they are recorded: the planned number, the
/// wall time of each finished one, and their statuses.
#[derive(Debug, Clone)]
pub struct BenchmarkRecord {
    pub iterations: usize,
    pub iteration_wall_times: Vec<u128>,
    pub status_counts: BenchmarkStatusCounts,
}

impl BenchmarkRecord {
    /// A record of a run of `iterations` iterations, none finished yet.
    pub fn start(iterations: usize) -> (r: Self)
        requires
            iterations > 0,
        ensures
            r.iterations == iterations,
            r.iteration_wall_times@.len() == 0,
            r.status_counts == (BenchmarkStatusCounts {
                success: 0,
                failure: 0,
                valid_missing: 0,
                invalid_input: 0,
            }),
    {
        BenchmarkRecord {
            iterations,
            iteration_wall_times: Vec::new(),
            status_counts: BenchmarkStatusCounts::new(),
        }
    }

    /// Records a finished iteration.
    pub fn record_iteration(&mut self, wall_time_nanos: u128, status: CliStatus)
        requires
            old(self).iteration_wall_times@.len() < old(self).iterations,
            total_count(old(self).status_counts) == old(self).iteration_wall_times@.len(),
        ensures
            final(self).iterations == old(self).iterations,
            final(self).iteration_wall_times@ == old(self).iteration_wall_times@.push(
                wall_time_nanos,
            ),
            final(self).status_counts == recorded(old(self).status_counts, status),
    {
        self.iteration_wall_times.push(wall_time_nanos);
        self.status_counts.record(status);
    }
}

/// A counter's change over a run: the end value less the start value, at least zero;
/// unknown when either is.
pub open spec fn counter_delta_spec(start: Option<u64>, end: Option<u64>) -> Option<u64> {
    match (start, end) {
        (Some(s), Some(e)) => Some(
            if e >= s {
                (e - s) as u64
            } else {
                0
            },
        ),
        _ => None,
    }
}

/// A counter's change over a run.
pub fn counter_delta(start: Option<u64>, end: Option<u64>) -> (r: Option<u64>)
    ensures
        r == counter_delta_spec(start, end),
{
    match (start, end) {
        (Some(s), Some(e)) => Some(e.saturating_sub(s)),
        _ => None,
    }
}

/// A duration's change over a run, in nanoseconds, at least zero; unknown when either
/// end is.
pub open spec fn duration_delta_spec(start: Option<u128>, end: Option<u128>) -> Option<u128> {
    match (start, end) {
        (Some(s), Some(e)) => Some(
            if e >= s {
                (e - s) as u128
            } else {
                0
            },
        ),
        _ => None,
    }
}

/// A duration's change over a run.
pub fn duration_delta(start: Option<u128>, end: Option<u128>) -> (r: Option<u128>)
    ensures
        r == duration_delta_spec(start, end),
{
    match (start, end) {
        (Some(s), Some(e)) => Some(e.saturating_sub(s)),
        _ => None,
    }
}

/// Resource counters of the process, each unknown where the system does not report it.
#[derive(Debug, Clone, Copy, PartialEq, Eq, Structural)]
pub struct ProcessResourceUsage {
    pub user_cpu_nanos: Option<u128>,
    pub system_cpu_nanos: Option<u128>,
    pub peak_rss_bytes: Option<u64>,
    pub minor_page_faults: Option<u64>,
    pub major_page_faults: Option<u64>,
    pub voluntary_context_switches: Option<u64>,
    pub involuntary_context_switches: Option<u64>,
    pub block_input_ops: Option<u64>,
    pub block_output_ops: Option<u64>,
}

impl ProcessResourceUsage {
    /// Nothing known.
    pub fn unavailable() -> (r: Self)
        ensures
            r.user_cpu_nanos is None && r.system_cpu_nanos is None && r.peak_rss_bytes is None
                && r.minor_page_faults is None && r.major_page_faults is None
                && r.voluntary_context_switches is None && r.involuntary_context_switches is None
                && r.block_input_ops is None && r.block_output_ops is None,
    {
        ProcessResourceUsage {
            user_cpu_nanos: None,
            system_cpu_nanos: None,
            peak_rss_bytes: None,
            minor_page_faults: None,
            major_page_faults: None,
            voluntary_context_switches: None,
            involuntary_context_switches: None,
            block_input_ops: None,
            block_output_ops: None,
        }
    }
}

/// The change of the resource counters over a run; the peak memory is that at the end.
#[derive(Debug, Clone, Copy, PartialEq, Eq, Structural)]
pub struct ProcessResourceDelta {
    pub user_cpu_nanos: Option<u128>,
    pub system_cpu_nanos: Option<u128>,
    pub peak_rss_bytes: Option<u64>,
    pub minor_page_faults: Option<u64>,
    pub major_page_faults: Option<u64>,
    pub voluntary_context_switches: Option<u64>,
    pub involuntary_context_switches: Option<u64>,
    pub block_input_ops: Option<u64>,
    pub block_output_ops: Option<u64>,
}

impl ProcessResourceDelta {
    /// The change from `start` to `end`.
    pub fn between(start: ProcessResourceUsage, end: ProcessResourceUsage) -> (r: Self)
        ensures
            r.user_cpu_nanos == duration_delta_spec(start.user_cpu_nanos, end.user_cpu_nanos),
            r.system_cpu_nanos == duration_delta_spec(
                start.system_cpu_nanos,
                end.system_cpu_nanos,
            ),
            r.peak_rss_bytes == end.peak_rss_bytes,
            r.minor_page_faults == counter_delta_spec(
                start.minor_page_faults,
                end.minor_page_faults,
            ),
            r.major_page_faults == counter_delta_spec(
                start.major_page_faults,
                end.major_page_faults,
            ),
            r.voluntary_context_switches == counter_delta_spec(
                start.voluntary_context_switches,
                end.voluntary_context_switches,
            ),
            r.involuntary_context_switches == counter_delta_spec(
                start.involuntary_context_switches,
                end.involuntary_context_switches,
            ),
            r.block_input_ops == counter_delta_spec(start.block_input_ops, end.block_input_ops),
            r.block_output_ops == counter_delta_spec(start.block_output_ops, end.block_output_ops),
    {
        ProcessResourceDelta {
            user_cpu_nanos: duration_delta(start.user_cpu_nanos, end.user_cpu_nanos),
            system_cpu_nanos: duration_delta(start.system_cpu_nanos, end.system_cpu_nanos),
            peak_rss_bytes: end.peak_rss_bytes,
            minor_page_faults: counter_delta(start.minor_page_faults, end.minor_page_faults),
            major_page_faults: counter_delta(start.major_page_faults, end.major_page_faults),
            voluntary_context_switches: counter_delta(
                start.voluntary_context_switches,
                end.voluntary_context_switches,
            ),
            involuntary_context_switches: counter_delta(
                start.involuntary_context_switches,
                end.involuntary_context_switches,
            ),
            block_input_ops: counter_delta(start.block_input_ops, end.block_input_ops),
            block_output_ops: counter_delta(start.block_output_ops, end.block_output_ops),
        }
    }
}

/// Two counters as `first=a second=b`, or `unavailable` when either is unknown.
pub open spec fn counter_pair_spec(
    first: Seq<char>,
    a: Option<u64>,
    second: Seq<char>,
    b: Option<u64>,
) -> Seq<char> {
    match (a, b) {
        (Some(x), Some(y)) => first + "="@ + decimal(x as nat) + " "@ + second + "="@ + decimal(
            y as nat,
        ),
        _ => "unavailable"@,
    }
}

fn format_counter_pair(first: &str, a: Option<u64>, second: &str, b: Option<u64>) -> (r: String)
    ensures
        r@ == counter_pair_spec(first@, a, second@, b),
{
    match (a, b) {
        (Some(x), Some(y)) => {
            let mut out = crate::text::concat2(first, "=");
            push_decimal(&mut out, x);
            push_str(&mut out, " ");
            push_str(&mut out, second);
            push_str(&mut out, "=");
            push_decimal(&mut out, y);
            out
        },
        _ => crate::text::owned("unavailable"),
    }
}

/// The page faults of a run.
pub fn format_page_faults(resources: &ProcessResourceDelta) -> (r: String)
    ensures
        r@ == counter_pair_spec(
            "minor"@,
            resources.minor_page_faults,
            "major"@,
            resources.major_page_faults,
        ),
{
    format_counter_pair(
        "minor",
        resources.minor_page_faults,
        "major",
        resources.major_page_faults,
    )
}

/// The context switches of a run.
pub fn format_context_switches(resources: &ProcessResourceDelta) -> (r: String)
    ensures
        r@ == counter_pair_spec(
            "voluntary"@,
            resources.voluntary_context_switches,
            "involuntary"@,
            resources.involuntary_context_switches,
        ),
{
    format_counter_pair(
        "voluntary",
        resources.voluntary_context_switches,
        "involuntary",
        resources.involuntary_context_switches,
    )
}

/// The block input and output operations of a run.
pub fn format_block_io(resources: &ProcessResourceDelta) -> (r: String)
    ensures
        r@ == counter_pair_spec(
            "input"@,
            resources.block_input_ops,
            "output"@,
            resources.block_output_ops,
        ),
{
    format_counter_pair("input", resources.block_input_ops, "output", resources.block_output_ops)
}

/// The peak memory of a run, or `unavailable` where the system does not report it.
pub open spec fn memory_spec(resources: ProcessResourceDelta) -> Seq<char> {
    match resources.peak_rss_bytes {
        Some(bytes) => "peak-rss="@ + mib_spec(bytes as nat),
        None => "unavailable"@,
    }
}

/// The peak memory of a run.
pub fn format_memory(resources: &ProcessResourceDelta) -> (r: String)
    ensures
        r@ == memory_spec(*resources),
{
    match resources.peak_rss_bytes {
        Some(bytes) => {
            let mut out = owned("peak-rss=");
            let mib = format_bytes(bytes);
            push_str(&mut out, mib.as_str());
            out
        },
        None => owned("unavailable"),
    }
}

/// The counters that `getrusage` reports for the process, as the system gives them.
#[derive(Debug, Clone, Copy, PartialEq, Eq, Structural)]
pub struct RusageCounters {
    pub user_seconds: i64,
    pub user_microseconds: i64,
    pub system_seconds: i64,
    pub system_microseconds: i64,
    pub max_rss: i64,
    pub minor_page_faults: i64,
    pub major_page_faults: i64,
    pub voluntary_context_switches: i64,
    pub involuntary_context_switches: i64,
    pub block_input_ops: i64,
    pub block_output_ops: i64,
}

/// A time of the system in nanoseconds, when its seconds are not negative and its
/// microseconds lie in `0..1_000_000`.
pub open spec fn timeval_nanos_spec(seconds: i64, microseconds: i64) -> Option<u128> {
    if seconds >= 0 && 0 <= microseconds < 1_000_000 {
        Some((seconds * 1_000_000_000 + microseconds * 1000) as u128)
    } else {
        None
    }
}

/// A time of the system in nanoseconds, when it is a valid one.
pub fn duration_from_timeval(seconds: i64, microseconds: i64) -> (r: Option<u128>)
    ensures
        r == timeval_nanos_spec(seconds, microseconds),
{
    if seconds < 0 || microseconds < 0 || microseconds >= 1_000_000 {
        return None;
    }
    let s = seconds as u128;
    let m = microseconds as u128;
    assert(s * 1_000_000_000 <= 0x7fff_ffff_ffff_ffffu128 * 1_000_000_000) by (nonlinear_arith)
        requires
            s <= 0x7fff_ffff_ffff_ffffu128,
    ;
    Some(s * 1_000_000_000 + m * 1000)
}

/// A counter of the system, when it is not negative.
pub open spec fn nonnegative_spec(value: i64) -> Option<u64> {
    if value >= 0 {
        Some(value as u64)
    } else {
        None
    }
}

/// A counter of the system, when it is not negative.
pub fn nonnegative_counter(value: i64) -> (r: Option<u64>)
    ensures
        r == nonnegative_spec(value),
{
    if value >= 0 {
        Some(value as u64)
    } else {
        None
    }
}

/// The peak resident memory in bytes from the system's figure, which is in KiB
/// (`in_kib`) or in bytes; `None` when it is negative or the bytes overflow.
pub open spec fn peak_rss_spec(max_rss: i64, in_kib: bool) -> Option<u64> {
    if max_rss < 0 {
        None
    } else if !in_kib {
        Some(max_rss as u64)
    } else if max_rss * 1024 <= u64::MAX {
        Some((max_rss * 1024) as u64)
    } else {
        None
    }
}

/// The peak resident memory in bytes from the system's figure.
pub fn peak_rss_bytes_from_ru_maxrss(max_rss: i64, in_kib: bool) -> (r: Option<u64>)
    ensures
        r == peak_rss_spec(max_rss, in_kib),
{
    if max_rss < 0 {
        return None;
    }
    let v = max_rss as u64;
    if in_kib {
        v.checked_mul(1024)
    } else {
        Some(v)
    }
}

/// The resource counters of the process from what `getrusage` reported.
pub fn resource_usage_from_rusage(counters: RusageCounters, max_rss_in_kib: bool) -> (r:
    ProcessResourceUsage)
    ensures
        r.user_cpu_nanos == timeval_nanos_spec(counters.user_seconds, counters.user_microseconds),
        r.system_cpu_nanos == timeval_nanos_spec(
            counters.system_seconds,
            counters.system_microseconds,
        ),
        r.peak_rss_bytes == peak_rss_spec(counters.max_rss, max_rss_in_kib),
        r.minor_page_faults == nonnegative_spec(counters.minor_page_faults),
        r.major_page_faults == nonnegative_spec(counters.major_page_faults),
        r.voluntary_context_switches == nonnegative_spec(counters.voluntary_context_switches),
        r.involuntary_context_switches == nonnegative_spec(counters.involuntary_context_switches),
        r.block_input_ops == nonnegative_spec(counters.block_input_ops),
        r.block_output_ops == nonnegative_spec(counters.block_output_ops),
{
    ProcessResourceUsage {
        user_cpu_nanos: duration_from_timeval(counters.user_seconds, counters.user_microseconds),
        system_cpu_nanos: duration_from_timeval(
            counters.system_seconds,
            counters.system_microseconds,
        ),
        peak_rss_bytes: peak_rss_bytes_from_ru_maxrss(counters.max_rss, max_rss_in_kib),
        minor_page_faults: nonnegative_counter(counters.minor_page_faults),
        major_page_faults: nonnegative_counter(counters.major_page_faults),
        voluntary_context_switches: nonnegative_counter(counters.voluntary_context_switches),
        involuntary_context_switches: nonnegative_counter(counters.involuntary_context_switches),
        block_input_ops: nonnegative_counter(counters.block_input_ops),
        block_output_ops: nonnegative_counter(counters.block_output_ops),
    }
}

/// The order of durations.
pub open spec fn nanos_le() -> spec_fn(u128, u128) -> bool {
    |a: u128, b: u128| a <= b
}

proof fn lemma_nanos_le_total()
    ensures
        total_ordering(nanos_le()),
{
    assert(vstd::relations::reflexive(nanos_le()));
    assert(vstd::relations::antisymmetric(nanos_le()));
    assert(vstd::relations::transitive(nanos_le()));
    assert(vstd::relations::strongly_connected(nanos_le()));
}

/// The durations in ascending order.
fn sort_nanos(v: &Vec<u128>) -> (out: Vec<u128>)
    ensures
        sorted_by(out@, nanos_le()),
        out@.to_multiset() == v@.to_multiset(),
{
    let mut out: Vec<u128> = Vec::new();
    let mut i: usize = 0;
    assert(v@.subrange(0, 0).to_multiset() =~= out@.to_multiset()) by {
        broadcast use vstd::seq_lib::group_to_multiset_ensures;
        assert(v@.subrange(0, 0) =~= out@);
    }
    while i < v.len()
        invariant
            i <= v.len(),
            sorted_by(out@, nanos_le()),
            out@.to_multiset() == v@.subrange(0, i as int).to_multiset(),
        decreases v.len() - i,
    {
        let x = v[i];
        let mut pos: usize = 0;
        while pos < out.len() && out[pos] <= x
            invariant
                pos <= out.len(),
                forall|k: int| 0 <= k < pos ==> out@[k] <= x,
            decreases out.len() - pos,
        {
            pos = pos + 1;
        }
        let ghost before = out@;
        proof {
            to_multiset_insert(before, pos as int, x);
            vstd::seq_lib::to_multiset_build(v@.subrange(0, i as int), x);
            assert(v@.subrange(0, i + 1) =~= v@.subrange(0, i as int).push(x));
        }
        out.insert(pos, x);
        assert(out@ =~= before.insert(pos as int, x));
        assert forall|a: int, b: int| 0 <= a < b < out@.len() implies #[trigger] nanos_le()(
            out@[a],
            out@[b],
        ) by {
            if b < pos {
                assert(out@[a] == before[a] && out@[b] == before[b]);
                assert(nanos_le()(before[a], before[b]));
            } else if b == pos {
                assert(out@[a] == before[a]);
            } else if a == pos {
                assert(out@[b] == before[b - 1]);
                assert(nanos_le()(before[pos as int], before[b - 1]));
            } else if a < pos {
                assert(out@[a] == before[a] && out@[b] == before[b - 1]);
                assert(nanos_le()(before[a], before[b - 1]));
            } else {
                assert(out@[a] == before[a - 1] && out@[b] == before[b - 1]);
                assert(nanos_le()(before[a - 1], before[b - 1]));
            }
        }
        i = i + 1;
    }
    assert(v@.subrange(0, v.len() as int) =~= v@);
    out
}

/// The sum of the durations.
pub open spec fn nanos_sum(s: Seq<u128>) -> nat
    decreases s.len(),
{
    if s.len() == 0 {
        0
    } else {
        nanos_sum(s.drop_last()) + (s.last() as nat)
    }
}

proof fn lemma_nanos_sum_prefix(s: Seq<u128>, i: int)
    requires
        0 <= i <= s.len(),
    ensures
        nanos_sum(s.subrange(0, i)) <= nanos_sum(s),
    decreases s.len() - i,
{
    if i < s.len() {
        lemma_nanos_sum_prefix(s, i + 1);
        assert(s.subrange(0, i + 1).drop_last() =~= s.subrange(0, i));
    } else {
        assert(s.subrange(0, i) =~= s);
    }
}

/// A duration cut to what fits in 64-bit nanoseconds.
pub open spec fn saturate_u64(x: int) -> u128 {
    if x > u64::MAX {
        u64::MAX as u128
    } else {
        x as u128
    }
}

/// The position of the 95th percentile among `count` sorted durations.
pub open spec fn p95_index(count: usize) -> int {
    let m = if count * 95 > usize::MAX {
        usize::MAX as int
    } else {
        count * 95
    };
    let c = m / 100 + if m % 100 != 0 {
        1int
    } else {
        0int
    };
    if c == 0 {
        0
    } else {
        c - 1
    }
}

/// Statistics of the wall times of a run, in nanoseconds.
#[derive(Debug, Clone, Copy, PartialEq, Eq, Structural)]
pub struct WallTimeStats {
    pub total: u128,
    pub mean: u128,
    pub median: u128,
    pub min: u128,
    pub p95: u128,
    pub max: u128,
}

/// The statistics of the wall times: over the times in ascending order, the smallest,
/// the largest, the middle one (the mean of the two middle ones for an even count),
/// the 95th percentile, and the mean; mean and median are cut to 64-bit nanoseconds.
pub open spec fn wall_stats_spec(times: Seq<u128>, total: u128) -> WallTimeStats {
    let s = times.sort_by(nanos_le());
    let n = times.len() as int;
    WallTimeStats {
        total,
        mean: saturate_u64(nanos_sum(times) as int / n as int),
        median: if n % 2 == 0 {
            saturate_u64((s[n / 2 - 1] + s[n / 2]) / 2)
        } else {
            s[n / 2]
        },
        min: s[0],
        p95: s[p95_index(n as usize)],
        max: s[n - 1],
    }
}

/// The statistics of the wall times of a run.
pub fn wall_time_stats(iteration_wall_times: &Vec<u128>, total_wall_time: u128) -> (r:
    WallTimeStats)
    requires
        iteration_wall_times@.len() > 0,
        nanos_sum(iteration_wall_times@) <= u128::MAX,
    ensures
        r == wall_stats_spec(iteration_wall_times@, total_wall_time),
{
    let sorted = sort_nanos(iteration_wall_times);
    proof {
        lemma_nanos_le_total();
        iteration_wall_times@.lemma_sort_by_ensures(nanos_le());
        lemma_sorted_unique(sorted@, iteration_wall_times@.sort_by(nanos_le()), nanos_le());
        vstd::seq_lib::to_multiset_len(sorted@);
        vstd::seq_lib::to_multiset_len(iteration_wall_times@);
    }
    let count = sorted.len();
    let min = sorted[0];
    let max = sorted[count - 1];
    let mut sum: u128 = 0;
    let mut i: usize = 0;
    while i < count
        invariant
            i <= count == iteration_wall_times@.len(),
            nanos_sum(iteration_wall_times@) <= u128::MAX,
            sum == nanos_sum(iteration_wall_times@.subrange(0, i as int)),
        decreases count - i,
    {
        proof {
            let s = iteration_wall_times@.subrange(0, i + 1);
            assert(s.drop_last() =~= iteration_wall_times@.subrange(0, i as int));
            lemma_nanos_sum_prefix(iteration_wall_times@, i + 1);
        }
        sum = sum + iteration_wall_times[i];
        i = i + 1;
    }
    assert(iteration_wall_times@.subrange(0, count as int) =~= iteration_wall_times@);
    let mean_raw = sum / (count as u128);
    let mean = if mean_raw > u64::MAX as u128 {
        u64::MAX as u128
    } else {
        mean_raw
    };
    let median = if count % 2 == 0 {
        let left = sorted[count / 2 - 1];
        let right = sorted[count / 2];
        let half = left / 2 + right / 2 + (left % 2 + right % 2) / 2;
        assert(half == (left + right) / 2);
        if half > u64::MAX as u128 {
            u64::MAX as u128
        } else {
            half
        }
    } else {
        sorted[count / 2]
    };
    let scaled = if count > usize::MAX / 95 {
        usize::MAX
    } else {
        count * 95
    };
    let ceil = scaled / 100 + if scaled % 100 != 0 {
        1usize
    } else {
        0usize
    };
    let p95 = ceil.saturating_sub(1);
    assert(p95 == p95_index(count));
    proof {
        if count * 95 <= usize::MAX {
            assert(p95 < count) by (nonlinear_arith)
                requires
                    p95 == (count * 95 / 100 + if (count * 95) % 100 != 0 {
                        1int
                    } else {
                        0int
                    }) - 1 || p95 == 0,
                    count > 0,
            ;
        }
    }
    WallTimeStats {
        total: total_wall_time,
        mean,
        median,
        min,
        p95: sorted[p95],
        max,
    }
}

} // verus!
