//! Validation of published write-pipeline benchmark JSON.

use vstd::prelude::*;

use crate::error::{bot_err, fails_as, BotError};
use crate::float::{finite, gt_bound, lt_zero, F64Bits};
use crate::model::{WorkflowRun, WritePipelineBenchmarkData, WritePipelineBenchmarkRun};
use crate::ranking_quality_validate::{
    check_run_header, check_status, cross_check_failure, cross_check_memory_suite_run,
    first_failure, history_has_sha, max_run_number, memory_suite_max_published_run_number,
    memory_suite_published_sha_exists, opt_view, run_header_failure, run_label,
    run_label_string, status_failure, suite_payload_failure, validate_suite_payload, vec_seq,
    MemorySuiteRunFields, SuiteRunValidation,
};
use crate::text::{cat, cat3};

verus! {

/// Bit pattern of `2000.0`: ten times the 200 ms write p95 SLA.
pub const P95_PLAUSIBLE_MAX_BITS: u64 = 0x409f_4000_0000_0000;

/// A required latency: present, not negative and finite.
pub open spec fn latency_failure(prefix: Seq<char>, name: Seq<char>, value: Option<F64Bits>) -> Option<
    Seq<char>,
> {
    match value {
        None => Some(prefix + name + " required"@),
        Some(v) => if lt_zero(v.0) || !finite(v.0) {
            Some(prefix + name + " invalid"@)
        } else {
            None
        },
    }
}

pub(crate) fn check_latency(prefix: &str, name: &str, value: Option<F64Bits>) -> (r: Result<
    (),
    BotError,
>)
    ensures
        fails_as(r, latency_failure(prefix@, name@, value)),
{
    match value {
        None => Err(bot_err(cat3(prefix, name, " required"))),
        Some(v) => if v.is_lt_zero() || !v.is_finite() {
            Err(bot_err(cat3(prefix, name, " invalid")))
        } else {
            Ok(())
        },
    }
}

impl MemorySuiteRunFields for WritePipelineBenchmarkRun {
    open spec fn spec_sha(&self) -> Option<Seq<char>> {
        opt_view(self.sha)
    }

    open spec fn spec_run_number(&self) -> Option<i64> {
        self.run_number
    }

    open spec fn spec_run_url(&self) -> Option<Seq<char>> {
        opt_view(self.run_url)
    }

    fn sha(&self) -> (r: Option<&str>) {
        match &self.sha {
            Some(s) => Some(s.as_str()),
            None => None,
        }
    }

    fn run_number(&self) -> (r: Option<i64>) {
        self.run_number
    }

    fn run_url(&self) -> (r: Option<&str>) {
        match &self.run_url {
            Some(s) => Some(s.as_str()),
            None => None,
        }
    }
}

/// The first check that write-pipeline run `index` fails.
pub open spec fn write_run_failure(run: WritePipelineBenchmarkRun, index: nat) -> Option<Seq<char>> {
    let label = run_label(index);
    let prefix = label + ".metrics."@;
    first_failure(
        run_header_failure(run.sha, run.short_sha, run.run_number, label),
        first_failure(
            status_failure(run.status, label),
            match run.metrics {
                None => Some(label + ".metrics required"@),
                Some(m) => first_failure(
                    latency_failure(prefix, "latency_ms_p50"@, m.latency_ms_p50),
                    first_failure(
                        latency_failure(prefix, "latency_ms_p95"@, m.latency_ms_p95),
                        first_failure(
                            latency_failure(prefix, "latency_ms_p99"@, m.latency_ms_p99),
                            if m.latency_ms_p95 matches Some(p95) && gt_bound(
                                p95.0,
                                P95_PLAUSIBLE_MAX_BITS,
                            ) {
                                Some(label + ".metrics.latency_ms_p95 implausibly high"@)
                            } else {
                                None
                            },
                        ),
                    ),
                ),
            },
        ),
    )
}

/// An accepted write-pipeline run has a hexadecimal SHA, a short SHA, a run
/// number in range, a known status when it has one, and p50/p95/p99
/// latencies finite and not negative, with p95 at most 2000 ms.
pub proof fn lemma_accepted_write_run(run: WritePipelineBenchmarkRun, index: nat)
    ensures
        write_run_failure(run, index) is None ==> {
            &&& (run.sha matches Some(s) && crate::verify::hex_sha(crate::verify::cleaned_sha(s@)))
            &&& run.short_sha is Some
            &&& (run.run_number matches Some(n) && 0 <= n <= 1_000_000)
            &&& (run.status matches Some(s) ==> (s@ == "pass"@ || s@ == "fail"@ || s@ == "warn"@))
            &&& (run.metrics matches Some(m) && (m.latency_ms_p50 matches Some(v) && !lt_zero(v.0) && finite(
                v.0,
            )) && (m.latency_ms_p95 matches Some(v) && !lt_zero(v.0) && finite(v.0) && !gt_bound(
                v.0,
                P95_PLAUSIBLE_MAX_BITS,
            )) && (m.latency_ms_p99 matches Some(v) && !lt_zero(v.0) && finite(v.0)))
        },
{
}

fn validate_write_pipeline_run(run: &WritePipelineBenchmarkRun, index: usize) -> (r: Result<
    (),
    BotError,
>)
    ensures
        fails_as(r, write_run_failure(*run, index as nat)),
{
    let label = run_label_string(index);
    let label = label.as_str();
    check_run_header(&run.sha, &run.short_sha, run.run_number, label)?;
    check_status(&run.status, label)?;
    let metrics = match &run.metrics {
        None => return Err(bot_err(cat(label, ".metrics required"))),
        Some(m) => m,
    };
    let prefix = cat(label, ".metrics.");
    check_latency(prefix.as_str(), "latency_ms_p50", metrics.latency_ms_p50)?;
    check_latency(prefix.as_str(), "latency_ms_p95", metrics.latency_ms_p95)?;
    check_latency(prefix.as_str(), "latency_ms_p99", metrics.latency_ms_p99)?;
    if let Some(p95) = metrics.latency_ms_p95 {
        if p95.is_gt_bound(P95_PLAUSIBLE_MAX_BITS) {
            return Err(bot_err(cat(label, ".metrics.latency_ms_p95 implausibly high")));
        }
    }
    Ok(())
}

impl SuiteRunValidation for WritePipelineBenchmarkRun {
    open spec fn failure_at(&self, index: nat) -> Option<Seq<char>> {
        write_run_failure(*self, index)
    }

    fn check_at(&self, index: usize) -> (r: Result<(), BotError>) {
        validate_write_pipeline_run(self, index)
    }
}

pub open spec fn write_payload_failure(payload: WritePipelineBenchmarkData) -> Option<Seq<char>> {
    suite_payload_failure(
        payload.schema_version,
        payload.benchmark,
        payload.runs,
        "write-pipeline"@,
        "write_pipeline"@,
    )
}

/// A write-pipeline history is accepted when it has schema 1, benchmark
/// `write_pipeline`, one to fifty runs that each pass the run checks, and no
/// SHA twice.
pub fn validate_write_pipeline_payload(payload: &WritePipelineBenchmarkData) -> (r: Result<
    (),
    BotError,
>)
    ensures
        fails_as(r, write_payload_failure(*payload)),
{
    validate_suite_payload(
        payload.schema_version,
        &payload.benchmark,
        &payload.runs,
        "write-pipeline",
        "write_pipeline",
    )
}

pub fn cross_check_write_pipeline_artifact_run(
    payload: &WritePipelineBenchmarkData,
    workflow: &WorkflowRun,
    run_id: i64,
    expected_run_number: i64,
) -> (r: Result<(), BotError>)
    ensures
        fails_as(
            r,
            cross_check_failure(
                vec_seq(payload.runs),
                *workflow,
                run_id,
                expected_run_number,
                "write-pipeline"@,
            ),
        ),
{
    cross_check_memory_suite_run(
        payload.runs.as_ref(),
        workflow,
        run_id,
        expected_run_number,
        "write-pipeline",
    )
}

pub fn write_pipeline_published_sha_exists(data: &WritePipelineBenchmarkData, head_sha: &str) -> (r:
    bool)
    ensures
        r == history_has_sha(vec_seq(data.runs), head_sha@),
{
    memory_suite_published_sha_exists(data.runs.as_ref(), head_sha)
}

pub fn write_pipeline_max_published_run_number(data: &WritePipelineBenchmarkData) -> (r: Option<
    i64,
>)
    ensures
        r == match vec_seq(data.runs) {
            Some(rs) => max_run_number(rs, rs.len() as int),
            None => None,
        },
{
    memory_suite_max_published_run_number(data.runs.as_ref())
}

} // verus!
