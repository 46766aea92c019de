//! Validation of published HNSW / memory benchmark JSON (independent of the
//! proxy schema).

use vstd::prelude::*;

use crate::error::{bot_err, fails_as, BotError};
use crate::float::{in_unit, F64Bits};
use crate::model::{HnswBenchmarkData, HnswBenchmarkRun, HnswSizeResult, WorkflowRun};
use crate::ranking_quality_validate::{
    check_run_header, first_failure, history_has_sha, max_run_number,
    memory_suite_max_published_run_number, memory_suite_published_sha_exists, opt_view,
    run_header_failure, run_label, run_label_string, suite_payload_failure,
    validate_suite_payload, vec_seq, MemorySuiteRunFields, SuiteRunValidation,
};
use crate::text::{
    cat, cat3, chars_of, contains, contains_chars, decimal, decimal_int, eq_str, i64_to_string,
    to_lowercase, trim, trim_str, unicode_lowercase, usize_to_string,
};
use crate::write_pipeline_validate::{check_latency, latency_failure};

verus! {

/// The largest suite history JSON accepted, in bytes (2 MiB).
pub const MAX_JSON_BYTES: usize = 2097152;

/// Refuses a suite history JSON larger than [`MAX_JSON_BYTES`], before it is
/// decoded.
pub fn check_suite_json_size(bytes: &[u8]) -> (r: Result<(), BotError>)
    ensures
        r is Ok <==> bytes@.len() <= MAX_JSON_BYTES,
        r matches Err(e) ==> e@ == "json exceeds 2097152 bytes"@,
{
    if bytes.len() > MAX_JSON_BYTES {
        Err(bot_err(String::from_str("json exceeds 2097152 bytes")))
    } else {
        Ok(())
    }
}

/// `"{run_label}.results[{j}]"`.
pub open spec fn result_label(run: Seq<char>, j: nat) -> Seq<char> {
    run + ".results["@ + decimal(j) + "]"@
}

/// The first check that one result cell fails.
pub open spec fn hnsw_result_failure(r: HnswSizeResult, label: Seq<char>) -> Option<Seq<char>> {
    match r.recall_at_10 {
        None => Some(label + ".recall_at_10"@),
        Some(v) => if !in_unit(v.0) {
            Some(label + ".recall_at_10 out of range"@)
        } else {
            first_failure(
                latency_failure(label + "."@, "latency_ms_p50"@, r.latency_ms_p50),
                first_failure(
                    latency_failure(label + "."@, "latency_ms_p95"@, r.latency_ms_p95),
                    first_failure(
                        latency_failure(label + "."@, "latency_ms_p99"@, r.latency_ms_p99),
                        match r.corpus_size {
                            None => Some(label + ".corpus_size"@),
                            Some(c) => if c < 1 {
                                Some(label + ".corpus_size invalid"@)
                            } else {
                                knobs_failure(r, label)
                            },
                        },
                    ),
                ),
            )
        },
    }
}

/// An optional count, when present, is at least `min`.
pub open spec fn count_failure(label: Seq<char>, name: Seq<char>, value: Option<i64>, min: i64) -> Option<
    Seq<char>,
> {
    match value {
        Some(n) => if n < min {
            Some(label + "."@ + name + " out of range"@)
        } else {
            None
        },
        None => None,
    }
}

/// An optional latency, when present, is finite and not negative.
pub open spec fn optional_latency_failure(label: Seq<char>, name: Seq<char>, value: Option<F64Bits>) -> Option<
    Seq<char>,
> {
    match value {
        Some(_) => latency_failure(label + "."@, name, value),
        None => None,
    }
}

/// The methodology knobs of a result cell, each checked when present:
/// `query_count >= 1`, the p95 confidence bounds finite and not negative,
/// `ef_search >= 1`, `min_similarity` in `[0, 1]`, and the plan and buffer
/// counters not negative.
pub open spec fn knobs_failure(r: HnswSizeResult, label: Seq<char>) -> Option<Seq<char>> {
    first_failure(
        count_failure(label, "query_count"@, r.query_count, 1),
        first_failure(
            optional_latency_failure(label, "latency_ms_p95_ci_low"@, r.latency_ms_p95_ci_low),
            first_failure(
                optional_latency_failure(label, "latency_ms_p95_ci_high"@, r.latency_ms_p95_ci_high),
                first_failure(
                    count_failure(label, "ef_search"@, r.ef_search, 1),
                    first_failure(
                        match r.min_similarity {
                            Some(v) => if !in_unit(v.0) {
                                Some(label + ".min_similarity out of range"@)
                            } else {
                                None
                            },
                            None => None,
                        },
                        first_failure(
                            count_failure(label, "shared_hit_blocks"@, r.shared_hit_blocks, 0),
                            first_failure(
                                count_failure(label, "shared_read_blocks"@, r.shared_read_blocks, 0),
                                first_failure(
                                    count_failure(label, "idx_scan_delta"@, r.idx_scan_delta, 0),
                                    count_failure(label, "row_count_verified"@, r.row_count_verified, 0),
                                ),
                            ),
                        ),
                    ),
                ),
            ),
        ),
    )
}

fn check_count(label: &str, name: &str, value: Option<i64>, min: i64) -> (r: Result<(), BotError>)
    ensures
        fails_as(r, count_failure(label@, name@, value, min)),
{
    match value {
        Some(n) => if n < min {
            let mut m = cat3(label, ".", name);
            m.append(" out of range");
            Err(bot_err(m))
        } else {
            Ok(())
        },
        None => Ok(()),
    }
}

fn check_optional_latency(label: &str, name: &str, value: Option<F64Bits>) -> (r: Result<(), BotError>)
    ensures
        fails_as(r, optional_latency_failure(label@, name@, value)),
{
    match value {
        Some(_) => {
            let prefix = cat(label, ".");
            check_latency(prefix.as_str(), name, value)
        },
        None => Ok(()),
    }
}

fn validate_knobs(result: &HnswSizeResult, label: &str) -> (r: Result<(), BotError>)
    ensures
        fails_as(r, knobs_failure(*result, label@)),
{
    check_count(label, "query_count", result.query_count, 1)?;
    check_optional_latency(label, "latency_ms_p95_ci_low", result.latency_ms_p95_ci_low)?;
    check_optional_latency(label, "latency_ms_p95_ci_high", result.latency_ms_p95_ci_high)?;
    check_count(label, "ef_search", result.ef_search, 1)?;
    if let Some(v) = result.min_similarity {
        if !v.is_in_unit() {
            return Err(bot_err(cat(label, ".min_similarity out of range")));
        }
    }
    check_count(label, "shared_hit_blocks", result.shared_hit_blocks, 0)?;
    check_count(label, "shared_read_blocks", result.shared_read_blocks, 0)?;
    check_count(label, "idx_scan_delta", result.idx_scan_delta, 0)?;
    check_count(label, "row_count_verified", result.row_count_verified, 0)
}

/// The first failing result cell at or after `j`.
pub open spec fn hnsw_results_failure(results: Seq<HnswSizeResult>, run: Seq<char>, j: int) -> Option<
    Seq<char>,
>
    decreases results.len() - j,
{
    if j < 0 || j >= results.len() {
        None
    } else if hnsw_result_failure(results[j], result_label(run, j as nat)) is Some {
        hnsw_result_failure(results[j], result_label(run, j as nat))
    } else {
        hnsw_results_failure(results, run, j + 1)
    }
}

/// The first check that HNSW run `index` fails.
pub open spec fn hnsw_run_failure(run: HnswBenchmarkRun, index: nat) -> Option<Seq<char>> {
    let label = run_label(index);
    first_failure(
        run_header_failure(run.sha, run.short_sha, run.run_number, label),
        match run.mean_recall_at_10 {
            None => Some(label + ".mean_recall_at_10 required"@),
            Some(m) => if !in_unit(m.0) {
                Some(label + ".mean_recall_at_10 out of range"@)
            } else {
                match run.results {
                    None => Some(label + ".results required"@),
                    Some(rs) => if rs@.len() == 0 {
                        Some(label + ".results empty"@)
                    } else {
                        hnsw_results_failure(rs@, label, 0)
                    },
                }
            },
        },
    )
}

/// What every result cell of an accepted HNSW run carries: recall@10 in
/// `[0, 1]`, p50/p95/p99 latencies finite and not negative, a corpus of at
/// least one, and, when given, `ef_search >= 1` and `min_similarity` in
/// `[0, 1]`.
pub open spec fn hnsw_cell_accepted(r: HnswSizeResult) -> bool {
    &&& (r.recall_at_10 matches Some(v) && in_unit(v.0))
    &&& (r.latency_ms_p50 matches Some(v) && !crate::float::lt_zero(v.0) && crate::float::finite(v.0))
    &&& (r.latency_ms_p95 matches Some(v) && !crate::float::lt_zero(v.0) && crate::float::finite(v.0))
    &&& (r.latency_ms_p99 matches Some(v) && !crate::float::lt_zero(v.0) && crate::float::finite(v.0))
    &&& (r.corpus_size matches Some(c) && c >= 1)
    &&& (r.ef_search matches Some(e) ==> e >= 1)
    &&& (r.min_similarity matches Some(v) ==> in_unit(v.0))
}

proof fn lemma_hnsw_cells_accepted(results: Seq<HnswSizeResult>, run: Seq<char>, j: int)
    requires
        0 <= j,
        hnsw_results_failure(results, run, j) is None,
    ensures
        forall|k: int| j <= k < results.len() ==> hnsw_cell_accepted(#[trigger] results[k]),
    decreases results.len() - j,
{
    if j < results.len() {
        lemma_hnsw_cells_accepted(results, run, j + 1);
        assert(hnsw_result_failure(results[j], result_label(run, j as nat)) is None);
    }
}

/// An accepted HNSW run has a hexadecimal SHA, a short SHA, a run number in
/// range, a mean recall@10 in `[0, 1]`, and at least one result cell, each
/// of which is accepted.
pub proof fn lemma_accepted_hnsw_run(run: HnswBenchmarkRun, index: nat)
    ensures
        hnsw_run_failure(run, index) is None ==> {
            &&& (run.sha matches Some(s) && crate::verify::hex_sha(
                crate::verify::cleaned_sha(s@),
            ))
            &&& run.short_sha is Some
            &&& (run.run_number matches Some(n) && 0 <= n <= 1_000_000)
            &&& (run.mean_recall_at_10 matches Some(m) && in_unit(m.0))
            &&& run.results is Some && run.results.unwrap()@.len() > 0
            &&& forall|k: int|
                0 <= k < run.results.unwrap()@.len() ==> hnsw_cell_accepted(
                    #[trigger] run.results.unwrap()@[k],
                )
        },
{
    if hnsw_run_failure(run, index) is None {
        lemma_hnsw_cells_accepted(run.results.unwrap()@, run_label(index), 0);
    }
}

fn validate_hnsw_result(result: &HnswSizeResult, label: &str) -> (r: Result<(), BotError>)
    ensures
        fails_as(r, hnsw_result_failure(*result, label@)),
{
    let recall = match result.recall_at_10 {
        None => return Err(bot_err(cat(label, ".recall_at_10"))),
        Some(v) => v,
    };
    if !recall.is_in_unit() {
        return Err(bot_err(cat(label, ".recall_at_10 out of range")));
    }
    let prefix = cat(label, ".");
    check_latency(prefix.as_str(), "latency_ms_p50", result.latency_ms_p50)?;
    check_latency(prefix.as_str(), "latency_ms_p95", result.latency_ms_p95)?;
    check_latency(prefix.as_str(), "latency_ms_p99", result.latency_ms_p99)?;
    match result.corpus_size {
        None => Err(bot_err(cat(label, ".corpus_size"))),
        Some(c) => if c < 1 {
            Err(bot_err(cat(label, ".corpus_size invalid")))
        } else {
            validate_knobs(result, label)
        },
    }
}

fn validate_hnsw_run(run: &HnswBenchmarkRun, index: usize) -> (r: Result<(), BotError>)
    ensures
        fails_as(r, hnsw_run_failure(*run, index as nat)),
{
    let label = run_label_string(index);
    let label = label.as_str();
    check_run_header(&run.sha, &run.short_sha, run.run_number, label)?;
    let mean = match run.mean_recall_at_10 {
        None => return Err(bot_err(cat(label, ".mean_recall_at_10 required"))),
        Some(m) => m,
    };
    if !mean.is_in_unit() {
        return Err(bot_err(cat(label, ".mean_recall_at_10 out of range")));
    }
    let results = match &run.results {
        None => return Err(bot_err(cat(label, ".results required"))),
        Some(rs) => rs,
    };
    if results.len() == 0 {
        return Err(bot_err(cat(label, ".results empty")));
    }
    let n: usize = results.len();
    let mut j: usize = 0;
    assert(hnsw_run_failure(*run, index as nat) == hnsw_results_failure(results@, label@, 0));
    while j < n
        invariant
            n == results@.len(),
            j <= n,
            label@ == run_label(index as nat),
            hnsw_run_failure(*run, index as nat) == hnsw_results_failure(results@, label@, 0),
            hnsw_results_failure(results@, label@, 0) == hnsw_results_failure(
                results@,
                label@,
                j as int,
            ),
        decreases n - j,
    {
        let jn = usize_to_string(j);
        let mut rl = cat3(label, ".results[", jn.as_str());
        rl.append("]");
        validate_hnsw_result(&results[j], rl.as_str())?;
        j = j + 1;
    }
    Ok(())
}

impl MemorySuiteRunFields for HnswBenchmarkRun {
    open spec fn spec_sha(&self) -> Option<Seq<char>> {
        opt_view(self.sha)
    }

    open spec fn spec_run_number(&self) -> Option<i64> {
        self.run_number
    }

    open spec fn spec_run_url(&self) -> Option<Seq<char>> {
        opt_view(self.run_url)
    }

    fn sha(&self) -> (r: Option<&str>) {
        match &self.sha {
            Some(s) => Some(s.as_str()),
            None => None,
        }
    }

    fn run_number(&self) -> (r: Option<i64>) {
        self.run_number
    }

    fn run_url(&self) -> (r: Option<&str>) {
        match &self.run_url {
            Some(s) => Some(s.as_str()),
            None => None,
        }
    }
}

impl SuiteRunValidation for HnswBenchmarkRun {
    open spec fn failure_at(&self, index: nat) -> Option<Seq<char>> {
        hnsw_run_failure(*self, index)
    }

    fn check_at(&self, index: usize) -> (r: Result<(), BotError>) {
        validate_hnsw_run(self, index)
    }
}

pub open spec fn hnsw_payload_failure(payload: HnswBenchmarkData) -> Option<Seq<char>> {
    suite_payload_failure(
        payload.schema_version,
        payload.benchmark,
        payload.runs,
        "hnsw"@,
        "hnsw_recall_latency"@,
    )
}

/// An HNSW history is accepted when it has schema 1, benchmark
/// `hnsw_recall_latency`, one to fifty runs that each pass the run checks,
/// and no SHA twice.
pub fn validate_hnsw_payload(payload: &HnswBenchmarkData) -> (r: Result<(), BotError>)
    ensures
        fails_as(r, hnsw_payload_failure(*payload)),
{
    validate_suite_payload(
        payload.schema_version,
        &payload.benchmark,
        &payload.runs,
        "hnsw",
        "hnsw_recall_latency",
    )
}

/// Binding of `runs[0]` to the verified workflow: same head SHA (ignoring
/// case), same run number, and the verified run's own URL (both trimmed).
/// `prefix` starts each suite-specific message.
pub open spec fn latest_run_binding_failure<T: MemorySuiteRunFields>(
    runs: Option<Seq<T>>,
    workflow: WorkflowRun,
    run_id: i64,
    expected_run_number: i64,
    prefix: Seq<char>,
) -> Option<Seq<char>> {
    if !(runs matches Some(rs) && rs.len() > 0) {
        Some(prefix + "runs must contain latest entry"@)
    } else {
        let latest = runs.unwrap()[0];
        match workflow.head_sha {
            None => Some("workflow head_sha missing"@),
            Some(h) => match latest.spec_sha() {
                None => Some("runs[0].sha required"@),
                Some(s) => if unicode_lowercase(s) != unicode_lowercase(h@) {
                    Some(prefix + "runs[0].sha mismatch with verified workflow head_sha"@)
                } else if latest.spec_run_number() != Some(expected_run_number) {
                    Some(prefix + "runs[0].run_number mismatch with dispatch payload"@)
                } else {
                    match latest.spec_run_url() {
                        None => Some("runs[0].run_url required"@),
                        Some(u) => match workflow.html_url {
                            None => Some("workflow html_url missing"@),
                            Some(expected) => if trim(u) == trim(expected@) {
                                None
                            } else {
                                Some(prefix + "runs[0].run_url must match verified workflow html_url"@)
                            },
                        },
                    }
                },
            },
        }
    }
}

/// An artifact passes the binding only when its latest run is the verified
/// run: the same commit (SHA compared without case), the dispatched run
/// number, and the verified run's own URL.
pub proof fn lemma_binding_is_verified_run<T: MemorySuiteRunFields>(
    runs: Option<Seq<T>>,
    workflow: WorkflowRun,
    run_id: i64,
    expected_run_number: i64,
    prefix: Seq<char>,
)
    ensures
        latest_run_binding_failure(runs, workflow, run_id, expected_run_number, prefix) is None ==> {
            &&& runs matches Some(rs) && rs.len() > 0
            &&& runs.unwrap()[0].spec_sha() matches Some(s) && workflow.head_sha matches Some(h)
                && unicode_lowercase(s) == unicode_lowercase(h@)
            &&& runs.unwrap()[0].spec_run_number() == Some(expected_run_number)
            &&& runs.unwrap()[0].spec_run_url() matches Some(u) && workflow.html_url matches Some(w)
                && trim(u) == trim(w@)
        },
{
}

pub(crate) fn check_latest_run_binding<T: MemorySuiteRunFields>(
    runs: Option<&Vec<T>>,
    workflow: &WorkflowRun,
    run_id: i64,
    expected_run_number: i64,
    prefix: &str,
) -> (r: Result<(), BotError>)
    ensures
        fails_as(
            r,
            latest_run_binding_failure(
                crate::ranking_quality_validate::ref_vec_seq(runs),
                *workflow,
                run_id,
                expected_run_number,
                prefix@,
            ),
        ),
        r is Ok ==> {
            &&& runs is Some && runs.unwrap()@.len() > 0
            &&& (runs.unwrap()@[0].spec_sha() matches Some(s) && (workflow.head_sha matches Some(h)
                && unicode_lowercase(s) == unicode_lowercase(h@)))
            &&& runs.unwrap()@[0].spec_run_number() == Some(expected_run_number)
        },
{
    proof {
        lemma_binding_is_verified_run(
            crate::ranking_quality_validate::ref_vec_seq(runs),
            *workflow,
            run_id,
            expected_run_number,
            prefix@,
        );
    }
    let latest = match runs {
        Some(rs) => if rs.len() > 0 {
            &rs[0]
        } else {
            return Err(bot_err(cat(prefix, "runs must contain latest entry")));
        },
        None => return Err(bot_err(cat(prefix, "runs must contain latest entry"))),
    };
    let head_sha = match &workflow.head_sha {
        None => return Err(bot_err(String::from_str("workflow head_sha missing"))),
        Some(h) => to_lowercase(h.as_str()),
    };
    let run_sha = match latest.sha() {
        None => return Err(bot_err(String::from_str("runs[0].sha required"))),
        Some(s) => to_lowercase(s),
    };
    if !eq_str(run_sha.as_str(), head_sha.as_str()) {
        return Err(bot_err(cat(prefix, "runs[0].sha mismatch with verified workflow head_sha")));
    }
    let same_number = match latest.run_number() {
        Some(n) => n == expected_run_number,
        None => false,
    };
    if !same_number {
        return Err(bot_err(cat(prefix, "runs[0].run_number mismatch with dispatch payload")));
    }
    let run_url = match latest.run_url() {
        None => return Err(bot_err(String::from_str("runs[0].run_url required"))),
        Some(u) => u,
    };
    let expected = match &workflow.html_url {
        None => return Err(bot_err(String::from_str("workflow html_url missing"))),
        Some(e) => trim_str(e.as_str()),
    };
    let url = trim_str(run_url);
    if !eq_str(url.as_str(), expected.as_str()) {
        return Err(bot_err(cat(prefix, "runs[0].run_url must match verified workflow html_url")));
    }
    Ok(())
}

pub fn cross_check_hnsw_artifact_run(
    payload: &HnswBenchmarkData,
    workflow: &WorkflowRun,
    run_id: i64,
    expected_run_number: i64,
) -> (r: Result<(), BotError>)
    ensures
        fails_as(
            r,
            latest_run_binding_failure(
                vec_seq(payload.runs),
                *workflow,
                run_id,
                expected_run_number,
                "hnsw "@,
            ),
        ),
        r is Ok ==> {
            &&& payload.runs is Some && payload.runs.unwrap()@.len() > 0
            &&& (payload.runs.unwrap()@[0].sha matches Some(s) && (workflow.head_sha matches Some(h)
                && unicode_lowercase(s@) == unicode_lowercase(h@)))
            &&& payload.runs.unwrap()@[0].run_number == Some(expected_run_number)
        },
{
    check_latest_run_binding(payload.runs.as_ref(), workflow, run_id, expected_run_number, "hnsw ")
}

pub fn hnsw_published_sha_exists(data: &HnswBenchmarkData, head_sha: &str) -> (r: bool)
    ensures
        r == history_has_sha(vec_seq(data.runs), head_sha@),
{
    memory_suite_published_sha_exists(data.runs.as_ref(), head_sha)
}

pub fn hnsw_max_published_run_number(data: &HnswBenchmarkData) -> (r: Option<i64>)
    ensures
        r == match vec_seq(data.runs) {
            Some(rs) => max_run_number(rs, rs.len() as int),
            None => None,
        },
{
    memory_suite_max_published_run_number(data.runs.as_ref())
}

} // verus!
