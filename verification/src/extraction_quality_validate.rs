//! Validation of published extraction-quality benchmark JSON.

use vstd::prelude::*;

use crate::error::{bot_err, fails_as, BotError};
use crate::float::{in_unit, F64Bits};
use crate::model::{
    ExtractionQualityBenchmarkData, ExtractionQualityBenchmarkMetrics,
    ExtractionQualityBenchmarkRun, WorkflowRun,
};
use crate::ranking_quality_validate::{
    check_required_unit, check_run_header, check_status, cross_check_failure,
    cross_check_memory_suite_run, first_failure, history_has_sha, max_run_number,
    memory_suite_max_published_run_number, memory_suite_published_sha_exists, opt_view,
    required_unit_failure, run_header_failure, run_label, run_label_string, status_failure,
    suite_payload_failure, validate_suite_payload, vec_seq, MemorySuiteRunFields,
    SuiteRunValidation,
};
use crate::text::{cat, cat3};

verus! {

/// An optional metric, when present, lies in `[0, 1]`.
pub open spec fn optional_unit_failure(
    label: Seq<char>,
    name: Seq<char>,
    value: Option<F64Bits>,
) -> Option<Seq<char>> {
    match value {
        Some(v) => if in_unit(v.0) {
            None
        } else {
            Some(label + ".metrics."@ + name + " out of range"@)
        },
        None => None,
    }
}

fn check_optional_unit(label: &str, name: &str, value: Option<F64Bits>) -> (r: Result<
    (),
    BotError,
>)
    ensures
        fails_as(r, optional_unit_failure(label@, name@, value)),
{
    match value {
        Some(v) => if v.is_in_unit() {
            Ok(())
        } else {
            let mut m = cat3(label, ".metrics.", name);
            m.append(" out of range");
            Err(bot_err(m))
        },
        None => Ok(()),
    }
}

pub open spec fn required_metrics_failure(
    m: ExtractionQualityBenchmarkMetrics,
    label: Seq<char>,
) -> Option<Seq<char>> {
    first_failure(
        required_unit_failure(label, "precision_macro"@, m.precision_macro),
        first_failure(
            required_unit_failure(label, "recall_macro"@, m.recall_macro),
            first_failure(
                required_unit_failure(
                    label,
                    "category_assignment_accuracy"@,
                    m.category_assignment_accuracy,
                ),
                required_unit_failure(label, "temporal_field_accuracy"@, m.temporal_field_accuracy),
            ),
        ),
    )
}

pub open spec fn optional_metrics_failure(
    m: ExtractionQualityBenchmarkMetrics,
    label: Seq<char>,
) -> Option<Seq<char>> {
    first_failure(
        optional_unit_failure(label, "precision_factual"@, m.precision_factual),
        first_failure(
            optional_unit_failure(label, "recall_factual"@, m.recall_factual),
            first_failure(
                optional_unit_failure(label, "precision_preference"@, m.precision_preference),
                first_failure(
                    optional_unit_failure(label, "recall_preference"@, m.recall_preference),
                    first_failure(
                        optional_unit_failure(label, "precision_behavioral"@, m.precision_behavioral),
                        first_failure(
                            optional_unit_failure(label, "recall_behavioral"@, m.recall_behavioral),
                            first_failure(
                                optional_unit_failure(
                                    label,
                                    "precision_episodic"@,
                                    m.precision_episodic,
                                ),
                                first_failure(
                                    optional_unit_failure(
                                        label,
                                        "recall_episodic"@,
                                        m.recall_episodic,
                                    ),
                                    first_failure(
                                        optional_unit_failure(
                                            label,
                                            "precision_procedural"@,
                                            m.precision_procedural,
                                        ),
                                        optional_unit_failure(
                                            label,
                                            "recall_procedural"@,
                                            m.recall_procedural,
                                        ),
                                    ),
                                ),
                            ),
                        ),
                    ),
                ),
            ),
        ),
    )
}

fn validate_required_unit_metrics(metrics: &ExtractionQualityBenchmarkMetrics, label: &str) -> (r:
    Result<(), BotError>)
    ensures
        fails_as(r, required_metrics_failure(*metrics, label@)),
{
    check_required_unit(label, "precision_macro", metrics.precision_macro)?;
    check_required_unit(label, "recall_macro", metrics.recall_macro)?;
    check_required_unit(
        label,
        "category_assignment_accuracy",
        metrics.category_assignment_accuracy,
    )?;
    check_required_unit(label, "temporal_field_accuracy", metrics.temporal_field_accuracy)?;
    Ok(())
}

fn validate_optional_unit_metrics(metrics: &ExtractionQualityBenchmarkMetrics, label: &str) -> (r:
    Result<(), BotError>)
    ensures
        fails_as(r, optional_metrics_failure(*metrics, label@)),
{
    check_optional_unit(label, "precision_factual", metrics.precision_factual)?;
    check_optional_unit(label, "recall_factual", metrics.recall_factual)?;
    check_optional_unit(label, "precision_preference", metrics.precision_preference)?;
    check_optional_unit(label, "recall_preference", metrics.recall_preference)?;
    check_optional_unit(label, "precision_behavioral", metrics.precision_behavioral)?;
    check_optional_unit(label, "recall_behavioral", metrics.recall_behavioral)?;
    check_optional_unit(label, "precision_episodic", metrics.precision_episodic)?;
    check_optional_unit(label, "recall_episodic", metrics.recall_episodic)?;
    check_optional_unit(label, "precision_procedural", metrics.precision_procedural)?;
    check_optional_unit(label, "recall_procedural", metrics.recall_procedural)?;
    Ok(())
}

impl MemorySuiteRunFields for ExtractionQualityBenchmarkRun {
    open spec fn spec_sha(&self) -> Option<Seq<char>> {
        opt_view(self.sha)
    }

    open spec fn spec_run_number(&self) -> Option<i64> {
        self.run_number
    }

    open spec fn spec_run_url(&self) -> Option<Seq<char>> {
        opt_view(self.run_url)
    }

    fn sha(&self) -> (r: Option<&str>) {
        match &self.sha {
            Some(s) => Some(s.as_str()),
            None => None,
        }
    }

    fn run_number(&self) -> (r: Option<i64>) {
        self.run_number
    }

    fn run_url(&self) -> (r: Option<&str>) {
        match &self.run_url {
            Some(s) => Some(s.as_str()),
            None => None,
        }
    }
}

/// The first check that extraction-quality run `index` fails.
pub open spec fn extraction_run_failure(run: ExtractionQualityBenchmarkRun, index: nat) -> Option<
    Seq<char>,
> {
    let label = run_label(index);
    first_failure(
        run_header_failure(run.sha, run.short_sha, run.run_number, label),
        first_failure(
            status_failure(run.status, label),
            match run.metrics {
                None => Some(label + ".metrics required"@),
                Some(m) => first_failure(
                    required_metrics_failure(m, label),
                    optional_metrics_failure(m, label),
                ),
            },
        ),
    )
}

/// An accepted extraction-quality run has a hexadecimal SHA, a short SHA, a
/// run number in range, a known status when it has one, and macro precision
/// and recall, category and temporal accuracy each in `[0, 1]`.
pub proof fn lemma_accepted_extraction_run(run: ExtractionQualityBenchmarkRun, index: nat)
    ensures
        extraction_run_failure(run, index) is None ==> {
            &&& (run.sha matches Some(s) && crate::verify::hex_sha(crate::verify::cleaned_sha(s@)))
            &&& run.short_sha is Some
            &&& (run.run_number matches Some(n) && 0 <= n <= 1_000_000)
            &&& (run.status matches Some(s) ==> (s@ == "pass"@ || s@ == "fail"@ || s@ == "warn"@))
            &&& (run.metrics matches Some(m) && (m.precision_macro matches Some(v) && in_unit(v.0)) && (
            m.recall_macro matches Some(v) && in_unit(v.0)) && (m.category_assignment_accuracy matches Some(
                v,
            ) && in_unit(v.0)) && (m.temporal_field_accuracy matches Some(v) && in_unit(v.0)))
        },
{
}

fn validate_extraction_quality_run(run: &ExtractionQualityBenchmarkRun, index: usize) -> (r: Result<
    (),
    BotError,
>)
    ensures
        fails_as(r, extraction_run_failure(*run, index as nat)),
{
    let label = run_label_string(index);
    let label = label.as_str();
    check_run_header(&run.sha, &run.short_sha, run.run_number, label)?;
    check_status(&run.status, label)?;
    let metrics = match &run.metrics {
        None => return Err(bot_err(cat(label, ".metrics required"))),
        Some(m) => m,
    };
    validate_required_unit_metrics(metrics, label)?;
    validate_optional_unit_metrics(metrics, label)?;
    Ok(())
}

impl SuiteRunValidation for ExtractionQualityBenchmarkRun {
    open spec fn failure_at(&self, index: nat) -> Option<Seq<char>> {
        extraction_run_failure(*self, index)
    }

    fn check_at(&self, index: usize) -> (r: Result<(), BotError>) {
        validate_extraction_quality_run(self, index)
    }
}

pub open spec fn extraction_payload_failure(payload: ExtractionQualityBenchmarkData) -> Option<
    Seq<char>,
> {
    suite_payload_failure(
        payload.schema_version,
        payload.benchmark,
        payload.runs,
        "extraction-quality"@,
        "extraction_quality"@,
    )
}

/// An extraction-quality history is accepted when it has schema 1, benchmark
/// `extraction_quality`, one to fifty runs that each pass the run checks, and
/// no SHA twice.
pub fn validate_extraction_quality_payload(payload: &ExtractionQualityBenchmarkData) -> (r: Result<
    (),
    BotError,
>)
    ensures
        fails_as(r, extraction_payload_failure(*payload)),
{
    validate_suite_payload(
        payload.schema_version,
        &payload.benchmark,
        &payload.runs,
        "extraction-quality",
        "extraction_quality",
    )
}

pub fn cross_check_extraction_quality_artifact_run(
    payload: &ExtractionQualityBenchmarkData,
    workflow: &WorkflowRun,
    run_id: i64,
    expected_run_number: i64,
) -> (r: Result<(), BotError>)
    ensures
        fails_as(
            r,
            cross_check_failure(
                vec_seq(payload.runs),
                *workflow,
                run_id,
                expected_run_number,
                "extraction-quality"@,
            ),
        ),
{
    cross_check_memory_suite_run(
        payload.runs.as_ref(),
        workflow,
        run_id,
        expected_run_number,
        "extraction-quality",
    )
}

pub fn extraction_quality_published_sha_exists(
    data: &ExtractionQualityBenchmarkData,
    head_sha: &str,
) -> (r: bool)
    ensures
        r == history_has_sha(vec_seq(data.runs), head_sha@),
{
    memory_suite_published_sha_exists(data.runs.as_ref(), head_sha)
}

pub fn extraction_quality_max_published_run_number(data: &ExtractionQualityBenchmarkData) -> (r:
    Option<i64>)
    ensures
        r == match vec_seq(data.runs) {
            Some(rs) => max_run_number(rs, rs.len() as int),
            None => None,
        },
{
    memory_suite_max_published_run_number(data.runs.as_ref())
}

} // verus!
