//! The benchmark data the bot reads, validates and renders.
//!
//! Metric values are `f64` in the published JSON; here each is carried by its
//! bit pattern (`F64Bits`). Free-form JSON members hold only what the bot reads
//! from them (`GoBenchmarks`, `GateSummary`).

use vstd::prelude::*;

use crate::float::F64Bits;

verus! {

#[derive(Clone, Debug)]
pub struct BenchmarkData {
    pub schema_version: Option<i64>,
    pub baseline_sha: Option<String>,
    pub runs: Option<Vec<BenchmarkRun>>,
}

/// The member of `go_benchmarks` that the renderer reads:
/// `BenchmarkProxyOverhead.ns_per_op`.
#[derive(Clone, Debug)]
pub struct GoBenchmarks {
    pub proxy_overhead_ns_per_op: Option<F64Bits>,
}

#[derive(Clone, Debug)]
pub struct BenchmarkRun {
    pub sha: Option<String>,
    pub short_sha: Option<String>,
    pub branch: Option<String>,
    pub pr_number: Option<i64>,
    pub status: Option<String>,
    pub run_number: Option<i64>,
    pub run_url: Option<String>,
    pub regression_vs_baseline_pct: Option<F64Bits>,
    pub go_version: Option<String>,
    pub runner_os: Option<String>,
    pub runner_cpu: Option<String>,
    pub runner_vcpus: Option<i64>,
    pub runner_ram_gb: Option<i64>,
    pub k6_version: Option<String>,
    pub k6: Option<K6Metrics>,
    pub stages: Option<StageMetrics>,
    pub go_benchmarks: Option<GoBenchmarks>,
}

#[derive(Clone, Debug)]
pub struct K6Metrics {
    pub p50_ms: Option<F64Bits>,
    pub p95_ms: Option<F64Bits>,
    pub p99_ms: Option<F64Bits>,
    pub p999_ms: Option<F64Bits>,
    pub req_per_s: Option<F64Bits>,
    pub error_rate: Option<F64Bits>,
    pub check_rate: Option<F64Bits>,
}

#[derive(Clone, Debug)]
pub struct StageMetrics {
    pub auth_lru_p99_ms: Option<F64Bits>,
    pub auth_grpc_p99_ms: Option<F64Bits>,
    pub rate_limit_p99_ms: Option<F64Bits>,
    pub directive_resolve_p99_ms: Option<F64Bits>,
    pub prompt_inject_p99_ms: Option<F64Bits>,
    pub total_overhead_p99_ms: Option<F64Bits>,
}

#[derive(Clone, Debug)]
pub struct GateResult {
    pub status: Option<String>,
    pub regression_pct: Option<F64Bits>,
    pub checks: Option<Vec<GateCheck>>,
}

#[derive(Clone, Debug)]
pub struct GateCheck {
    pub name: Option<String>,
    pub value: Option<F64Bits>,
    pub limit: Option<F64Bits>,
    pub ok: Option<bool>,
}

#[derive(Clone, Debug)]
pub struct DispatchPayload {
    pub run_id: i64,
    pub head_sha: String,
    pub run_number: i64,
}

#[derive(Clone, Debug)]
pub struct WorkflowRun {
    pub conclusion: Option<String>,
    pub head_branch: Option<String>,
    pub head_sha: Option<String>,
    pub run_number: Option<i64>,
    pub name: Option<String>,
    pub path: Option<String>,
    pub html_url: Option<String>,
}

/// The members of a suite's `gate_summary` that the renderer reads.
#[derive(Clone, Debug)]
pub struct GateSummary {
    /// `has_1m`, when it is a JSON boolean.
    pub has_1m: Option<bool>,
    /// `note`, when it is a JSON string.
    pub note: Option<String>,
}

#[derive(Clone, Debug)]
pub struct HnswBenchmarkData {
    pub schema_version: Option<i64>,
    pub benchmark: Option<String>,
    pub runs: Option<Vec<HnswBenchmarkRun>>,
}

#[derive(Clone, Debug)]
pub struct HnswBenchmarkRun {
    pub sha: Option<String>,
    pub short_sha: Option<String>,
    pub timestamp: Option<String>,
    pub branch: Option<String>,
    pub run_number: Option<i64>,
    pub run_url: Option<String>,
    pub mean_recall_at_10: Option<F64Bits>,
    pub results: Option<Vec<HnswSizeResult>>,
    pub status: Option<String>,
    pub gate_summary: Option<GateSummary>,
}

#[derive(Clone, Debug)]
pub struct HnswSizeResult {
    pub corpus_size: Option<i64>,
    pub query_count: Option<i64>,
    pub recall_at_10: Option<F64Bits>,
    pub latency_ms_p50: Option<F64Bits>,
    pub latency_ms_p95: Option<F64Bits>,
    pub latency_ms_p99: Option<F64Bits>,
    pub latency_ms_p95_ci_low: Option<F64Bits>,
    pub latency_ms_p95_ci_high: Option<F64Bits>,
    pub ef_search: Option<i64>,
    pub min_similarity: Option<F64Bits>,
    pub iterative_scan: Option<String>,
    pub index_build_mode: Option<String>,
    pub plan_node_type: Option<String>,
    pub plan_index_name: Option<String>,
    pub shared_hit_blocks: Option<i64>,
    pub shared_read_blocks: Option<i64>,
    pub idx_scan_delta: Option<i64>,
    pub row_count_verified: Option<i64>,
}

impl Default for HnswSizeResult {
    fn default() -> (r: Self)
        ensures
            r.corpus_size is None && r.query_count is None && r.recall_at_10 is None
                && r.latency_ms_p50 is None && r.latency_ms_p95 is None && r.latency_ms_p99
                is None && r.latency_ms_p95_ci_low is None && r.latency_ms_p95_ci_high is None
                && r.ef_search is None && r.min_similarity is None && r.iterative_scan is None
                && r.index_build_mode is None && r.plan_node_type is None && r.plan_index_name
                is None && r.shared_hit_blocks is None && r.shared_read_blocks is None
                && r.idx_scan_delta is None && r.row_count_verified is None,
    {
        HnswSizeResult {
            corpus_size: None,
            query_count: None,
            recall_at_10: None,
            latency_ms_p50: None,
            latency_ms_p95: None,
            latency_ms_p99: None,
            latency_ms_p95_ci_low: None,
            latency_ms_p95_ci_high: None,
            ef_search: None,
            min_similarity: None,
            iterative_scan: None,
            index_build_mode: None,
            plan_node_type: None,
            plan_index_name: None,
            shared_hit_blocks: None,
            shared_read_blocks: None,
            idx_scan_delta: None,
            row_count_verified: None,
        }
    }
}

#[derive(Clone, Debug)]
pub struct RankingQualityBenchmarkData {
    pub schema_version: Option<i64>,
    pub benchmark: Option<String>,
    pub runs: Option<Vec<RankingQualityBenchmarkRun>>,
}

#[derive(Clone, Debug)]
pub struct RankingQualityBenchmarkRun {
    pub sha: Option<String>,
    pub short_sha: Option<String>,
    pub timestamp: Option<String>,
    pub branch: Option<String>,
    pub run_number: Option<i64>,
    pub run_url: Option<String>,
    pub gold_set: Option<String>,
    pub query_count: Option<i64>,
    pub memory_count: Option<i64>,
    pub metrics: Option<RankingQualityBenchmarkMetrics>,
    pub status: Option<String>,
    pub gate_summary: Option<GateSummary>,
}

#[derive(Clone, Debug)]
pub struct RankingQualityBenchmarkMetrics {
    pub precision_at_5: Option<F64Bits>,
    pub recall_at_10: Option<F64Bits>,
    pub mrr: Option<F64Bits>,
    pub expected_order_match: Option<F64Bits>,
    pub top_category_accuracy: Option<F64Bits>,
}

#[derive(Clone, Debug)]
pub struct WritePipelineBenchmarkData {
    pub schema_version: Option<i64>,
    pub benchmark: Option<String>,
    pub runs: Option<Vec<WritePipelineBenchmarkRun>>,
}

#[derive(Clone, Debug)]
pub struct WritePipelineBenchmarkRun {
    pub sha: Option<String>,
    pub short_sha: Option<String>,
    pub timestamp: Option<String>,
    pub branch: Option<String>,
    pub run_number: Option<i64>,
    pub run_url: Option<String>,
    pub iterations: Option<i64>,
    pub metrics: Option<WritePipelineBenchmarkMetrics>,
    pub status: Option<String>,
    pub gate_summary: Option<GateSummary>,
}

#[derive(Clone, Debug)]
pub struct WritePipelineBenchmarkMetrics {
    pub latency_ms_p50: Option<F64Bits>,
    pub latency_ms_p95: Option<F64Bits>,
    pub latency_ms_p99: Option<F64Bits>,
}

#[derive(Clone, Debug)]
pub struct ExtractionQualityBenchmarkData {
    pub schema_version: Option<i64>,
    pub benchmark: Option<String>,
    pub runs: Option<Vec<ExtractionQualityBenchmarkRun>>,
}

#[derive(Clone, Debug)]
pub struct ExtractionQualityBenchmarkRun {
    pub sha: Option<String>,
    pub short_sha: Option<String>,
    pub timestamp: Option<String>,
    pub branch: Option<String>,
    pub run_number: Option<i64>,
    pub run_url: Option<String>,
    pub gold_set: Option<String>,
    pub conversation_count: Option<i64>,
    pub provider: Option<String>,
    pub enforcement: Option<String>,
    pub mode: Option<String>,
    pub model: Option<String>,
    pub metrics: Option<ExtractionQualityBenchmarkMetrics>,
    pub status: Option<String>,
    pub gate_summary: Option<GateSummary>,
}

#[derive(Clone, Debug)]
pub struct ExtractionQualityBenchmarkMetrics {
    pub precision_macro: Option<F64Bits>,
    pub recall_macro: Option<F64Bits>,
    pub category_assignment_accuracy: Option<F64Bits>,
    pub temporal_field_accuracy: Option<F64Bits>,
    pub precision_factual: Option<F64Bits>,
    pub recall_factual: Option<F64Bits>,
    pub precision_preference: Option<F64Bits>,
    pub recall_preference: Option<F64Bits>,
    pub precision_behavioral: Option<F64Bits>,
    pub recall_behavioral: Option<F64Bits>,
    pub precision_episodic: Option<F64Bits>,
    pub recall_episodic: Option<F64Bits>,
    pub precision_procedural: Option<F64Bits>,
    pub recall_procedural: Option<F64Bits>,
}

impl Default for ExtractionQualityBenchmarkMetrics {
    fn default() -> (r: Self)
        ensures
            r.precision_macro is None && r.recall_macro is None
                && r.category_assignment_accuracy is None && r.temporal_field_accuracy is None
                && r.precision_factual is None && r.recall_factual is None
                && r.precision_preference is None && r.recall_preference is None
                && r.precision_behavioral is None && r.recall_behavioral is None
                && r.precision_episodic is None && r.recall_episodic is None
                && r.precision_procedural is None && r.recall_procedural is None,
    {
        ExtractionQualityBenchmarkMetrics {
            precision_macro: None,
            recall_macro: None,
            category_assignment_accuracy: None,
            temporal_field_accuracy: None,
            precision_factual: None,
            recall_factual: None,
            precision_preference: None,
            recall_preference: None,
            precision_behavioral: None,
            recall_behavioral: None,
            precision_episodic: None,
            recall_episodic: None,
            precision_procedural: None,
            recall_procedural: None,
        }
    }
}

} // verus!
