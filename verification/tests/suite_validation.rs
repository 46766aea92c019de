use ibex_benchmark_bot::extraction_quality_validate::{
    cross_check_extraction_quality_artifact_run, extraction_quality_max_published_run_number,
    extraction_quality_published_sha_exists, validate_extraction_quality_payload,
};
use ibex_benchmark_bot::float::F64Bits;
use ibex_benchmark_bot::hnsw_validate::{validate_hnsw_payload, cross_check_hnsw_artifact_run};
use ibex_benchmark_bot::model::{
    ExtractionQualityBenchmarkData, ExtractionQualityBenchmarkMetrics,
    ExtractionQualityBenchmarkRun, HnswBenchmarkData, HnswBenchmarkRun, HnswSizeResult,
    RankingQualityBenchmarkData, RankingQualityBenchmarkMetrics, RankingQualityBenchmarkRun,
    WorkflowRun, WritePipelineBenchmarkData, WritePipelineBenchmarkMetrics,
    WritePipelineBenchmarkRun,
};
use ibex_benchmark_bot::ranking_quality_validate::{
    cross_check_ranking_quality_artifact_run, ranking_quality_max_published_run_number,
    ranking_quality_published_sha_exists, validate_ranking_quality_payload,
};
use ibex_benchmark_bot::write_pipeline_validate::{
    cross_check_write_pipeline_artifact_run, validate_write_pipeline_payload,
    write_pipeline_max_published_run_number, write_pipeline_published_sha_exists,
};

fn f(x: f64) -> Option<F64Bits> {
    Some(F64Bits(x.to_bits()))
}

fn verified_workflow() -> WorkflowRun {
    WorkflowRun {
        conclusion: Some("success".into()),
        head_branch: Some("main".into()),
        head_sha: Some("abcdef1".into()),
        run_number: Some(3),
        name: Some("Memory Benchmarks".into()),
        path: Some(".github/workflows/memory-benchmark.yml".into()),
        html_url: Some("https://github.com/Rick1330/ibex-harness/actions/runs/99".into()),
    }
}

fn ranking_payload() -> RankingQualityBenchmarkData {
    RankingQualityBenchmarkData {
        schema_version: Some(1),
        benchmark: Some("ranking_quality".into()),
        runs: Some(vec![RankingQualityBenchmarkRun {
            sha: Some("abcdef1".into()),
            short_sha: Some("abcdef1".into()),
            timestamp: Some("2026-08-26T00:00:00Z".into()),
            branch: Some("main".into()),
            run_number: Some(3),
            run_url: Some("https://github.com/Rick1330/ibex-harness/actions/runs/99".into()),
            gold_set: Some("v1".into()),
            query_count: Some(10),
            memory_count: Some(20),
            metrics: Some(RankingQualityBenchmarkMetrics {
                precision_at_5: f(1.0),
                recall_at_10: f(1.0),
                mrr: f(1.0),
                expected_order_match: f(1.0),
                top_category_accuracy: None,
            }),
            status: Some("pass".into()),
            gate_summary: None,
        }]),
    }
}

fn extraction_payload() -> ExtractionQualityBenchmarkData {
    ExtractionQualityBenchmarkData {
        schema_version: Some(1),
        benchmark: Some("extraction_quality".into()),
        runs: Some(vec![ExtractionQualityBenchmarkRun {
            sha: Some("abcdef1".into()),
            short_sha: Some("abcdef1".into()),
            timestamp: Some("2026-09-03T00:00:00Z".into()),
            branch: Some("main".into()),
            run_number: Some(3),
            run_url: Some("https://github.com/Rick1330/ibex-harness/actions/runs/99".into()),
            gold_set: Some("v1".into()),
            conversation_count: Some(125),
            provider: Some("openai".into()),
            enforcement: Some("ci".into()),
            mode: Some("cassette".into()),
            model: Some("gpt-4o-mini".into()),
            metrics: Some(ExtractionQualityBenchmarkMetrics {
                precision_macro: f(1.0),
                recall_macro: f(1.0),
                category_assignment_accuracy: f(1.0),
                temporal_field_accuracy: f(1.0),
                precision_factual: f(1.0),
                recall_factual: f(1.0),
                ..Default::default()
            }),
            status: Some("pass".into()),
            gate_summary: None,
        }]),
    }
}

fn write_payload() -> WritePipelineBenchmarkData {
    WritePipelineBenchmarkData {
        schema_version: Some(1),
        benchmark: Some("write_pipeline".into()),
        runs: Some(vec![WritePipelineBenchmarkRun {
            sha: Some("abcdef1".into()),
            short_sha: Some("abcdef1".into()),
            timestamp: Some("2026-08-26T00:00:00Z".into()),
            branch: Some("main".into()),
            run_number: Some(3),
            run_url: Some("https://github.com/Rick1330/ibex-harness/actions/runs/99".into()),
            iterations: Some(50),
            metrics: Some(WritePipelineBenchmarkMetrics {
                latency_ms_p50: f(10.0),
                latency_ms_p95: f(50.0),
                latency_ms_p99: f(80.0),
            }),
            status: Some("pass".into()),
            gate_summary: None,
        }]),
    }
}

fn hnsw_payload() -> HnswBenchmarkData {
    HnswBenchmarkData {
        schema_version: Some(1),
        benchmark: Some("hnsw_recall_latency".into()),
        runs: Some(vec![HnswBenchmarkRun {
            sha: Some("abcdef1".into()),
            short_sha: Some("abcdef1".into()),
            timestamp: Some("2026-08-26T00:00:00Z".into()),
            branch: Some("main".into()),
            run_number: Some(3),
            run_url: Some("https://github.com/Rick1330/ibex-harness/actions/runs/99".into()),
            mean_recall_at_10: f(1.0),
            results: Some(vec![HnswSizeResult {
                corpus_size: Some(10_000),
                query_count: Some(50),
                recall_at_10: f(1.0),
                latency_ms_p50: f(1.0),
                latency_ms_p95: f(2.0),
                latency_ms_p99: f(3.0),
                ef_search: Some(40),
                ..Default::default()
            }]),
            status: None,
            gate_summary: None,
        }]),
    }
}

// ----- ranking quality -----

#[test]
fn ranking_quality_validate_accepts_valid_payload() {
    validate_ranking_quality_payload(&ranking_payload()).expect("valid");
}

#[test]
fn ranking_quality_validate_rejects_wrong_benchmark_name() {
    let mut payload = ranking_payload();
    payload.benchmark = Some("proxy".into());
    assert!(validate_ranking_quality_payload(&payload).is_err());
}

#[test]
fn ranking_quality_validate_cross_check_rejects_future_run_number_in_history() {
    let mut payload = ranking_payload();
    let template = payload.runs.as_ref().unwrap()[0].clone();
    payload.runs.as_mut().unwrap().push(RankingQualityBenchmarkRun {
        sha: Some("fedcba9".into()),
        short_sha: Some("fedcba9".into()),
        run_number: Some(999),
        ..template
    });
    let error = cross_check_ranking_quality_artifact_run(&payload, &verified_workflow(), 99, 3)
        .expect_err("future run_number must be rejected");
    assert!(error.message().contains("run_number exceeds"));
}

#[test]
fn cross_check_rejects_duplicate_sha_in_history() {
    let mut payload = ranking_payload();
    let duplicate = payload.runs.as_ref().unwrap()[0].clone();
    payload.runs.as_mut().unwrap().push(duplicate);
    let error = cross_check_ranking_quality_artifact_run(&payload, &verified_workflow(), 99, 3)
        .expect_err("duplicate sha must be rejected");
    assert!(error.message().contains("duplicates"));
}

#[test]
fn cross_check_rejects_run_url_that_only_contains_marker() {
    let mut payload = ranking_payload();
    payload.runs.as_mut().unwrap()[0].run_url =
        Some("https://evil.example/actions/runs/99/extra".into());
    let error = cross_check_ranking_quality_artifact_run(&payload, &verified_workflow(), 99, 3)
        .expect_err("run_url must match verified workflow html_url");
    assert!(error.message().contains("html_url"));
}

#[test]
fn ranking_quality_validate_cross_check_accepts_matching_workflow_html_url() {
    cross_check_ranking_quality_artifact_run(&ranking_payload(), &verified_workflow(), 99, 3)
        .expect("valid artifact cross-check");
}

#[test]
fn ranking_history_lookups() {
    let payload = ranking_payload();
    assert!(ranking_quality_published_sha_exists(&payload, "ABCDEF1"));
    assert!(!ranking_quality_published_sha_exists(&payload, "1234567"));
    assert_eq!(ranking_quality_max_published_run_number(&payload), Some(3));
}

#[test]
fn ranking_rejects_wrong_schema_with_message() {
    let mut payload = ranking_payload();
    payload.schema_version = Some(2);
    let error = validate_ranking_quality_payload(&payload).unwrap_err();
    assert_eq!(error.message(), "ranking-quality schema_version must be 1");
}

// ----- extraction quality -----

#[test]
fn extraction_quality_validate_accepts_valid_payload() {
    validate_extraction_quality_payload(&extraction_payload()).expect("valid");
}

#[test]
fn extraction_quality_validate_rejects_wrong_benchmark_name() {
    let mut payload = extraction_payload();
    payload.benchmark = Some("ranking_quality".into());
    assert!(validate_extraction_quality_payload(&payload).is_err());
}

#[test]
fn rejects_out_of_range_optional_metric() {
    let mut payload = extraction_payload();
    payload.runs.as_mut().unwrap()[0]
        .metrics
        .as_mut()
        .unwrap()
        .precision_factual = f(1.5);
    assert!(validate_extraction_quality_payload(&payload).is_err());
}

#[test]
fn extraction_quality_validate_cross_check_rejects_future_run_number_in_history() {
    let mut payload = extraction_payload();
    let template = payload.runs.as_ref().unwrap()[0].clone();
    payload.runs.as_mut().unwrap().push(ExtractionQualityBenchmarkRun {
        sha: Some("fedcba9".into()),
        short_sha: Some("fedcba9".into()),
        run_number: Some(999),
        ..template
    });
    let error = cross_check_extraction_quality_artifact_run(&payload, &verified_workflow(), 99, 3)
        .expect_err("future run_number must be rejected");
    assert!(error.message().contains("run_number exceeds"));
}

#[test]
fn extraction_quality_validate_cross_check_accepts_matching_workflow_html_url() {
    cross_check_extraction_quality_artifact_run(&extraction_payload(), &verified_workflow(), 99, 3)
        .expect("valid artifact cross-check");
}

#[test]
fn extraction_history_lookups() {
    let payload = extraction_payload();
    assert!(extraction_quality_published_sha_exists(&payload, "abcdef1"));
    assert_eq!(extraction_quality_max_published_run_number(&payload), Some(3));
}

// ----- write pipeline -----

#[test]
fn write_pipeline_validate_accepts_valid_payload() {
    validate_write_pipeline_payload(&write_payload()).expect("valid");
}

#[test]
fn write_pipeline_validate_rejects_wrong_benchmark_name() {
    let mut payload = write_payload();
    payload.benchmark = Some("proxy".into());
    assert!(validate_write_pipeline_payload(&payload).is_err());
}

#[test]
fn write_pipeline_cross_check_and_lookups() {
    let payload = write_payload();
    cross_check_write_pipeline_artifact_run(&payload, &verified_workflow(), 99, 3).expect("valid");
    let mut unlinked = verified_workflow();
    unlinked.html_url = None;
    cross_check_write_pipeline_artifact_run(&payload, &unlinked, 99, 3).expect("run id suffix");
    assert_eq!(
        cross_check_write_pipeline_artifact_run(&payload, &unlinked, 98, 3).unwrap_err().message(),
        "write-pipeline runs[0].run_url must reference dispatch run_id"
    );
    assert!(write_pipeline_published_sha_exists(&payload, "abcdef1"));
    assert_eq!(write_pipeline_max_published_run_number(&payload), Some(3));
}

// ----- hnsw -----

#[test]
fn hnsw_validate_accepts_valid_payload() {
    validate_hnsw_payload(&hnsw_payload()).expect("valid");
}

#[test]
fn hnsw_validate_rejects_wrong_benchmark_name() {
    let mut payload = hnsw_payload();
    payload.benchmark = Some("proxy".into());
    assert!(validate_hnsw_payload(&payload).is_err());
}

#[test]
fn hnsw_cross_check_binds_latest_run() {
    let payload = hnsw_payload();
    cross_check_hnsw_artifact_run(&payload, &verified_workflow(), 99, 3).expect("valid");
    assert!(cross_check_hnsw_artifact_run(&payload, &verified_workflow(), 99, 4).is_err());
    let mut other_host = hnsw_payload();
    other_host.runs.as_mut().unwrap()[0].run_url =
        Some("https://evil.example/actions/runs/99/extra".into());
    assert_eq!(
        cross_check_hnsw_artifact_run(&other_host, &verified_workflow(), 99, 3).unwrap_err().message(),
        "hnsw runs[0].run_url must match verified workflow html_url"
    );
    let mut unlinked = verified_workflow();
    unlinked.html_url = None;
    assert_eq!(
        cross_check_hnsw_artifact_run(&hnsw_payload(), &unlinked, 99, 3).unwrap_err().message(),
        "workflow html_url missing"
    );
}

fn cell(p: &mut HnswBenchmarkData) -> &mut HnswSizeResult {
    &mut p.runs.as_mut().unwrap()[0].results.as_mut().unwrap()[0]
}

#[test]
fn hnsw_validate_range_checks_optional_knobs() {
    let mut payload = hnsw_payload();
    cell(&mut payload).min_similarity = f(0.75);
    cell(&mut payload).shared_hit_blocks = Some(0);
    cell(&mut payload).latency_ms_p95_ci_low = f(1.5);
    validate_hnsw_payload(&payload).expect("knobs in range");

    let mut payload = hnsw_payload();
    cell(&mut payload).min_similarity = f(1.5);
    assert_eq!(
        validate_hnsw_payload(&payload).unwrap_err().message(),
        "runs[0].results[0].min_similarity out of range"
    );
    let mut payload = hnsw_payload();
    cell(&mut payload).ef_search = Some(0);
    assert_eq!(
        validate_hnsw_payload(&payload).unwrap_err().message(),
        "runs[0].results[0].ef_search out of range"
    );
    let mut payload = hnsw_payload();
    cell(&mut payload).query_count = Some(0);
    assert_eq!(
        validate_hnsw_payload(&payload).unwrap_err().message(),
        "runs[0].results[0].query_count out of range"
    );
    let mut payload = hnsw_payload();
    cell(&mut payload).latency_ms_p95_ci_high = f(f64::INFINITY);
    assert_eq!(
        validate_hnsw_payload(&payload).unwrap_err().message(),
        "runs[0].results[0].latency_ms_p95_ci_high invalid"
    );
    let mut payload = hnsw_payload();
    cell(&mut payload).row_count_verified = Some(-1);
    assert_eq!(
        validate_hnsw_payload(&payload).unwrap_err().message(),
        "runs[0].results[0].row_count_verified out of range"
    );
}
