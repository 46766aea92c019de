use ibex_benchmark_bot::config::{
    harness_repo_override_enabled, resolve_harness_repo, EXPECTED_HARNESS_REPO,
    EXPECTED_WORKFLOW_NAME, EXPECTED_WORKFLOW_PATH,
};
use ibex_benchmark_bot::float::F64Bits;
use ibex_benchmark_bot::model::{BenchmarkData, BenchmarkRun, DispatchPayload, K6Metrics, WorkflowRun};
use ibex_benchmark_bot::validate::{
    cross_check_artifact_run, max_published_run_number, published_sha_exists, validate_payload,
};
use ibex_benchmark_bot::verify::{
    parse_i64_field, parse_payload_json, payload_from_fields, require_sha, verify_dispatched_run,
    verify_hnsw_workflow_run, verify_workflow_run, JsonField,
};

fn f(x: f64) -> Option<F64Bits> {
    Some(F64Bits(x.to_bits()))
}

fn proxy_run(sha: &str, run_number: i64, run_url: &str) -> BenchmarkRun {
    BenchmarkRun {
        sha: Some(sha.to_string()),
        short_sha: Some(sha.to_string()),
        branch: Some("main".to_string()),
        pr_number: None,
        status: Some("pass".to_string()),
        run_number: Some(run_number),
        run_url: Some(run_url.to_string()),
        regression_vs_baseline_pct: f(0.0),
        go_version: None,
        runner_os: None,
        runner_cpu: None,
        runner_vcpus: None,
        runner_ram_gb: None,
        k6_version: None,
        k6: Some(K6Metrics {
            p50_ms: f(1.0),
            p95_ms: f(2.0),
            p99_ms: f(3.0),
            p999_ms: f(4.0),
            req_per_s: f(100.0),
            error_rate: f(0.0),
            check_rate: f(1.0),
        }),
        stages: None,
        go_benchmarks: None,
    }
}

fn proxy_data(runs: Vec<BenchmarkRun>) -> BenchmarkData {
    BenchmarkData { schema_version: Some(1), baseline_sha: Some("abc".to_string()), runs: Some(runs) }
}

#[test]
fn rejects_run_number_equal_to_run_id() {
    let payload = BenchmarkData {
        schema_version: Some(1),
        baseline_sha: Some("abc".to_string()),
        runs: Some(vec![proxy_run("abc123", 12345, "https://github.com/o/r/actions/runs/12345")]),
    };
    assert!(validate_payload(&payload).is_err());
}

#[test]
fn proxy_payload_accepts_distinct_run_number() {
    let payload = proxy_data(vec![proxy_run("abc123", 7, "https://github.com/o/r/actions/runs/12345")]);
    assert!(validate_payload(&payload).is_ok());
}

#[test]
fn proxy_payload_reports_each_failure() {
    let mut payload = proxy_data(vec![proxy_run("abc123", 7, "https://github.com/o/r/actions/runs/1")]);
    payload.runs.as_mut().unwrap()[0].k6.as_mut().unwrap().p99_ms = f(600.0);
    assert_eq!(validate_payload(&payload).unwrap_err().message(), "runs[0].k6.p99_ms out of bounds");

    let mut payload = proxy_data(vec![proxy_run("abc123", 7, "https://github.com/o/r/actions/runs/1")]);
    payload.runs.as_mut().unwrap()[0].k6.as_mut().unwrap().p99_ms = f(f64::NAN);
    assert_eq!(validate_payload(&payload).unwrap_err().message(), "runs[0].k6.p99_ms out of bounds");

    let mut payload = proxy_data(vec![proxy_run("abc123", 7, "https://github.com/o/r/actions/runs/1")]);
    payload.runs.as_mut().unwrap()[0].k6.as_mut().unwrap().error_rate = f(1.5);
    assert_eq!(validate_payload(&payload).unwrap_err().message(), "runs[0].k6.error_rate out of bounds");

    let mut payload = proxy_data(vec![proxy_run("abc123", 7, "https://github.com/o/r/actions/runs/1")]);
    payload.runs.as_mut().unwrap()[0].status = Some("maybe".to_string());
    assert_eq!(validate_payload(&payload).unwrap_err().message(), "runs[0].status invalid: maybe");

    let payload = proxy_data(vec![
        proxy_run("abc123", 7, "https://github.com/o/r/actions/runs/1"),
        proxy_run("abc123", 6, "https://github.com/o/r/actions/runs/2"),
    ]);
    assert_eq!(validate_payload(&payload).unwrap_err().message(), "duplicate sha: abc123");

    let mut payload = proxy_data(vec![]);
    payload.baseline_sha = Some(String::new());
    assert_eq!(validate_payload(&payload).unwrap_err().message(), "baseline_sha required");

    let mut payload = proxy_data(vec![proxy_run("abc123", 0, "x")]);
    payload.runs.as_mut().unwrap()[0].run_number = Some(0);
    assert_eq!(validate_payload(&payload).unwrap_err().message(), "runs[0].run_number out of bounds: 0");
}

#[test]
fn proxy_history_lookups_and_binding() {
    let html = "https://github.com/Rick1330/ibex-harness/actions/runs/99";
    let payload = proxy_data(vec![
        proxy_run("abcdef1", 3, html),
        proxy_run("abcdef0", 2, "https://github.com/Rick1330/ibex-harness/actions/runs/98"),
    ]);
    assert!(published_sha_exists(&payload, "ABCDEF0"));
    assert!(!published_sha_exists(&payload, "abcdef9"));
    assert_eq!(max_published_run_number(&payload), Some(3));
    let workflow = WorkflowRun {
        conclusion: Some("success".into()),
        head_branch: Some("main".into()),
        head_sha: Some("abcdef1".into()),
        run_number: Some(3),
        name: Some("Benchmarks".into()),
        path: Some(".github/workflows/benchmark.yml".into()),
        html_url: Some(html.into()),
    };
    cross_check_artifact_run(&payload, &workflow, 99, 3).expect("bound");
    assert!(cross_check_artifact_run(&payload, &workflow, 99, 4).is_err());
    let mut other_host = payload.clone();
    other_host.runs.as_mut().unwrap()[0].run_url =
        Some("https://evil.example/actions/runs/99/extra".to_string());
    assert_eq!(
        cross_check_artifact_run(&other_host, &workflow, 99, 3).unwrap_err().message(),
        "runs[0].run_url must match verified workflow html_url"
    );
}

fn valid_run() -> WorkflowRun {
    WorkflowRun {
        conclusion: Some("success".to_string()),
        head_branch: Some("main".to_string()),
        head_sha: Some("abc1234".to_string()),
        run_number: Some(42),
        name: Some(EXPECTED_WORKFLOW_NAME.to_string()),
        path: Some(EXPECTED_WORKFLOW_PATH.to_string()),
        html_url: Some("https://github.com/o/r/actions/runs/1".to_string()),
    }
}

#[test]
fn rejects_fuzzy_workflow_name() {
    let mut run = valid_run();
    run.name = Some("evil-benchmark".to_string());
    assert!(verify_workflow_run(&run).is_err());
}

#[test]
fn rejects_wrong_workflow_path() {
    let mut run = valid_run();
    run.path = Some(".github/workflows/evil.yml".to_string());
    assert!(verify_workflow_run(&run).is_err());
}

#[test]
fn rejects_non_success_conclusion() {
    let mut run = valid_run();
    run.conclusion = Some("failure".to_string());
    assert!(verify_workflow_run(&run).is_err());
}

#[test]
fn accepts_expected_workflow_and_reports_messages() {
    assert!(verify_workflow_run(&valid_run()).is_ok());
    let mut run = valid_run();
    run.head_branch = Some("dev".to_string());
    assert_eq!(verify_workflow_run(&run).unwrap_err().message(), "run head_branch must be main");
    assert!(verify_hnsw_workflow_run(&valid_run()).is_err());
}

#[test]
fn parse_payload_requires_fields() {
    assert!(parse_payload_json(r#"{"run_id":1}"#).is_err());
}

#[test]
fn parse_payload_reads_json_members() {
    assert_eq!(parse_payload_json(r#"{"run_id":1}"#).unwrap_err().message(), "run_number missing");
    let p = parse_payload_json(r#"{"run_id":"99","run_number":7,"head_sha":"abc1234"}"#).expect("payload");
    assert_eq!((p.run_id, p.run_number, p.head_sha.as_str()), (99, 7, "abc1234"));
    assert_eq!(
        parse_payload_json(r#"{"run_id":1.5,"run_number":7,"head_sha":"abc1234"}"#)
            .unwrap_err()
            .message(),
        "run_id must be an integer"
    );
    assert_eq!(
        parse_payload_json(r#"{"run_id":1,"run_number":7,"head_sha":12}"#).unwrap_err().message(),
        "head_sha missing"
    );
    assert!(parse_payload_json("not json")
        .unwrap_err()
        .message()
        .starts_with("invalid dispatch payload: "));
    let missing = payload_from_fields(&JsonField::Integer(1), &JsonField::Missing, None);
    assert_eq!(missing.unwrap_err().message(), "run_number missing");
}

#[test]
fn payload_fields_accept_integer_text() {
    let p = payload_from_fields(
        &JsonField::Text("12".to_string()),
        &JsonField::Integer(3),
        Some("abc1234".to_string()),
    )
    .expect("payload");
    assert_eq!(p.run_id, 12);
    assert_eq!(p.run_number, 3);
    assert_eq!(p.head_sha, "abc1234");
    assert_eq!(
        parse_i64_field(&JsonField::Text("x1".to_string()), "run_id").unwrap_err().message(),
        "run_id must be an integer"
    );
}

#[test]
fn require_sha_rejects_invalid() {
    assert!(require_sha("not-hex").is_err());
}

#[test]
fn require_sha_cleans_valid_sha() {
    assert_eq!(require_sha("  ABCDEF1 ").unwrap(), "abcdef1");
}

#[test]
fn dispatched_run_must_match_payload() {
    let payload = DispatchPayload { run_id: 1, head_sha: "ABC1234".to_string(), run_number: 42 };
    assert!(verify_dispatched_run(&valid_run(), &payload).is_ok());
    let other = DispatchPayload { run_id: 1, head_sha: "abc1234".to_string(), run_number: 41 };
    assert_eq!(
        verify_dispatched_run(&valid_run(), &other).unwrap_err().message(),
        "run_number mismatch with Actions API"
    );
}

#[test]
fn rejects_unexpected_repo_without_override() {
    assert!(resolve_harness_repo("evil/evil", false).is_err());
}

#[test]
fn accepts_expected_repo_without_override() {
    assert_eq!(resolve_harness_repo(EXPECTED_HARNESS_REPO, false).unwrap(), EXPECTED_HARNESS_REPO);
}

#[test]
fn empty_override_does_not_bypass_lock() {
    let enabled = harness_repo_override_enabled(Some(""));
    assert!(!enabled);
    assert!(resolve_harness_repo("evil/evil", enabled).is_err());
}

#[test]
fn truthy_override_allows_any_repo() {
    let enabled = harness_repo_override_enabled(Some(" true "));
    assert!(enabled);
    assert_eq!(resolve_harness_repo("evil/evil", enabled).unwrap(), "evil/evil");
}
