use ibex_benchmark_bot::cli::{
    commit_status_for, comment_has_marker, empty_gate_result, ensure_comment_marker,
    existing_sticky_body, has_app_credentials, locked_repo, plan_commit_status,
    require_env_value, resolve_commit_sha, sticky_comment_action, CommentAction, IssueComment,
};
use ibex_benchmark_bot::float::F64Bits;
use ibex_benchmark_bot::github::{
    branch_ref_name, classify_lookup, contents_path, decode_contents, endpoint_path,
    find_artifact_id, find_pr_mentioning, github_json_accept, github_raw_accept,
    installation_token_url, app_jwt_window, create_app_jwt, put_file_body, split_repo, ArtifactSummary, Endpoint,
    FileContents, LookupOutcome, PutFileRequest, RepoRef,
};
use ibex_benchmark_bot::hnsw_validate::{hnsw_max_published_run_number, hnsw_published_sha_exists};
use ibex_benchmark_bot::model::{
    BenchmarkData, BenchmarkRun, GateCheck, GateResult, HnswBenchmarkData, HnswBenchmarkRun,
    WorkflowRun, WritePipelineBenchmarkData, WritePipelineBenchmarkRun,
};
use ibex_benchmark_bot::publish_flow::{
    publish_branch, PublishAction, PublishEvent, PublishKind, PublishState,
};
use ibex_benchmark_bot::publish::{
    commit_subject, data_pr_title, ensure_hnsw_not_replay, ensure_proxy_not_replay,
    ensure_write_pipeline_not_replay, pending_suite,
    require_pending, suite_labels, verified_head_sha, PendingSuites,
};

fn run_with(sha: &str, run_number: i64, status: Option<&str>) -> BenchmarkRun {
    BenchmarkRun {
        sha: Some(sha.to_string()),
        short_sha: None,
        branch: None,
        pr_number: None,
        status: status.map(str::to_string),
        run_number: Some(run_number),
        run_url: None,
        regression_vs_baseline_pct: None,
        go_version: None,
        runner_os: None,
        runner_cpu: None,
        runner_vcpus: None,
        runner_ram_gb: None,
        k6_version: None,
        k6: None,
        stages: None,
        go_benchmarks: None,
    }
}

fn history(runs: Vec<BenchmarkRun>) -> BenchmarkData {
    BenchmarkData { schema_version: Some(1), baseline_sha: Some("b".to_string()), runs: Some(runs) }
}

#[test]
fn repository_paths() {
    let repo = RepoRef::new("Rick1330", "ibex-harness");
    assert_eq!(repo.base_path(), "/repos/Rick1330/ibex-harness");
    assert_eq!(
        contents_path(&repo, "web/a.json", "main"),
        "/repos/Rick1330/ibex-harness/contents/web/a.json?ref=main"
    );
    assert_eq!(
        endpoint_path(&repo, &Endpoint::WorkflowRun { run_id: 99 }),
        "/repos/Rick1330/ibex-harness/actions/runs/99"
    );
    assert_eq!(
        endpoint_path(&repo, &Endpoint::OpenPullsFrom { branch: "chore/x" }),
        "/repos/Rick1330/ibex-harness/pulls?state=open&head=Rick1330:chore/x"
    );
    assert_eq!(
        endpoint_path(&repo, &Endpoint::IssueComment { comment_id: 5 }),
        "/repos/Rick1330/ibex-harness/issues/comments/5"
    );
    assert_eq!(branch_ref_name("chore/x"), "refs/heads/chore/x");
    assert_eq!(github_json_accept(), "application/vnd.github+json");
    assert_eq!(github_raw_accept(), "application/vnd.github.raw+json");
    assert_eq!(
        installation_token_url("42"),
        "https://api.github.com/app/installations/42/access_tokens"
    );
    assert_eq!(app_jwt_window(1000), (940, 1600));
    assert_eq!(app_jwt_window(10), (0, 610));
}

#[test]
fn repo_names_split_at_first_slash() {
    let (owner, repo) = split_repo("Rick1330/ibex-harness").unwrap();
    assert_eq!((owner.as_str(), repo.as_str()), ("Rick1330", "ibex-harness"));
    let (owner, repo) = split_repo("a/b/c").unwrap();
    assert_eq!((owner.as_str(), repo.as_str()), ("a", "b/c"));
    assert_eq!(split_repo("noslash").unwrap_err().message(), "invalid repo: noslash");
}

#[test]
fn lookups_and_artifacts() {
    assert_eq!(classify_lookup(404), LookupOutcome::Missing);
    assert_eq!(classify_lookup(204), LookupOutcome::Present);
    assert_eq!(classify_lookup(500), LookupOutcome::Failed);
    let items = vec![
        ArtifactSummary { name: Some("other".to_string()), id: Some(1) },
        ArtifactSummary { name: Some("benchmark-data".to_string()), id: Some(7) },
    ];
    assert_eq!(find_artifact_id(Some(&items), "benchmark-data").unwrap(), 7);
    assert_eq!(
        find_artifact_id(None, "benchmark-data").unwrap_err().message(),
        "artifacts list missing"
    );
    let none = vec![ArtifactSummary { name: Some("benchmark-data".to_string()), id: None }];
    assert_eq!(find_artifact_id(Some(&none), "benchmark-data").unwrap_err().message(), "artifact id missing");
    assert_eq!(
        find_artifact_id(Some(&items), "hnsw-benchmark-data").unwrap_err().message(),
        "hnsw-benchmark-data artifact not found"
    );
    let bodies = vec![None, Some("x abcdef1 y".to_string())];
    assert_eq!(find_pr_mentioning(&bodies, "abcdef1"), Some(1));
    assert_eq!(find_pr_mentioning(&bodies, "fffffff"), None);
}

#[test]
fn contents_are_decoded_from_base64() {
    match decode_contents(Some("base64"), Some("aGVs\nbG8=")).unwrap() {
        FileContents::Bytes(bytes) => assert_eq!(bytes, b"hello".to_vec()),
        FileContents::FetchRaw => panic!("expected bytes"),
    }
    assert!(matches!(decode_contents(Some("none"), Some("aGk=")).unwrap(), FileContents::FetchRaw));
    assert!(matches!(decode_contents(None, Some("")).unwrap(), FileContents::FetchRaw));
    let err = decode_contents(None, Some("@@@")).err().unwrap();
    assert!(err.message().starts_with("contents base64 decode failed: "));
    let body = put_file_body(&PutFileRequest {
        path: "p",
        branch: "b",
        bytes: b"hello",
        message: "m",
        file_sha: Some("s1"),
    });
    assert_eq!(body.content, "aGVsbG8=");
    assert_eq!(body.sha.as_deref(), Some("s1"));
}

#[test]
fn replay_guard_refuses_published_history() {
    let published = history(vec![run_with("abcdef1", 10, None), run_with("abcdef2", 12, None)]);
    assert!(ensure_proxy_not_replay(None, "abcdef1", 1).is_ok());
    assert_eq!(
        ensure_proxy_not_replay(Some(&published), "ABCDEF1", 20).unwrap_err().message(),
        "head_sha already published on main"
    );
    assert_eq!(
        ensure_proxy_not_replay(Some(&published), "abcdef3", 12).unwrap_err().message(),
        "run_number 12 is not newer than published max 12"
    );
    assert!(ensure_proxy_not_replay(Some(&published), "abcdef3", 13).is_ok());
}

fn hnsw_run(sha: &str, run_number: Option<i64>) -> HnswBenchmarkRun {
    HnswBenchmarkRun {
        sha: Some(sha.to_string()),
        short_sha: None,
        timestamp: None,
        branch: None,
        run_number,
        run_url: None,
        mean_recall_at_10: None,
        results: None,
        status: None,
        gate_summary: None,
    }
}

fn write_run(sha: &str, run_number: i64) -> WritePipelineBenchmarkRun {
    WritePipelineBenchmarkRun {
        sha: Some(sha.to_string()),
        short_sha: None,
        timestamp: None,
        branch: None,
        run_number: Some(run_number),
        run_url: None,
        iterations: None,
        metrics: None,
        status: None,
        gate_summary: None,
    }
}

#[test]
fn memory_suite_replay_guards_refuse_published_history() {
    let hnsw = HnswBenchmarkData {
        schema_version: Some(1),
        benchmark: None,
        runs: Some(vec![hnsw_run("abcdef1", Some(4)), hnsw_run("abcdef2", None), hnsw_run("abcdef3", Some(9))]),
    };
    assert!(hnsw_published_sha_exists(&hnsw, "ABCDEF2"));
    assert!(!hnsw_published_sha_exists(&hnsw, "abcdef4"));
    assert_eq!(hnsw_max_published_run_number(&hnsw), Some(9));
    let empty = HnswBenchmarkData { schema_version: None, benchmark: None, runs: None };
    assert_eq!(hnsw_max_published_run_number(&empty), None);
    assert!(!hnsw_published_sha_exists(&empty, "abcdef1"));
    assert_eq!(
        ensure_hnsw_not_replay(Some(&hnsw), "abcdef3", 50).unwrap_err().message(),
        "head_sha already published on main"
    );
    assert_eq!(
        ensure_hnsw_not_replay(Some(&hnsw), "abcdef5", 9).unwrap_err().message(),
        "run_number 9 is not newer than published max 9"
    );
    assert!(ensure_hnsw_not_replay(Some(&hnsw), "abcdef5", 10).is_ok());
    assert!(ensure_hnsw_not_replay(None, "abcdef1", 1).is_ok());

    let write = WritePipelineBenchmarkData {
        schema_version: Some(1),
        benchmark: None,
        runs: Some(vec![write_run("abcdef1", 7)]),
    };
    assert_eq!(
        ensure_write_pipeline_not_replay(Some(&write), "abcdef1", 8).unwrap_err().message(),
        "head_sha already published on main"
    );
    assert_eq!(
        ensure_write_pipeline_not_replay(Some(&write), "abcdef2", 6).unwrap_err().message(),
        "run_number 6 is not newer than published max 7"
    );
    assert!(ensure_write_pipeline_not_replay(Some(&write), "abcdef2", 8).is_ok());
    assert!(ensure_write_pipeline_not_replay(None, "abcdef2", 1).is_ok());
}

#[test]
fn pending_suites_shape_the_data_pr() {
    let empty = PendingSuites { proxy: None, hnsw: None, ranking: None, write: None, extraction: None };
    assert!(empty.is_empty());
    assert_eq!(data_pr_title(&empty), "chore(bench): publish benchmark data");
    assert_eq!(
        require_pending(&empty).unwrap_err().message(),
        "no pending benchmark suite files on shared data branch"
    );
    assert_eq!(suite_labels(&empty), vec!["automated"]);
    let both = PendingSuites {
        proxy: Some(history(vec![])),
        hnsw: Some(HnswBenchmarkData { schema_version: Some(1), benchmark: None, runs: None }),
        ranking: None,
        write: None,
        extraction: None,
    };
    assert!(!both.is_empty());
    assert!(require_pending(&both).is_ok());
    assert_eq!(data_pr_title(&both), "chore(bench): publish proxy and memory HNSW benchmark data");
    assert_eq!(suite_labels(&both), vec!["automated", "benchmark-data", "hnsw-benchmark-data"]);
    assert_eq!(pending_suite(Some(1), true, false), None);
    assert_eq!(pending_suite(Some(1), true, true), Some(1));
    assert_eq!(pending_suite(Some(1), false, false), Some(1));
    assert_eq!(pending_suite::<i32>(None, false, true), None);
    assert_eq!(
        commit_subject("proxy", 12),
        "chore(bench): proxy benchmark data update (run #12)"
    );
    for kind in [PublishKind::Proxy, PublishKind::Hnsw, PublishKind::WritePipeline] {
        assert_eq!(publish_branch(kind), "chore/bench-data-publish");
    }
    let run = WorkflowRun {
        conclusion: None,
        head_branch: None,
        head_sha: None,
        run_number: None,
        name: None,
        path: None,
        html_url: None,
    };
    assert_eq!(verified_head_sha(&run).unwrap_err().message(), "verified run missing head_sha");
}

#[test]
fn settings_and_repo_lock() {
    assert_eq!(require_env_value("APP_ID", Some(" 1 ")).unwrap(), " 1 ");
    assert_eq!(require_env_value("APP_ID", Some("  ")).unwrap_err().message(), "missing APP_ID");
    assert_eq!(require_env_value("APP_ID", None).unwrap_err().message(), "missing APP_ID");
    assert!(has_app_credentials(Some("1"), Some("k"), Some("2")));
    assert!(!has_app_credentials(Some("1"), Some(" "), Some("2")));
    assert!(locked_repo("evil/evil", false).is_err());
    assert_eq!(locked_repo("evil/evil", true).unwrap(), "evil/evil");
    let gate = empty_gate_result();
    assert!(gate.status.is_none() && gate.checks.unwrap().is_empty());
}

#[test]
fn sticky_comment_is_found_and_updated() {
    let comments = vec![
        IssueComment { id: Some(1), body: Some("hello".to_string()) },
        IssueComment { id: Some(2), body: Some("<!-- IBEX_BOT_COMMENT_HNSW -->\nold".to_string()) },
    ];
    assert!(comment_has_marker(&comments[1], "<!-- IBEX_BOT_COMMENT_HNSW -->"));
    assert_eq!(existing_sticky_body(&comments), "<!-- IBEX_BOT_COMMENT_HNSW -->\nold");
    match sticky_comment_action(&comments, "new body", "<!-- IBEX_BOT_COMMENT -->").unwrap() {
        CommentAction::Update { comment_id, body } => {
            assert_eq!(comment_id, 2);
            assert_eq!(body, "<!-- IBEX_BOT_COMMENT -->\nnew body");
        }
        CommentAction::Post { .. } => panic!("expected update"),
    }
    let none = vec![IssueComment { id: None, body: None }];
    assert_eq!(existing_sticky_body(&none), "");
    assert!(matches!(
        sticky_comment_action(&none, "x", "<!-- M -->").unwrap(),
        CommentAction::Post { .. }
    ));
    let no_id = vec![IssueComment { id: None, body: Some("<!-- IBEX_BOT_COMMENT -->".to_string()) }];
    assert_eq!(
        sticky_comment_action(&no_id, "x", "<!-- IBEX_BOT_COMMENT -->").err().unwrap().message(),
        "comment id missing"
    );
    assert_eq!(ensure_comment_marker("<!-- M --> body", "<!-- M -->"), "<!-- M --> body");
}

#[test]
fn commit_status_follows_run_and_gates() {
    let ok_gate = GateResult {
        status: None,
        regression_pct: None,
        checks: Some(vec![GateCheck { name: None, value: None, limit: None, ok: Some(true) }]),
    };
    let failed_gate = GateResult {
        status: None,
        regression_pct: Some(F64Bits(0)),
        checks: Some(vec![GateCheck { name: None, value: None, limit: None, ok: None }]),
    };
    assert_eq!(commit_status_for("pass", &ok_gate), ("success", "Benchmark gates passed"));
    assert_eq!(commit_status_for("pass", &failed_gate), ("failure", "Benchmark gate checks failed"));
    assert_eq!(
        commit_status_for("regression", &ok_gate),
        ("failure", "Performance regression vs baseline")
    );
    assert_eq!(commit_status_for("unknown", &ok_gate), ("error", "Benchmark status unknown"));
    assert_eq!(resolve_commit_sha(&run_with("abc", 1, None)), None);
    let plan = plan_commit_status(&history(vec![run_with("abcdef1", 1, None)]), &ok_gate).unwrap();
    assert_eq!((plan.sha.as_str(), plan.state), ("abcdef1", "error"));
    assert!(plan_commit_status(&history(vec![]), &ok_gate).is_none());
}

#[test]
fn publish_runs_follow_the_stage_order() {
    for kind in [PublishKind::Proxy, PublishKind::Hnsw] {
        let s = PublishState::start(kind, false);
        assert!(s.step(PublishEvent::ReplayChecked).is_err());
        let (s, a) = s.step(PublishEvent::Verified).unwrap();
        assert_eq!(a, PublishAction::CheckReplay);
        let (s, a) = s.step(PublishEvent::ReplayChecked).unwrap();
        assert_eq!(a, PublishAction::FindOpenPr);
        let (s, a) = s.step(PublishEvent::OpenPrFound(true)).unwrap();
        assert_eq!(a, PublishAction::CheckHeadOnBranch);
        let (s, a) = s.step(PublishEvent::HeadOnBranch(false)).unwrap();
        assert_eq!(a, PublishAction::FetchArtifact);
        let (s, a) = s.step(PublishEvent::ArtifactChecked).unwrap();
        assert_eq!(a, PublishAction::PrepareBranch);
        let (s, a) = s.step(PublishEvent::BranchReady).unwrap();
        assert_eq!(a, PublishAction::CommitFiles);
        let (s, a) = s.step(PublishEvent::Committed).unwrap();
        assert_eq!(a, PublishAction::PublishPr);
        let (_, a) = s.step(PublishEvent::PrPublished).unwrap();
        assert_eq!(a, PublishAction::FinishPublished);
    }
    let s = PublishState::start(PublishKind::Hnsw, true);
    let (s, _) = s.step(PublishEvent::Verified).unwrap();
    let (s, _) = s.step(PublishEvent::ReplayChecked).unwrap();
    let (s, a) = s.step(PublishEvent::OpenPrFound(false)).unwrap();
    assert_eq!(a, PublishAction::FetchArtifact);
    let (_, a) = s.step(PublishEvent::ArtifactChecked).unwrap();
    assert_eq!(a, PublishAction::FinishDryRun);
    let s = PublishState::start(PublishKind::Proxy, false);
    let (s, _) = s.step(PublishEvent::Verified).unwrap();
    let (s, _) = s.step(PublishEvent::ReplayChecked).unwrap();
    let (s, _) = s.step(PublishEvent::OpenPrFound(true)).unwrap();
    let (_, a) = s.step(PublishEvent::HeadOnBranch(true)).unwrap();
    assert_eq!(a, PublishAction::FinishSkipped);
}

#[test]
fn app_jwt_refuses_a_key_that_is_not_rsa_pem() {
    let err = create_app_jwt("12345", "not a key", 1_700_000_000).unwrap_err();
    assert!(err.message().starts_with("invalid app private key: "));
}
