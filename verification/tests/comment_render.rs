use ibex_benchmark_bot::float::F64Bits;
use ibex_benchmark_bot::model::{
    BenchmarkData, BenchmarkRun, GateCheck, GateResult, GateSummary, GoBenchmarks,
    HnswBenchmarkData, HnswBenchmarkRun, HnswSizeResult, K6Metrics, StageMetrics,
};
use ibex_benchmark_bot::render::{
    encode_suite_meta, ensure_comment_shell, extract_section_block, global_verdict,
    parse_suite_metas, rebuild_comment_shell, scrub_meta, suite_sort_key, upsert_section,
    SuiteMeta,
};
use ibex_benchmark_bot::sanitize::{COMMENT_MARKER, COMMENT_MARKER_HNSW};
use ibex_benchmark_bot::sections::{
    format_corpus_size, merge_hnsw_into_comment, merge_proxy_into_comment, render_data_pr_body,
    render_hnsw_data_pr_body, render_pr_comment, HnswFigures, HnswResultFigures, ProxyFigures,
};

fn f(x: f64) -> Option<F64Bits> {
    Some(F64Bits(x.to_bits()))
}

fn proxy_data() -> BenchmarkData {
    BenchmarkData {
        schema_version: Some(1),
        baseline_sha: Some("0123456789abcdef0123456789abcdef01234567".to_string()),
        runs: Some(vec![BenchmarkRun {
            sha: Some("abcdef1234567".to_string()),
            short_sha: Some("abcdef1".to_string()),
            branch: Some("main".to_string()),
            pr_number: Some(7),
            status: Some("pass".to_string()),
            run_number: Some(12),
            run_url: Some("https://github.com/Rick1330/ibex-harness/actions/runs/99".to_string()),
            regression_vs_baseline_pct: f(-1.5),
            go_version: Some("go1.22".to_string()),
            runner_os: Some("Linux".to_string()),
            runner_cpu: None,
            runner_vcpus: Some(4),
            runner_ram_gb: Some(16),
            k6_version: Some("v0.50".to_string()),
            k6: Some(K6Metrics {
                p50_ms: f(1.0),
                p95_ms: f(2.0),
                p99_ms: f(3.0),
                p999_ms: f(4.0),
                req_per_s: f(100.0),
                error_rate: f(0.0),
                check_rate: f(1.0),
            }),
            stages: Some(StageMetrics {
                auth_lru_p99_ms: f(0.5),
                auth_grpc_p99_ms: f(0.0),
                rate_limit_p99_ms: f(0.0),
                directive_resolve_p99_ms: f(0.0),
                prompt_inject_p99_ms: f(0.0),
                total_overhead_p99_ms: f(0.5),
            }),
            go_benchmarks: Some(GoBenchmarks { proxy_overhead_ns_per_op: f(1200.0) }),
        }]),
    }
}

fn figures() -> ProxyFigures {
    ProxyFigures {
        p99: "3.00 ms".to_string(),
        throughput: "100 req/s".to_string(),
        error_rate_pct: "0.00".to_string(),
        delta: "-1.5%".to_string(),
        overhead: "1.20 µs".to_string(),
        stage_auth_lru: "500 µs".to_string(),
        stage_grpc: "0 ns".to_string(),
        stage_rate_limit: "0 ns".to_string(),
        stage_directive: "0 ns".to_string(),
        stage_prompt: "0 ns".to_string(),
        gate_checks: vec![("3.000".to_string(), "20.000".to_string())],
    }
}

fn passing_gate() -> GateResult {
    GateResult {
        status: Some("pass".to_string()),
        regression_pct: f(0.0),
        checks: Some(vec![GateCheck {
            name: Some("p99".to_string()),
            value: f(3.0),
            limit: f(20.0),
            ok: Some(true),
        }]),
    }
}

fn hnsw_data() -> HnswBenchmarkData {
    HnswBenchmarkData {
        schema_version: Some(1),
        benchmark: Some("hnsw_recall_latency".to_string()),
        runs: Some(vec![HnswBenchmarkRun {
            sha: Some("abcdef1".to_string()),
            short_sha: Some("abcdef1".to_string()),
            timestamp: None,
            branch: None,
            run_number: Some(5),
            run_url: None,
            mean_recall_at_10: f(0.99),
            results: Some(vec![HnswSizeResult {
                corpus_size: Some(10000),
                recall_at_10: f(0.99),
                latency_ms_p95: f(1.2),
                ..Default::default()
            }]),
            status: Some("pass".to_string()),
            gate_summary: Some(GateSummary { has_1m: Some(false), note: None }),
        }]),
    }
}

fn hnsw_figures() -> HnswFigures {
    HnswFigures {
        mean_recall_3: "0.990".to_string(),
        mean_recall_4: "0.9900".to_string(),
        results: vec![HnswResultFigures {
            recall_3: "0.990".to_string(),
            recall_4: "0.9900".to_string(),
            p95_1: "1.2".to_string(),
            min_similarity_2: "0.70".to_string(),
        }],
    }
}

#[test]
fn render_pr_comment_uses_matrix_layout() {
    let body = render_pr_comment(&proxy_data(), &passing_gate(), &figures()).expect("render");
    assert!(body.starts_with(COMMENT_MARKER));
    assert!(body.contains("View IBEX dashboard"));
    assert!(body.contains("#### Suite matrix"));
    assert!(body.contains("| Suite | Primary SLA | vs Baseline | Status |"));
    assert!(body.contains("**Proxy**"));
    assert!(body.contains("<!-- IBEX_PROXY_START -->"));
    assert!(body.contains("<summary>Deep Dive: Proxy</summary>"));
    assert!(body.contains("<br>"));
    assert!(!body.contains("open>"));
    assert!(!body.contains("img.shields.io"));
    assert!(body.contains("Auth LRU `500 µs`"));
    assert!(!body.contains("gRPC"));
    assert!(body.contains("<!-- IBEX_ENV_START -->"));
    assert!(body.contains("<summary>Environment & meta</summary>"));
    assert!(body.contains("Linux (4 vCPU, 16GB RAM)"));
    assert!(body.contains("* **Total:** `1.20 µs`"));
    assert!(body.contains("✅ All benchmarks passed"));
    assert!(body.contains("Proxy P99 vs baseline: -1.5%."));
    assert!(!body.contains("```mermaid"));
    assert!(!body.contains("`[`"));
}

#[test]
fn render_pr_comment_hides_zero_stage_chips() {
    let mut data = proxy_data();
    data.runs.as_mut().unwrap()[0].stages = Some(StageMetrics {
        auth_lru_p99_ms: f(0.0),
        auth_grpc_p99_ms: f(0.0),
        rate_limit_p99_ms: f(0.0),
        directive_resolve_p99_ms: f(0.0),
        prompt_inject_p99_ms: f(0.0),
        total_overhead_p99_ms: f(0.0),
    });
    let body = render_pr_comment(&data, &passing_gate(), &figures()).expect("render");
    assert!(!body.contains("**Stages:**"));
    assert!(!body.contains("Auth LRU"));
}

#[test]
fn warn_gate_status_surfaces_warning_verdict() {
    let mut gate = passing_gate();
    gate.status = Some("warn".to_string());
    let body = render_pr_comment(&proxy_data(), &gate, &figures()).expect("render");
    assert!(body.contains("Benchmarks warning"));
    assert!(body.contains("<details open>"));
    assert!(body.contains("|proxy|Proxy|"));
    assert!(body.contains("|warn -->"));
}

#[test]
fn render_strips_phishing_gate_name() {
    let gate = GateResult {
        status: Some("pass".to_string()),
        regression_pct: f(0.0),
        checks: Some(vec![GateCheck {
            name: Some("[evil](https://evil.example)".to_string()),
            value: f(1.0),
            limit: f(1.0),
            ok: Some(true),
        }]),
    };
    // Stands in for the benchmark-data fixture, whose run records a k6
    // version the harness could not read.
    let mut data = proxy_data();
    data.runs.as_mut().unwrap()[0].k6_version = Some("invalid".to_string());
    let body = render_pr_comment(&data, &gate, &figures()).expect("render");
    assert!(!body.contains("evil.example"));
    assert!(body.contains("invalid"));
}

#[test]
fn failing_phishing_gate_is_listed_under_its_sanitized_name() {
    let gate = GateResult {
        status: Some("pass".to_string()),
        regression_pct: f(0.0),
        checks: Some(vec![GateCheck {
            name: Some("[evil](https://evil.example)".to_string()),
            value: f(1.0),
            limit: f(1.0),
            ok: Some(false),
        }]),
    };
    let body = render_pr_comment(&proxy_data(), &gate, &figures()).expect("render");
    assert!(!body.contains("evil.example"));
    assert!(body.contains("| invalid |"));
    assert!(body.contains("**Failed gates (1)**"));
    assert!(body.contains("❌ Benchmarks failed"));
}

#[test]
fn merge_keeps_proxy_and_hnsw_in_one_matrix_comment() {
    let proxy = render_pr_comment(&proxy_data(), &passing_gate(), &figures()).expect("proxy");
    let body = merge_hnsw_into_comment(&proxy, &hnsw_data(), &hnsw_figures()).expect("merge");
    assert_eq!(body.matches(COMMENT_MARKER).count(), 1);
    assert!(!body.contains(COMMENT_MARKER_HNSW));
    assert!(body.contains("✅ All benchmarks passed"));
    assert!(body.contains("**Proxy**"));
    assert!(body.contains("**Memory HNSW**"));
    assert!(body.contains("<summary>Deep Dive: Memory HNSW</summary>"));
    assert!(body.contains("1M:** Deferred"));
    assert!(body.contains("* **10K:** Recall `0.990` · p95 `1.2 ms`"));
    let proxy_idx = body.find("<!-- IBEX_PROXY_START -->").expect("proxy section");
    let hnsw_idx = body.find("<!-- IBEX_HNSW_START -->").expect("hnsw section");
    assert!(proxy_idx < hnsw_idx);

    let hnsw_first = merge_hnsw_into_comment("", &hnsw_data(), &hnsw_figures()).expect("hnsw first");
    let proxy_second =
        merge_proxy_into_comment(&hnsw_first, &proxy_data(), &passing_gate(), &figures())
            .expect("proxy second");
    let proxy_idx = proxy_second.find("<!-- IBEX_PROXY_START -->").expect("proxy section");
    let hnsw_idx = proxy_second.find("<!-- IBEX_HNSW_START -->").expect("hnsw section");
    assert!(proxy_idx < hnsw_idx);
    assert!(proxy_second.contains("| Suite | Primary SLA | vs Baseline | Status |"));
}

#[test]
fn hnsw_gate_note_is_sanitized() {
    let mut hnsw = hnsw_data();
    hnsw.runs.as_mut().unwrap()[0].gate_summary = Some(GateSummary {
        has_1m: Some(false),
        note: Some("[click](https://evil.example) then |pipe|".to_string()),
    });
    let body = merge_hnsw_into_comment("", &hnsw, &hnsw_figures()).expect("merge");
    assert!(!body.contains("](https://evil.example)"));
    assert!(body.contains(r"\|"));
    assert!(body.contains("\n> "));
}

#[test]
fn legacy_hnsw_marker_is_folded_into_shared_marker() {
    let shell = ensure_comment_shell("<!-- IBEX_BOT_COMMENT_HNSW -->\nold");
    assert_eq!(shell, "<!-- IBEX_BOT_COMMENT -->\nold");
    assert_eq!(ensure_comment_shell("  "), COMMENT_MARKER);
    assert_eq!(ensure_comment_shell("text"), "<!-- IBEX_BOT_COMMENT -->\n\ntext");
}

#[test]
fn sections_are_replaced_in_place_or_appended() {
    let body = upsert_section("head", "<!-- S -->", "<!-- E -->", "  one  ");
    assert_eq!(body, "head\n\n<!-- S -->\none\n<!-- E -->\n");
    let again = upsert_section(&body, "<!-- S -->", "<!-- E -->", "two");
    assert_eq!(again, "head\n\n<!-- S -->\ntwo\n<!-- E -->\n");
    assert_eq!(
        extract_section_block(&again, "<!-- S -->", "<!-- E -->").unwrap(),
        "<!-- S -->\ntwo\n<!-- E -->"
    );
    assert!(extract_section_block("no markers", "<!-- S -->", "<!-- E -->").is_none());
}

#[test]
fn section_written_is_section_read_and_rewriting_changes_nothing() {
    let body = "intro\n<!-- S -->\nold\n<!-- E -->\ntail";
    let once = upsert_section(body, "<!-- S -->", "<!-- E -->", "\n fresh \n");
    assert_eq!(once, "intro\n<!-- S -->\nfresh\n<!-- E -->\ntail");
    assert_eq!(
        extract_section_block(&once, "<!-- S -->", "<!-- E -->").unwrap(),
        "<!-- S -->\nfresh\n<!-- E -->"
    );
    let twice = upsert_section(&once, "<!-- S -->", "<!-- E -->", "\n fresh \n");
    assert_eq!(twice, once);
    let appended = upsert_section("plain  \n", "<!-- S -->", "<!-- E -->", "x");
    assert_eq!(upsert_section(&appended, "<!-- S -->", "<!-- E -->", "x"), appended);
}

fn meta(id: &str, status: &str, delta: &str) -> SuiteMeta {
    SuiteMeta {
        id: id.to_string(),
        name: id.to_uppercase(),
        primary: "`1` (P99)".to_string(),
        delta: delta.to_string(),
        status: status.to_string(),
    }
}

#[test]
fn suite_meta_round_trips() {
    let m = SuiteMeta {
        id: "proxy".to_string(),
        name: "Proxy|x".to_string(),
        primary: " `3 ms` (P99) ".to_string(),
        delta: "+1.0%".to_string(),
        status: "regression".to_string(),
    };
    let line = encode_suite_meta(&m);
    assert_eq!(line, "<!-- IBEX_SUITE|proxy|Proxy/x|`3 ms` (P99)|+1.0%|regression -->");
    let parsed = parse_suite_metas(&format!("intro\r\n  {line}  \nrest"));
    assert_eq!(parsed.len(), 1);
    assert_eq!(parsed[0].name, "Proxy/x");
    assert_eq!(parsed[0].primary, "`3 ms` (P99)");
    assert_eq!(parsed[0].status, "regression");
    assert_eq!(scrub_meta(" a\u{7}|b "), "a/b");
}

#[test]
fn parsed_metas_are_ordered_and_deduplicated() {
    let body = [
        encode_suite_meta(&meta("other", "pass", "—")),
        encode_suite_meta(&meta("hnsw", "pass", "—")),
        encode_suite_meta(&meta("proxy", "weird", "n/a")),
        encode_suite_meta(&meta("proxy", "fail", "n/a")),
    ]
    .join("\n");
    let metas = parse_suite_metas(&body);
    let ids: Vec<&str> = metas.iter().map(|m| m.id.as_str()).collect();
    assert_eq!(ids, vec!["proxy", "hnsw", "other"]);
    assert_eq!(metas[0].status, "unknown");
    assert_eq!(suite_sort_key("hnsw"), 1);
    assert_eq!(suite_sort_key("x"), 9);
    let (title, tldr) = global_verdict(&metas);
    assert_eq!(title, "IBEX benchmarks");
    assert_eq!(tldr, "Suite results updated; status is incomplete or unknown.");
    let (title, _) = global_verdict(&vec![]);
    assert_eq!(title, "IBEX benchmarks");
    let (title, _) = global_verdict(&vec![meta("hnsw", "regression", "—")]);
    assert_eq!(title, "⚠️ Benchmarks regressed");
}

#[test]
fn rebuilt_comment_orders_sections() {
    let body = "<!-- IBEX_ENV_START -->\nenv\n<!-- IBEX_ENV_END -->\n<!-- IBEX_HNSW_START -->\nh\n<!-- IBEX_HNSW_END -->\n<!-- IBEX_PROXY_START -->\np\n<!-- IBEX_PROXY_END -->";
    let rebuilt = rebuild_comment_shell(body);
    let p = rebuilt.find("<!-- IBEX_PROXY_START -->").unwrap();
    let h = rebuilt.find("<!-- IBEX_HNSW_START -->").unwrap();
    let e = rebuilt.find("<!-- IBEX_ENV_START -->").unwrap();
    assert!(rebuilt.starts_with("<!-- IBEX_BOT_COMMENT -->\n\n"));
    assert!(p < h && h < e);
    assert!(rebuilt.ends_with("<sub>Generated by IBEX Benchmark Bot</sub>\n</div>"));
    assert!(rebuilt.contains("Waiting for suite results."));
}

#[test]
fn corpus_sizes_are_abbreviated() {
    assert_eq!(format_corpus_size(10_000), "10K");
    assert_eq!(format_corpus_size(2_500_000), "2M");
    assert_eq!(format_corpus_size(999), "999");
}

#[test]
fn data_pr_bodies_list_their_suites() {
    let proxy = render_data_pr_body(&proxy_data(), &figures(), Some("https://run/1"), Some(12));
    assert!(proxy.contains("Suites in this PR: **Proxy**."));
    assert!(proxy.contains("| Run number | 12 |"));
    assert!(proxy.contains("| Head SHA | abcdef1 |"));
    assert!(proxy.contains("**Status:** ✅ **PASS**"));
    assert!(proxy.contains("- [Harness Benchmarks workflow run](https://run/1)"));
    let hnsw = render_hnsw_data_pr_body(&hnsw_data(), &hnsw_figures(), None, 5);
    assert!(hnsw.contains("Suites in this PR: **Memory HNSW**."));
    assert!(hnsw.contains("| Mean recall@10 | ```0.9900``` |"));
    assert!(hnsw.contains("| 10000 | 0.9900 | 1.2ms | — | — | — | — |"));
    assert!(hnsw.ends_with("- [ ] Single shared data PR branch `chore/bench-data-publish`"));
}

#[test]
fn merging_one_suite_keeps_the_other_suites_section() {
    let (hs, he) = ("<!-- IBEX_HNSW_START -->", "<!-- IBEX_HNSW_END -->");
    let (ps, pe) = ("<!-- IBEX_PROXY_START -->", "<!-- IBEX_PROXY_END -->");
    let hnsw_first = merge_hnsw_into_comment("", &hnsw_data(), &hnsw_figures()).expect("hnsw");
    let hnsw_block = extract_section_block(&hnsw_first, hs, he).expect("hnsw section");
    let both = merge_proxy_into_comment(&hnsw_first, &proxy_data(), &passing_gate(), &figures())
        .expect("proxy");
    assert_eq!(extract_section_block(&both, hs, he), Some(hnsw_block.clone()));
    let proxy_block = extract_section_block(&both, ps, pe).expect("proxy section");
    let again = merge_hnsw_into_comment(&both, &hnsw_data(), &hnsw_figures()).expect("hnsw again");
    assert_eq!(extract_section_block(&again, ps, pe), Some(proxy_block));
    assert_eq!(extract_section_block(&again, hs, he), Some(hnsw_block));
    assert_eq!(again, both);
}

#[test]
fn reposting_the_same_hnsw_suite_leaves_the_comment_unchanged() {
    let c1 = merge_hnsw_into_comment("", &hnsw_data(), &hnsw_figures()).expect("first");
    let c2 = merge_hnsw_into_comment(&c1, &hnsw_data(), &hnsw_figures()).expect("again");
    assert_eq!(c2, c1);
}
