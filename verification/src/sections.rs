//! The suite sections of the sticky comment, merging them into an existing
//! comment, and the body of the shared data PR.
//!
//! Measurements are floating-point values; their text is produced by the
//! caller and handed in as figures. Every decision (which run, which status,
//! which lines appear) is taken here.

use vstd::prelude::*;

use crate::config::{BADGE_PATH, BENCHMARK_DATA_PATH, HNSW_BENCHMARK_DATA_PATH};
use crate::float::gt_zero;
use crate::markdown::{
    join, markdown_table, markdown_table_spec, rows_view, str_views, views, LineWriter,
};
use crate::model::{
    BenchmarkData, BenchmarkRun, GateCheck, GateResult, HnswBenchmarkData, HnswBenchmarkRun,
    HnswSizeResult, StageMetrics,
};
use crate::render::{
    comment_shell, details_open, details_open_attr, encode_suite_meta, encoded_meta, extracted,
    section_span,
    ensure_comment_shell, normalize_status, normalized_status, rebuild_comment_shell,
    rebuilt_comment, upsert_section, upserted, SuiteMeta,
};
use crate::sanitize::{
    ENV_SECTION_END, ENV_SECTION_START, HNSW_SECTION_END, HNSW_SECTION_START, PROXY_SECTION_END,
    PROXY_SECTION_START, escape_cell, escaped_cell, sanitize_gate_name, sanitize_sha, sanitized_gate_name,
    sanitized_sha, status_emoji, status_emoji_spec,
};
use crate::text::{decimal_int, eq_str, i64_to_string, to_uppercase, trim, unicode_uppercase};

verus! {

/// Texts of the first proxy run's measurements.
pub struct ProxyFigures {
    /// The k6 p99 latency.
    pub p99: String,
    /// The k6 request rate.
    pub throughput: String,
    /// The k6 error rate as a percentage.
    pub error_rate_pct: String,
    /// The regression against the baseline.
    pub delta: String,
    /// The Go proxy overhead per operation.
    pub overhead: String,
    /// The p99 of each proxy stage.
    pub stage_auth_lru: String,
    pub stage_grpc: String,
    pub stage_rate_limit: String,
    pub stage_directive: String,
    pub stage_prompt: String,
    /// Value and limit of each gate check, in check order.
    pub gate_checks: Vec<(String, String)>,
}

pub open spec fn opt_text(o: Option<String>) -> Option<Seq<char>> {
    match o {
        Some(s) => Some(s@),
        None => None,
    }
}

pub open spec fn first_proxy_run(data: BenchmarkData) -> Option<BenchmarkRun> {
    match data.runs {
        Some(rs) => if rs@.len() > 0 {
            Some(rs@[0])
        } else {
            None
        },
        None => None,
    }
}

pub open spec fn check_failed(c: GateCheck) -> bool {
    c.ok != Some(true)
}

/// The threshold checks that did not pass.
pub open spec fn failed_checks(gate: GateResult) -> Seq<GateCheck> {
    match gate.checks {
        Some(cs) => cs@.filter(|c: GateCheck| check_failed(c)),
        None => Seq::empty(),
    }
}

pub fn count_gate_failures(gate: &GateResult) -> (n: usize)
    ensures
        n == failed_checks(*gate).len(),
{
    match &gate.checks {
        None => 0,
        Some(cs) => {
            let mut n: usize = 0;
            let mut i: usize = 0;
            while i < cs.len()
                invariant
                    i <= cs@.len(),
                    n == cs@.subrange(0, i as int).filter(|c: GateCheck| check_failed(c)).len(),
                    n <= i,
                decreases cs.len() - i,
            {
                proof {
                    cs@.subrange(0, i as int).lemma_filter_push(cs@[i as int], |c: GateCheck| check_failed(c));
                    assert(cs@.subrange(0, i + 1) =~= cs@.subrange(0, i as int).push(cs@[i as int]));
                }
                if cs[i].ok != Some(true) {
                    n = n + 1;
                }
                i = i + 1;
            }
            assert(cs@.subrange(0, cs@.len() as int) =~= cs@);
            n
        },
    }
}

/// The value and limit texts of check `j`.
pub open spec fn gate_figure(figs: Seq<(String, String)>, j: int) -> (Seq<char>, Seq<char>) {
    if 0 <= j < figs.len() {
        (figs[j].0@, figs[j].1@)
    } else {
        ("—"@, "—"@)
    }
}

/// A gate check as a table row.
pub open spec fn gate_row(c: GateCheck, value: Seq<char>, limit: Seq<char>) -> Seq<Seq<char>> {
    seq![
        sanitized_gate_name(opt_text(c.name)),
        value,
        limit,
        if c.ok == Some(true) {
            "✅ Pass"@
        } else {
            "❌ Fail"@
        },
    ]
}

/// The rows of the failed checks among the first `n`.
pub open spec fn failed_rows(checks: Seq<GateCheck>, figs: Seq<(String, String)>, n: int) -> Seq<
    Seq<Seq<char>>,
>
    decreases n,
{
    if n <= 0 || n > checks.len() {
        Seq::empty()
    } else {
        let before = failed_rows(checks, figs, n - 1);
        let c = checks[n - 1];
        if check_failed(c) {
            let f = gate_figure(figs, n - 1);
            before.push(gate_row(c, f.0, f.1))
        } else {
            before
        }
    }
}

/// The failed-gates table has one row per check that did not pass, in the
/// checks' order, each marked as failing and named by the check's sanitised
/// name.
pub proof fn lemma_failed_rows_list_failed_checks(checks: Seq<GateCheck>, figs: Seq<(String, String)>, n: int)
    requires
        0 <= n <= checks.len(),
    ensures
        failed_rows(checks, figs, n).len() == checks.subrange(0, n).filter(|c: GateCheck| c.ok != Some(true)).len(),
        forall|k: int|
            0 <= k < failed_rows(checks, figs, n).len() ==> (#[trigger] failed_rows(checks, figs, n)[k])[3]
                == "❌ Fail"@ && exists|i: int| 0 <= i < n && checks[i].ok != Some(true)
                && failed_rows(checks, figs, n)[k][0] == sanitized_gate_name(opt_text(checks[i].name)),
    decreases n,
{
    let pred = |c: GateCheck| c.ok != Some(true);
    if n > 0 {
        lemma_failed_rows_list_failed_checks(checks, figs, n - 1);
        assert(checks.subrange(0, n) =~= checks.subrange(0, n - 1).push(checks[n - 1]));
        checks.subrange(0, n - 1).lemma_filter_push(checks[n - 1], pred);
        let before = failed_rows(checks, figs, n - 1);
        let rows = failed_rows(checks, figs, n);
        assert forall|k: int| 0 <= k < rows.len() implies (#[trigger] rows[k])[3] == "❌ Fail"@ && exists|i: int|
            0 <= i < n && checks[i].ok != Some(true) && rows[k][0] == sanitized_gate_name(
                opt_text(checks[i].name),
            ) by {
            if k < before.len() {
                assert(rows[k] == before[k]);
                let i = choose|i: int| 0 <= i < n - 1 && checks[i].ok != Some(true) && before[k][0]
                    == sanitized_gate_name(opt_text(checks[i].name));
                assert(0 <= i < n);
            } else {
                assert(rows[k] == gate_row(checks[n - 1], gate_figure(figs, n - 1).0, gate_figure(figs, n - 1).1));
                assert(checks[n - 1].ok != Some(true));
            }
        }
    } else {
        assert(checks.subrange(0, 0) =~= Seq::<GateCheck>::empty());
    }
}

pub open spec fn gate_table_headers() -> Seq<Seq<char>> {
    seq!["Check"@, "Value"@, "Threshold"@, "Result"@]
}

/// The table of failed gate checks, or a note when there is none.
pub open spec fn failed_gates_text(gate: GateResult, figs: Seq<(String, String)>) -> Seq<char> {
    match gate.checks {
        None => "_No gate checks available._"@,
        Some(cs) => {
            let rows = failed_rows(cs@, figs, cs@.len() as int);
            if rows.len() == 0 {
                "_No failed gates._"@
            } else {
                markdown_table_spec(gate_table_headers(), rows, true)
            }
        },
    }
}

fn gate_check_row(check: &GateCheck, value: &str, limit: &str) -> (r: Vec<String>)
    ensures
        views(r@) == gate_row(*check, value@, limit@),
{
    let name = match &check.name {
        Some(n) => sanitize_gate_name(Some(n.as_str())),
        None => sanitize_gate_name(None),
    };
    let result = if check.ok == Some(true) {
        String::from_str("✅ Pass")
    } else {
        String::from_str("❌ Fail")
    };
    let row: Vec<String> = vec![name, String::from_str(value), String::from_str(limit), result];
    assert(views(row@) =~= gate_row(*check, value@, limit@));
    row
}

pub fn render_failed_gates_only(gate: &GateResult, figs: &Vec<(String, String)>) -> (r: String)
    ensures
        r@ == failed_gates_text(*gate, figs@),
{
    let checks = match &gate.checks {
        None => return String::from_str("_No gate checks available._"),
        Some(cs) => cs,
    };
    let mut rows: Vec<Vec<String>> = Vec::new();
    let mut i: usize = 0;
    while i < checks.len()
        invariant
            i <= checks@.len(),
            rows_view(rows@) == failed_rows(checks@, figs@, i as int),
        decreases checks.len() - i,
    {
        if checks[i].ok != Some(true) {
            let (value, limit) = if i < figs.len() {
                (figs[i].0.as_str(), figs[i].1.as_str())
            } else {
                ("—", "—")
            };
            let row = gate_check_row(&checks[i], value, limit);
            let ghost before = rows@;
            rows.push(row);
            assert(rows_view(rows@) =~= rows_view(before).push(views(row@)));
        }
        i = i + 1;
    }
    if rows.len() == 0 {
        return String::from_str("_No failed gates._");
    }
    let headers: Vec<&str> = vec!["Check", "Value", "Threshold", "Result"];
    assert(str_views(headers@) =~= gate_table_headers());
    markdown_table(&headers, &rows)
}

/// A stage chip, shown only for a positive latency.
pub open spec fn stage_chip(name: Seq<char>, value: Option<crate::float::F64Bits>, text: Seq<char>) -> Seq<
    Seq<char>,
> {
    match value {
        Some(v) => if gt_zero(v.0) {
            seq![name + " `"@ + text + "`"@]
        } else {
            Seq::empty()
        },
        None => Seq::empty(),
    }
}

/// The stage chips of a run, joined with a middle dot; none when no stage
/// has a positive latency.
pub open spec fn stage_chips(stages: Option<StageMetrics>, f: ProxyFigures) -> Option<Seq<char>> {
    match stages {
        None => None,
        Some(s) => {
            let chips = stage_chip("Auth LRU"@, s.auth_lru_p99_ms, f.stage_auth_lru@) + stage_chip(
                "gRPC"@,
                s.auth_grpc_p99_ms,
                f.stage_grpc@,
            ) + stage_chip("Rate limit"@, s.rate_limit_p99_ms, f.stage_rate_limit@) + stage_chip(
                "Directive"@,
                s.directive_resolve_p99_ms,
                f.stage_directive@,
            ) + stage_chip("Prompt"@, s.prompt_inject_p99_ms, f.stage_prompt@);
            if chips.len() == 0 {
                None
            } else {
                Some(join(chips, " · "@))
            }
        },
    }
}

/// The stage line lists only stages whose p99 is above zero, and is left out
/// exactly when no stage is.
pub proof fn lemma_stage_chips_only_positive(stages: Option<StageMetrics>, f: ProxyFigures)
    ensures
        stages matches Some(s) ==> (stage_chips(stages, f) is None <==> !(s.auth_lru_p99_ms matches Some(
            v,
        ) && gt_zero(v.0)) && !(s.auth_grpc_p99_ms matches Some(v) && gt_zero(v.0)) && !(
        s.rate_limit_p99_ms matches Some(v) && gt_zero(v.0)) && !(s.directive_resolve_p99_ms matches Some(
            v,
        ) && gt_zero(v.0)) && !(s.prompt_inject_p99_ms matches Some(v) && gt_zero(v.0))),
        stages is None ==> stage_chips(stages, f) is None,
{
}

fn push_chip(
    chips: &mut Vec<String>,
    name: &str,
    value: Option<crate::float::F64Bits>,
    text: &str,
)
    ensures
        views(final(chips)@) == views(old(chips)@) + stage_chip(name@, value, text@),
{
    let ghost before = chips@;
    if let Some(v) = value {
        if v.is_gt_zero() {
            let mut chip = String::from_str(name);
            chip.append(" `");
            chip.append(text);
            chip.append("`");
            chips.push(chip);
            assert(views(chips@) =~= views(before) + stage_chip(name@, value, text@));
            return;
        }
    }
    assert(views(chips@) =~= views(before) + stage_chip(name@, value, text@));
}

pub fn render_stage_chips(stages: &Option<StageMetrics>, f: &ProxyFigures) -> (r: Option<String>)
    ensures
        opt_text(r) == stage_chips(*stages, *f),
{
    let s = match stages {
        None => return None,
        Some(s) => s,
    };
    let mut chips: Vec<String> = Vec::new();
    push_chip(&mut chips, "Auth LRU", s.auth_lru_p99_ms, f.stage_auth_lru.as_str());
    push_chip(&mut chips, "gRPC", s.auth_grpc_p99_ms, f.stage_grpc.as_str());
    push_chip(&mut chips, "Rate limit", s.rate_limit_p99_ms, f.stage_rate_limit.as_str());
    push_chip(&mut chips, "Directive", s.directive_resolve_p99_ms, f.stage_directive.as_str());
    push_chip(&mut chips, "Prompt", s.prompt_inject_p99_ms, f.stage_prompt.as_str());
    assert(views(Seq::<String>::empty()) =~= Seq::<Seq<char>>::empty());
    if chips.len() == 0 {
        None
    } else {
        Some(crate::markdown::join_strings(&chips, " · "))
    }
}

/// The run's Go proxy overhead is reported and positive.
pub open spec fn has_overhead(run: BenchmarkRun) -> bool {
    run.go_benchmarks matches Some(g) && (g.proxy_overhead_ns_per_op matches Some(v) && gt_zero(
        v.0,
    ))
}

fn overhead_reported(run: &BenchmarkRun) -> (r: bool)
    ensures
        r == has_overhead(*run),
{
    match &run.go_benchmarks {
        Some(g) => match g.proxy_overhead_ns_per_op {
            Some(v) => v.is_gt_zero(),
            None => false,
        },
        None => false,
    }
}

/// The status the proxy section shows: failed gates win, then a failing or
/// warning gate status, then the run's own status.
pub open spec fn proxy_status(run: BenchmarkRun, gate: GateResult) -> Seq<char> {
    let raw = if failed_checks(gate).len() > 0 {
        "fail"@
    } else if gate.status matches Some(s) && (s@ == "fail"@ || s@ == "warn"@) {
        gate.status.unwrap()@
    } else {
        match run.status {
            Some(s) => s@,
            None => "unknown"@,
        }
    };
    normalized_status(raw)
}

/// The proxy suite's status: any gate check that did not pass, or a gate
/// that says "fail", makes the suite fail, whatever the run says; a gate that
/// says "warn" with every check passed makes it warn; otherwise the run's own
/// status stands, as one of the known statuses.
pub proof fn lemma_proxy_status_follows_gate(run: BenchmarkRun, gate: GateResult)
    ensures
        (gate.checks matches Some(cs) && exists|i: int| 0 <= i < cs@.len() && #[trigger] cs@[i].ok
            != Some(true)) ==> proxy_status(run, gate) == "fail"@,
        (gate.status matches Some(s) && s@ == "fail"@) ==> proxy_status(run, gate) == "fail"@,
        (gate.checks matches Some(cs) ==> forall|i: int| 0 <= i < cs@.len() ==> #[trigger] cs@[i].ok
            == Some(true)) && (gate.status matches Some(s) && s@ == "warn"@) ==> proxy_status(run, gate)
            == "warn"@,
        proxy_status(run, gate) == "pass"@ || proxy_status(run, gate) == "fail"@ || proxy_status(run, gate)
            == "warn"@ || proxy_status(run, gate) == "regression"@ || proxy_status(run, gate)
            == "unknown"@,
{
    if gate.checks matches Some(cs) && exists|i: int| 0 <= i < cs@.len() && #[trigger] cs@[i].ok != Some(true) {
        let cs = gate.checks.unwrap();
        let i = choose|i: int| 0 <= i < cs@.len() && #[trigger] cs@[i].ok != Some(true);
        cs@.lemma_filter_contains(|c: GateCheck| check_failed(c), i);
        assert(failed_checks(gate).len() > 0);
    }
    if gate.checks matches Some(cs) ==> forall|i: int| 0 <= i < cs@.len() ==> #[trigger] cs@[i].ok == Some(true) {
        if let Some(cs) = gate.checks {
            assert(cs@.filter(|c: GateCheck| check_failed(c)) =~= Seq::<GateCheck>::empty()) by {
                cs@.lemma_filter_len(|c: GateCheck| check_failed(c));
                if cs@.filter(|c: GateCheck| check_failed(c)).len() > 0 {
                    let x = cs@.filter(|c: GateCheck| check_failed(c))[0];
                    cs@.lemma_filter_pred(|c: GateCheck| check_failed(c), 0);
                    assert(cs@.filter(|c: GateCheck| check_failed(c)).contains(x));
                    cs@.lemma_filter_contains_rev(|c: GateCheck| check_failed(c), x);
                }
            }
        }
    }
}

pub open spec fn proxy_meta(status: Seq<char>, f: ProxyFigures) -> crate::render::MetaView {
    ("proxy"@, "Proxy"@, "`"@ + f.p99@ + "` (P99)"@, f.delta@, status)
}

/// The lines of the proxy deep dive.
pub open spec fn proxy_section_lines(run: BenchmarkRun, gate: GateResult, f: ProxyFigures) -> Seq<
    Seq<char>,
> {
    let status = proxy_status(run, gate);
    let failures = failed_checks(gate).len();
    seq![
        encoded_meta(proxy_meta(status, f)),
        "<details"@ + details_open(status) + ">\n<summary>Deep Dive: Proxy</summary>\n<br>\n"@,
        "**Load test (k6)**"@,
        "* **P99:** `"@ + f.p99@ + "` *(SLA < 20 ms)*"@,
        "* **Throughput:** `"@ + f.throughput@ + "`"@,
        "* **Error rate:** `"@ + f.error_rate_pct@ + "%`"@,
        ""@,
        "**Synthetic overhead (Go)**"@,
        if has_overhead(run) {
            "* **Total:** `"@ + f.overhead@ + "`"@
        } else {
            "* **Total:** —"@
        },
    ] + match stage_chips(run.stages, f) {
        Some(c) => seq!["* **Stages:** "@ + c],
        None => Seq::empty(),
    } + if failures > 0 {
        seq![
            ""@,
            "**Failed gates ("@ + decimal_int(failures as int) + ")**"@,
            ""@,
            failed_gates_text(gate, f.gate_checks@),
        ]
    } else {
        Seq::empty()
    } + seq![
        ""@,
        "_k6 P99 is the SLA. Stage / ns/op values are synthetic Go microbenchmarks, not live traces._"@,
        "</details>"@,
    ]
}

/// The proxy deep dive reports how many gate checks did not pass, whenever
/// any did.
pub proof fn lemma_proxy_section_counts_failed_gates(run: BenchmarkRun, gate: GateResult, f: ProxyFigures)
    ensures
        gate.checks is Some && gate.checks.unwrap()@.filter(|c: GateCheck| c.ok != Some(true)).len() > 0
            ==> proxy_section_lines(run, gate, f).contains(
            "**Failed gates ("@ + decimal_int(
                gate.checks.unwrap()@.filter(|c: GateCheck| c.ok != Some(true)).len() as int,
            ) + ")**"@,
        ),
{
    if let Some(cs) = gate.checks {
        let p1 = |c: GateCheck| check_failed(c);
        let p2 = |c: GateCheck| c.ok != Some(true);
        assert(p1 =~= p2);
        let n = cs@.filter(p2).len();
        if n > 0 {
            assert(failed_checks(gate).len() == n);
            let lines = proxy_section_lines(run, gate, f);
            let head = seq![
                encoded_meta(proxy_meta(proxy_status(run, gate), f)),
                "<details"@ + details_open(proxy_status(run, gate)) + ">\n<summary>Deep Dive: Proxy</summary>\n<br>\n"@,
                "**Load test (k6)**"@,
                "* **P99:** `"@ + f.p99@ + "` *(SLA < 20 ms)*"@,
                "* **Throughput:** `"@ + f.throughput@ + "`"@,
                "* **Error rate:** `"@ + f.error_rate_pct@ + "%`"@,
                ""@,
                "**Synthetic overhead (Go)**"@,
                if has_overhead(run) {
                    "* **Total:** `"@ + f.overhead@ + "`"@
                } else {
                    "* **Total:** —"@
                },
            ] + match stage_chips(run.stages, f) {
                Some(c) => seq!["* **Stages:** "@ + c],
                None => Seq::empty(),
            };
            assert(lines[head.len() + 1int] == "**Failed gates ("@ + decimal_int(n as int) + ")**"@);
        }
    }
}

/// The proxy deep dive, or why it cannot be rendered.
pub open spec fn proxy_section(data: BenchmarkData, gate: GateResult, f: ProxyFigures) -> Result<
    Seq<char>,
    Seq<char>,
> {
    match first_proxy_run(data) {
        None => Err("benchmark data has no runs"@),
        Some(run) => Ok(join(proxy_section_lines(run, gate, f), "\n"@)),
    }
}

pub open spec fn text_result(r: Result<String, String>) -> Result<Seq<char>, Seq<char>> {
    match r {
        Ok(s) => Ok(s@),
        Err(e) => Err(e@),
    }
}

fn derive_proxy_status(run: &BenchmarkRun, gate: &GateResult) -> (r: &'static str)
    ensures
        r@ == proxy_status(*run, *gate),
{
    let raw: &str = if count_gate_failures(gate) > 0 {
        "fail"
    } else {
        match &gate.status {
            Some(s) => if eq_str(s.as_str(), "fail") || eq_str(s.as_str(), "warn") {
                s.as_str()
            } else {
                match &run.status {
                    Some(rs) => rs.as_str(),
                    None => "unknown",
                }
            },
            None => match &run.status {
                Some(rs) => rs.as_str(),
                None => "unknown",
            },
        }
    };
    normalize_status(raw)
}

pub fn render_proxy_section(data: &BenchmarkData, gate: &GateResult, f: &ProxyFigures) -> (r: Result<
    String,
    String,
>)
    ensures
        text_result(r) == proxy_section(*data, *gate, *f),
{
    proof {
        reveal_strlit("");
    }
    let run = match &data.runs {
        Some(rs) => if rs.len() > 0 {
            &rs[0]
        } else {
            return Err(String::from_str("benchmark data has no runs"));
        },
        None => return Err(String::from_str("benchmark data has no runs")),
    };
    let status = derive_proxy_status(run, gate);
    let mut primary = String::from_str("`");
    primary.append(f.p99.as_str());
    primary.append("` (P99)");
    let meta = SuiteMeta {
        id: String::from_str("proxy"),
        name: String::from_str("Proxy"),
        primary,
        delta: f.delta.clone(),
        status: String::from_str(status),
    };
    let mut w = LineWriter::new();
    w.push(encode_suite_meta(&meta).as_str());
    let mut details = String::from_str("<details");
    details.append(details_open_attr(status));
    details.append(">\n<summary>Deep Dive: Proxy</summary>\n<br>\n");
    w.push(details.as_str());
    w.push("**Load test (k6)**");
    let mut p99 = String::from_str("* **P99:** `");
    p99.append(f.p99.as_str());
    p99.append("` *(SLA < 20 ms)*");
    w.push(p99.as_str());
    let mut thr = String::from_str("* **Throughput:** `");
    thr.append(f.throughput.as_str());
    thr.append("`");
    w.push(thr.as_str());
    let mut err = String::from_str("* **Error rate:** `");
    err.append(f.error_rate_pct.as_str());
    err.append("%`");
    w.push(err.as_str());
    w.push("");
    w.push("**Synthetic overhead (Go)**");
    if overhead_reported(run) {
        let mut total = String::from_str("* **Total:** `");
        total.append(f.overhead.as_str());
        total.append("`");
        w.push(total.as_str());
    } else {
        w.push("* **Total:** —");
    }
    let ghost head = w.lines();
    if let Some(chips) = render_stage_chips(&run.stages, f) {
        let mut line = String::from_str("* **Stages:** ");
        line.append(chips.as_str());
        w.push(line.as_str());
    }
    let ghost with_chips = w.lines();
    let failures = count_gate_failures(gate);
    if failures > 0 {
        w.push("");
        let mut heading = String::from_str("**Failed gates (");
        heading.append(crate::text::usize_to_string(failures).as_str());
        heading.append(")**");
        w.push(heading.as_str());
        w.push("");
        w.push(render_failed_gates_only(gate, &f.gate_checks).as_str());
    }
    let ghost with_gates = w.lines();
    w.push("");
    w.push(
        "_k6 P99 is the SLA. Stage / ns/op values are synthetic Go microbenchmarks, not live traces._",
    );
    w.push("</details>");
    proof {
        assert(meta@ == proxy_meta(status@, *f));
        assert(crate::text::decimal(failures as nat) == decimal_int(failures as int));
        let lines = proxy_section_lines(*run, *gate, *f);
        assert(w.lines() =~= lines);
    }
    Ok(w.finish())
}

// ---------------------------------------------------------------------------
// Memory HNSW section
// ---------------------------------------------------------------------------
/// Texts of one HNSW result cell's measurements.
pub struct HnswResultFigures {
    /// Recall@10 to three decimals.
    pub recall_3: String,
    /// Recall@10 to four decimals.
    pub recall_4: String,
    /// p95 latency in milliseconds to one decimal.
    pub p95_1: String,
    /// Minimum similarity to two decimals.
    pub min_similarity_2: String,
}

/// Texts of the first HNSW run's measurements.
pub struct HnswFigures {
    /// Mean recall@10 to three decimals.
    pub mean_recall_3: String,
    /// Mean recall@10 to four decimals.
    pub mean_recall_4: String,
    /// One entry per result cell, in order.
    pub results: Vec<HnswResultFigures>,
}

pub open spec fn first_hnsw_run(data: HnswBenchmarkData) -> Option<HnswBenchmarkRun> {
    match data.runs {
        Some(rs) => if rs@.len() > 0 {
            Some(rs@[0])
        } else {
            None
        },
        None => None,
    }
}

/// `10000` as `10K`, `1000000` as `1M`.
pub open spec fn corpus_size_text(size: i64) -> Seq<char> {
    if size >= 1_000_000 {
        decimal_int(size as int / 1_000_000) + "M"@
    } else if size >= 1_000 {
        decimal_int(size as int / 1_000) + "K"@
    } else {
        decimal_int(size as int)
    }
}

pub fn format_corpus_size(size: i64) -> (r: String)
    ensures
        r@ == corpus_size_text(size),
{
    if size >= 1_000_000 {
        let mut s = i64_to_string(size / 1_000_000);
        s.append("M");
        s
    } else if size >= 1_000 {
        let mut s = i64_to_string(size / 1_000);
        s.append("K");
        s
    } else {
        i64_to_string(size)
    }
}

/// The figures of result `j`, empty when the caller gave none.
pub open spec fn result_figure(figs: Seq<HnswResultFigures>, j: int) -> (Seq<char>, Seq<char>, Seq<
    char,
>, Seq<char>) {
    if 0 <= j < figs.len() {
        (figs[j].recall_3@, figs[j].recall_4@, figs[j].p95_1@, figs[j].min_similarity_2@)
    } else {
        (""@, ""@, ""@, ""@)
    }
}

/// The deep-dive line of one result cell.
pub open spec fn hnsw_result_line(r: HnswSizeResult, f: (Seq<char>, Seq<char>, Seq<char>, Seq<char>)) -> Seq<
    char,
> {
    let size = match r.corpus_size {
        Some(n) => corpus_size_text(n),
        None => "—"@,
    };
    let recall = if r.recall_at_10 is Some {
        "`"@ + f.0 + "`"@
    } else {
        "`n/a`"@
    };
    let p95 = if r.latency_ms_p95 is Some {
        "`"@ + f.2 + " ms`"@
    } else {
        "`n/a`"@
    };
    "* **"@ + size + ":** Recall "@ + recall + " · p95 "@ + p95
}

pub open spec fn hnsw_result_lines(
    results: Seq<HnswSizeResult>,
    figs: Seq<HnswResultFigures>,
    n: int,
) -> Seq<Seq<char>>
    decreases n,
{
    if n <= 0 || n > results.len() {
        Seq::empty()
    } else {
        hnsw_result_lines(results, figs, n - 1).push(
            hnsw_result_line(results[n - 1], result_figure(figs, n - 1)),
        )
    }
}

pub open spec fn run_results(run: HnswBenchmarkRun) -> Seq<HnswSizeResult> {
    match run.results {
        Some(rs) => rs@,
        None => Seq::empty(),
    }
}

/// The 1M corpus was deferred: its summary says `has_1m: false`.
pub open spec fn deferred_1m(run: HnswBenchmarkRun) -> bool {
    run.gate_summary matches Some(g) && g.has_1m == Some(false)
}

/// The note of the run summary, when it is a non-empty string.
pub open spec fn gate_note(run: HnswBenchmarkRun) -> Option<Seq<char>> {
    match run.gate_summary {
        Some(g) => match g.note {
            Some(n) => if n@.len() > 0 {
                Some(n@)
            } else {
                None
            },
            None => None,
        },
        None => None,
    }
}

pub open spec fn hnsw_meta(run: HnswBenchmarkRun, f: HnswFigures) -> crate::render::MetaView {
    let status = normalized_status(
        match run.status {
            Some(s) => s@,
            None => "unknown"@,
        },
    );
    let mean = if run.mean_recall_at_10 is Some {
        f.mean_recall_3@
    } else {
        "n/a"@
    };
    ("hnsw"@, "Memory HNSW"@, "`"@ + mean + "` (Recall@10)"@, "—"@, status)
}

pub open spec fn hnsw_section_lines(run: HnswBenchmarkRun, f: HnswFigures) -> Seq<Seq<char>> {
    let meta = hnsw_meta(run, f);
    let results = run_results(run);
    seq![
        encoded_meta(meta),
        "<details"@ + details_open(meta.4) + ">
<summary>Deep Dive: Memory HNSW</summary>
<br>
"@,
    ] + hnsw_result_lines(results, f.results@, results.len() as int) + if deferred_1m(run) {
        seq!["* **1M:** Deferred *(smoke/fast — Sunday/full only)*"@]
    } else {
        Seq::empty()
    } + seq!["* **Knobs:** `ef=40`, `min_sim=0.70`, `iter=off`, bulk index"@] + match gate_note(
        run,
    ) {
        Some(n) => seq!["
> "@ + escaped_cell(Some(n))],
        None => Seq::empty(),
    } + seq!["</details>"@]
}

pub open spec fn hnsw_section(data: HnswBenchmarkData, f: HnswFigures) -> Result<Seq<char>, Seq<char>> {
    match first_hnsw_run(data) {
        None => Err("hnsw benchmark data has no runs"@),
        Some(run) => Ok(join(hnsw_section_lines(run, f), "
"@)),
    }
}

proof fn lemma_hnsw_result_lines(results: Seq<HnswSizeResult>, figs: Seq<HnswResultFigures>, n: int)
    requires
        0 <= n <= results.len(),
    ensures
        hnsw_result_lines(results, figs, n).len() == n,
        forall|k: int|
            0 <= k < n ==> #[trigger] hnsw_result_lines(results, figs, n)[k] == hnsw_result_line(
                results[k],
                result_figure(figs, k),
            ),
    decreases n,
{
    if n > 0 {
        lemma_hnsw_result_lines(results, figs, n - 1);
    }
}

/// The HNSW deep dive lists every result cell of the latest run, one line
/// each, in the cells' order: after the meta line and the summary opener
/// come exactly `results.len()` cell lines, then the 1M line when the 1M
/// corpus was deferred, the knobs line, the note when there is one, and the
/// closing tag.
pub proof fn lemma_hnsw_section_lists_every_cell(run: HnswBenchmarkRun, f: HnswFigures)
    ensures
        hnsw_section_lines(run, f).len() == 2 + run_results(run).len() + (if deferred_1m(run) {
            1int
        } else {
            0int
        }) + 1 + (if gate_note(run) is Some {
            1int
        } else {
            0int
        }) + 1,
        forall|k: int|
            0 <= k < run_results(run).len() ==> #[trigger] hnsw_section_lines(run, f)[2 + k]
                == hnsw_result_line(run_results(run)[k], result_figure(f.results@, k)),
        hnsw_section_lines(run, f)[2 + run_results(run).len() as int] == if deferred_1m(run) {
            "* **1M:** Deferred *(smoke/fast — Sunday/full only)*"@
        } else {
            "* **Knobs:** `ef=40`, `min_sim=0.70`, `iter=off`, bulk index"@
        },
{
    let results = run_results(run);
    lemma_hnsw_result_lines(results, f.results@, results.len() as int);
    let cells = hnsw_result_lines(results, f.results@, results.len() as int);
    let lines = hnsw_section_lines(run, f);
    assert forall|k: int| 0 <= k < results.len() implies #[trigger] lines[2 + k] == hnsw_result_line(
        results[k],
        result_figure(f.results@, k),
    ) by {
        assert(lines[2 + k] == cells[k]);
    }
}

fn hnsw_result_text(r: &HnswSizeResult, figs: &Vec<HnswResultFigures>, j: usize) -> (t: String)
    ensures
        t@ == hnsw_result_line(*r, result_figure(figs@, j as int)),
{
    proof {
        reveal_strlit("");
    }
    let (recall_3, p95_1): (&str, &str) = if j < figs.len() {
        (figs[j].recall_3.as_str(), figs[j].p95_1.as_str())
    } else {
        ("", "")
    };
    let size = match r.corpus_size {
        Some(n) => format_corpus_size(n),
        None => String::from_str("—"),
    };
    let mut t = String::from_str("* **");
    t.append(size.as_str());
    t.append(":** Recall ");
    if r.recall_at_10.is_some() {
        t.append("`");
        t.append(recall_3);
        t.append("`");
    } else {
        t.append("`n/a`");
    }
    t.append(" · p95 ");
    if r.latency_ms_p95.is_some() {
        t.append("`");
        t.append(p95_1);
        t.append(" ms`");
    } else {
        t.append("`n/a`");
    }
    t
}

pub fn render_hnsw_section(data: &HnswBenchmarkData, f: &HnswFigures) -> (r: Result<String, String>)
    ensures
        text_result(r) == hnsw_section(*data, *f),
{
    proof {
        reveal_strlit("");
    }
    let run = match &data.runs {
        Some(rs) => if rs.len() > 0 {
            &rs[0]
        } else {
            return Err(String::from_str("hnsw benchmark data has no runs"));
        },
        None => return Err(String::from_str("hnsw benchmark data has no runs")),
    };
    let status = match &run.status {
        Some(s) => normalize_status(s.as_str()),
        None => normalize_status("unknown"),
    };
    let mean: &str = if run.mean_recall_at_10.is_some() {
        f.mean_recall_3.as_str()
    } else {
        "n/a"
    };
    let mut primary = String::from_str("`");
    primary.append(mean);
    primary.append("` (Recall@10)");
    let meta = SuiteMeta {
        id: String::from_str("hnsw"),
        name: String::from_str("Memory HNSW"),
        primary,
        delta: String::from_str("—"),
        status: String::from_str(status),
    };
    assert(meta@ == hnsw_meta(*run, *f));
    let mut w = LineWriter::new();
    w.push(encode_suite_meta(&meta).as_str());
    let mut details = String::from_str("<details");
    details.append(details_open_attr(status));
    details.append(">
<summary>Deep Dive: Memory HNSW</summary>
<br>
");
    w.push(details.as_str());
    let ghost head = w.lines();
    match &run.results {
        Some(results) => {
            let mut j: usize = 0;
            while j < results.len()
                invariant
                    j <= results@.len(),
                    w.wf(),
                    w.lines() == head + hnsw_result_lines(results@, f.results@, j as int),
                decreases results.len() - j,
            {
                let line = hnsw_result_text(&results[j], &f.results, j);
                w.push(line.as_str());
                j = j + 1;
                assert(w.lines() =~= head + hnsw_result_lines(results@, f.results@, j as int));
            }
        },
        None => {
            assert(w.lines() =~= head + hnsw_result_lines(run_results(*run), f.results@, 0));
        },
    }
    let deferred = match &run.gate_summary {
        Some(g) => g.has_1m == Some(false),
        None => false,
    };
    if deferred {
        w.push("* **1M:** Deferred *(smoke/fast — Sunday/full only)*");
    }
    w.push("* **Knobs:** `ef=40`, `min_sim=0.70`, `iter=off`, bulk index");
    let note: Option<&str> = match &run.gate_summary {
        Some(g) => match &g.note {
            Some(n) => if !n.as_str().is_empty() {
                Some(n.as_str())
            } else {
                None
            },
            None => None,
        },
        None => None,
    };
    if let Some(n) = note {
        let mut line = String::from_str("
> ");
        line.append(escape_cell(Some(n)).as_str());
        w.push(line.as_str());
    }
    w.push("</details>");
    proof {
        let results = run_results(*run);
        assert(head =~= seq![
            encoded_meta(hnsw_meta(*run, *f)),
            "<details"@ + details_open(hnsw_meta(*run, *f).4) + ">\n<summary>Deep Dive: Memory HNSW</summary>\n<br>\n"@,
        ]);
        assert(deferred == deferred_1m(*run));
    }
    assert(w.lines() =~= hnsw_section_lines(*run, *f));
    Ok(w.finish())
}

// ---------------------------------------------------------------------------
// Environment section
// ---------------------------------------------------------------------------
pub const HARNESS_REPO_URL: &'static str = "https://github.com/Rick1330/ibex-harness";

pub open spec fn runner_text(run: BenchmarkRun) -> Seq<char> {
    match run.runner_os {
        Some(os) => match (run.runner_vcpus, run.runner_ram_gb) {
            (Some(v), Some(r)) => os@ + " ("@ + decimal_int(v as int) + " vCPU, "@ + decimal_int(
                r as int,
            ) + "GB RAM)"@,
            _ => os@,
        },
        None => "—"@,
    }
}

/// The baseline as a commit link when it is a well-formed SHA, else `main`.
pub open spec fn baseline_text(baseline_sha: Option<Seq<char>>) -> Seq<char> {
    match baseline_sha {
        Some(b) => {
            let sha = sanitized_sha(Some(b));
            if sha != "invalid"@ && sha != "unknown"@ {
                "[`"@ + sha + "`](https://github.com/Rick1330/ibex-harness/commit/"@ + sha + ")"@
            } else {
                "`main`"@
            }
        },
        None => "`main`"@,
    }
}

pub open spec fn env_details(run: BenchmarkRun, baseline_sha: Option<Seq<char>>) -> Seq<char> {
    "<details>
<summary>Environment & meta</summary>
<br>

* **Runner:** "@ + runner_text(run)
        + " · **Go:** `"@ + escaped_cell(opt_text(run.go_version)) + "` · **k6:** `"@
        + escaped_cell(opt_text(run.k6_version)) + "`
* **Baseline:** "@ + baseline_text(
        baseline_sha,
    ) + "
</details>"@
}

pub fn render_env_details(run: &BenchmarkRun, baseline_sha: Option<&str>) -> (r: String)
    ensures
        r@ == env_details(
            *run,
            match baseline_sha {
                Some(b) => Some(b@),
                None => None,
            },
        ),
{
    let runner = match &run.runner_os {
        Some(os) => match (run.runner_vcpus, run.runner_ram_gb) {
            (Some(v), Some(r)) => {
                let mut t = String::from_str(os.as_str());
                t.append(" (");
                t.append(i64_to_string(v).as_str());
                t.append(" vCPU, ");
                t.append(i64_to_string(r).as_str());
                t.append("GB RAM)");
                t
            },
            _ => os.clone(),
        },
        None => String::from_str("—"),
    };
    let baseline = match baseline_sha {
        Some(b) => {
            let sha = sanitize_sha(Some(b));
            if !eq_str(sha.as_str(), "invalid") && !eq_str(sha.as_str(), "unknown") {
                let mut t = String::from_str("[`");
                t.append(sha.as_str());
                t.append("`](https://github.com/Rick1330/ibex-harness/commit/");
                t.append(sha.as_str());
                t.append(")");
                t
            } else {
                String::from_str("`main`")
            }
        },
        None => String::from_str("`main`"),
    };
    let go = match &run.go_version {
        Some(g) => escape_cell(Some(g.as_str())),
        None => escape_cell(None),
    };
    let k6 = match &run.k6_version {
        Some(k) => escape_cell(Some(k.as_str())),
        None => escape_cell(None),
    };
    let mut out = String::from_str("<details>
<summary>Environment & meta</summary>
<br>

* **Runner:** ");
    out.append(runner.as_str());
    out.append(" · **Go:** `");
    out.append(go.as_str());
    out.append("` · **k6:** `");
    out.append(k6.as_str());
    out.append("`
* **Baseline:** ");
    out.append(baseline.as_str());
    out.append("
</details>");
    out
}

pub open spec fn env_section(data: BenchmarkData) -> Option<Seq<char>> {
    match first_proxy_run(data) {
        Some(run) => Some(env_details(run, opt_text(data.baseline_sha))),
        None => None,
    }
}

pub fn render_env_section(data: &BenchmarkData) -> (r: Option<String>)
    ensures
        opt_text(r) == env_section(*data),
{
    match &data.runs {
        Some(rs) => if rs.len() > 0 {
            let baseline = match &data.baseline_sha {
                Some(b) => Some(b.as_str()),
                None => None,
            };
            Some(render_env_details(&rs[0], baseline))
        } else {
            None
        },
        None => None,
    }
}

// ---------------------------------------------------------------------------
// Merging into the sticky comment
// ---------------------------------------------------------------------------
/// The comment after the proxy suite (and its environment section) is put
/// into `existing`.
pub open spec fn merged_proxy(
    existing: Seq<char>,
    data: BenchmarkData,
    gate: GateResult,
    f: ProxyFigures,
) -> Result<Seq<char>, Seq<char>> {
    match proxy_section(data, gate, f) {
        Err(e) => Err(e),
        Ok(section) => {
            let body = upserted(comment_shell(existing), PROXY_SECTION_START@, PROXY_SECTION_END@, section);
            let body = match env_section(data) {
                Some(env) => upserted(body, ENV_SECTION_START@, ENV_SECTION_END@, env),
                None => body,
            };
            Ok(rebuilt_comment(body))
        },
    }
}

/// The comment after the HNSW suite is put into `existing`.
pub open spec fn merged_hnsw(existing: Seq<char>, data: HnswBenchmarkData, f: HnswFigures) -> Result<
    Seq<char>,
    Seq<char>,
> {
    match hnsw_section(data, f) {
        Err(e) => Err(e),
        Ok(section) => Ok(
            rebuilt_comment(
                upserted(comment_shell(existing), HNSW_SECTION_START@, HNSW_SECTION_END@, section),
            ),
        ),
    }
}

/// Merges the proxy suite into the shared sticky comment, keeping the other
/// suites' sections.
pub fn merge_proxy_into_comment(
    existing: &str,
    data: &BenchmarkData,
    gate: &GateResult,
    f: &ProxyFigures,
) -> (r: Result<String, String>)
    ensures
        text_result(r) == merged_proxy(existing@, *data, *gate, *f),
{
    let section = render_proxy_section(data, gate, f)?;
    let env = render_env_section(data);
    let shell = ensure_comment_shell(existing);
    let mut body = upsert_section(shell.as_str(), PROXY_SECTION_START, PROXY_SECTION_END, section.as_str());
    if let Some(env) = env {
        body = upsert_section(body.as_str(), ENV_SECTION_START, ENV_SECTION_END, env.as_str());
    }
    Ok(rebuild_comment_shell(body.as_str()))
}

/// Merges the HNSW suite into the shared sticky comment, keeping the other
/// suites' sections.
pub fn merge_hnsw_into_comment(existing: &str, data: &HnswBenchmarkData, f: &HnswFigures) -> (r: Result<
    String,
    String,
>)
    ensures
        text_result(r) == merged_hnsw(existing@, *data, *f),
{
    let section = render_hnsw_section(data, f)?;
    let shell = ensure_comment_shell(existing);
    let body = upsert_section(shell.as_str(), HNSW_SECTION_START, HNSW_SECTION_END, section.as_str());
    Ok(rebuild_comment_shell(body.as_str()))
}

/// A fresh comment holding the proxy suite.
pub fn render_pr_comment(data: &BenchmarkData, gate: &GateResult, f: &ProxyFigures) -> (r: Result<
    String,
    String,
>)
    ensures
        text_result(r) == merged_proxy(""@, *data, *gate, *f),
{
    merge_proxy_into_comment("", data, gate, f)
}

/// A fresh comment holding the HNSW suite.
pub fn render_hnsw_pr_comment(data: &HnswBenchmarkData, f: &HnswFigures) -> (r: Result<String, String>)
    ensures
        text_result(r) == merged_hnsw(""@, *data, *f),
{
    merge_hnsw_into_comment("", data, f)
}

// ---------------------------------------------------------------------------
// Data PR body
// ---------------------------------------------------------------------------
/// The run number shown: the one given, else the run's own, else `?`.
pub open spec fn run_number_text(given: Option<i64>, own: Option<i64>) -> Seq<char> {
    match given {
        Some(n) => decimal_int(n as int),
        None => match own {
            Some(n) => decimal_int(n as int),
            None => "?"@,
        },
    }
}

fn run_number_string(given: Option<i64>, own: Option<i64>) -> (r: String)
    ensures
        r@ == run_number_text(given, own),
{
    match given {
        Some(n) => i64_to_string(n),
        None => match own {
            Some(n) => i64_to_string(n),
            None => String::from_str("?"),
        },
    }
}

/// The short SHA of a run: `short_sha`, else `sha`, sanitised.
pub open spec fn run_short_sha(short_sha: Option<String>, sha: Option<String>) -> Seq<char> {
    sanitized_sha(
        match short_sha {
            Some(s) => Some(s@),
            None => opt_text(sha),
        },
    )
}

pub fn resolve_short_sha(run: &BenchmarkRun) -> (r: String)
    ensures
        r@ == run_short_sha(run.short_sha, run.sha),
{
    match &run.short_sha {
        Some(s) => sanitize_sha(Some(s.as_str())),
        None => match &run.sha {
            Some(s) => sanitize_sha(Some(s.as_str())),
            None => sanitize_sha(None),
        },
    }
}

pub open spec fn field_value_headers() -> Seq<Seq<char>> {
    seq!["Field"@, "Value"@]
}

pub open spec fn proxy_data_rows(
    run: Option<BenchmarkRun>,
    f: ProxyFigures,
    run_number: Option<i64>,
) -> Seq<Seq<Seq<char>>> {
    let number = run_number_text(
        run_number,
        match run {
            Some(r) => r.run_number,
            None => None,
        },
    );
    let short_sha = match run {
        Some(r) => run_short_sha(r.short_sha, r.sha),
        None => "unknown"@,
    };
    let overhead = match run {
        Some(r) => if has_overhead(r) {
            "`"@ + f.overhead@ + "`"@
        } else {
            "—"@
        },
        None => "—"@,
    };
    seq![
        seq!["Run number"@, number],
        seq!["Head SHA"@, short_sha],
        seq!["Proxy p99 (k6)"@, "`"@ + f.p99@ + "`"@],
        seq!["Proxy overhead (Go)"@, overhead],
        seq!["Paths"@, "`"@ + BENCHMARK_DATA_PATH@ + "`, `"@ + BADGE_PATH@ + "`"@],
    ]
}

pub open spec fn proxy_data_section_text(
    data: BenchmarkData,
    f: ProxyFigures,
    run_url: Option<Seq<char>>,
    run_number: Option<i64>,
) -> Seq<char> {
    let run = first_proxy_run(data);
    let status = match run {
        Some(r) => match r.status {
            Some(s) => s@,
            None => "unknown"@,
        },
        None => "unknown"@,
    };
    join(
        seq![
            "### Proxy suite"@,
            ""@,
            "**Status:** "@ + status_emoji_spec(status) + " **"@ + unicode_uppercase(status) + "**"@,
            ""@,
            markdown_table_spec(field_value_headers(), proxy_data_rows(run, f, run_number), true),
            ""@,
            "_k6 p99 is the authoritative SLA metric. Stage breakdown and ns/op values are synthetic Go microbenchmarks._"@,
        ] + match run_url {
            Some(u) => seq![""@, "- [Harness Benchmarks workflow run]("@ + u + ")"@],
            None => Seq::empty(),
        },
        "\n"@,
    )
}

fn cell(a: &str, b: String) -> (r: Vec<String>)
    ensures
        views(r@) == seq![a@, b@],
{
    let r: Vec<String> = vec![String::from_str(a), b];
    assert(views(r@) =~= seq![a@, b@]);
    r
}

pub fn render_proxy_data_section(
    data: &BenchmarkData,
    f: &ProxyFigures,
    run_url: Option<&str>,
    run_number: Option<i64>,
) -> (r: String)
    ensures
        r@ == proxy_data_section_text(
            *data,
            *f,
            match run_url {
                Some(u) => Some(u@),
                None => None,
            },
            run_number,
        ),
{
    proof {
        reveal_strlit("");
    }
    let run: Option<&BenchmarkRun> = match &data.runs {
        Some(rs) => if rs.len() > 0 {
            Some(&rs[0])
        } else {
            None
        },
        None => None,
    };
    let status: &str = match run {
        Some(r) => match &r.status {
            Some(s) => s.as_str(),
            None => "unknown",
        },
        None => "unknown",
    };
    let number = run_number_string(
        run_number,
        match run {
            Some(r) => r.run_number,
            None => None,
        },
    );
    let short_sha = match run {
        Some(r) => resolve_short_sha(r),
        None => sanitize_sha(None),
    };
    let mut p99 = String::from_str("`");
    p99.append(f.p99.as_str());
    p99.append("`");
    let overhead = match run {
        Some(r) => if overhead_reported(r) {
            let mut t = String::from_str("`");
            t.append(f.overhead.as_str());
            t.append("`");
            t
        } else {
            String::from_str("—")
        },
        None => String::from_str("—"),
    };
    let mut paths = String::from_str("`");
    paths.append(BENCHMARK_DATA_PATH);
    paths.append("`, `");
    paths.append(BADGE_PATH);
    paths.append("`");
    let rows: Vec<Vec<String>> = vec![
        cell("Run number", number),
        cell("Head SHA", short_sha),
        cell("Proxy p99 (k6)", p99),
        cell("Proxy overhead (Go)", overhead),
        cell("Paths", paths),
    ];
    let ghost spec_run = first_proxy_run(*data);
    assert(rows_view(rows@) =~= proxy_data_rows(spec_run, *f, run_number));
    let headers: Vec<&str> = vec!["Field", "Value"];
    assert(str_views(headers@) =~= field_value_headers());
    let mut w = LineWriter::new();
    w.push("### Proxy suite");
    w.push("");
    let mut status_line = String::from_str("**Status:** ");
    status_line.append(status_emoji(status));
    status_line.append(" **");
    status_line.append(to_uppercase(status).as_str());
    status_line.append("**");
    w.push(status_line.as_str());
    w.push("");
    w.push(markdown_table(&headers, &rows).as_str());
    w.push("");
    w.push(
        "_k6 p99 is the authoritative SLA metric. Stage breakdown and ns/op values are synthetic Go microbenchmarks._",
    );
    if let Some(url) = run_url {
        w.push("");
        let mut link = String::from_str("- [Harness Benchmarks workflow run](");
        link.append(url);
        link.append(")");
        w.push(link.as_str());
    }
    let ghost url_view = match run_url {
        Some(u) => Some(u@),
        None => None::<Seq<char>>,
    };
    proof {
        let status_view = match spec_run {
            Some(r) => match r.status {
                Some(s) => s@,
                None => "unknown"@,
            },
            None => "unknown"@,
        };
        assert(status@ == status_view);
    }
    assert(w.lines() =~= seq![
        "### Proxy suite"@,
        ""@,
        "**Status:** "@ + status_emoji_spec(status@) + " **"@ + unicode_uppercase(status@) + "**"@,
        ""@,
        markdown_table_spec(field_value_headers(), proxy_data_rows(spec_run, *f, run_number), true),
        ""@,
        "_k6 p99 is the authoritative SLA metric. Stage breakdown and ns/op values are synthetic Go microbenchmarks._"@,
    ] + match url_view {
        Some(u) => seq![""@, "- [Harness Benchmarks workflow run]("@ + u + ")"@],
        None => Seq::<Seq<char>>::empty(),
    });
    w.finish()
}

pub open spec fn cells_headers() -> Seq<Seq<char>> {
    seq!["Size"@, "Recall@10"@, "p95"@, "ef"@, "min_sim"@, "iterative"@, "build"@]
}

/// A result cell as a row of the corpus table.
pub open spec fn cell_row(r: HnswSizeResult, f: (Seq<char>, Seq<char>, Seq<char>, Seq<char>)) -> Seq<
    Seq<char>,
> {
    seq![
        match r.corpus_size {
            Some(n) => decimal_int(n as int),
            None => "—"@,
        },
        if r.recall_at_10 is Some {
            f.1
        } else {
            "—"@
        },
        if r.latency_ms_p95 is Some {
            f.2 + "ms"@
        } else {
            "—"@
        },
        match r.ef_search {
            Some(n) => decimal_int(n as int),
            None => "—"@,
        },
        if r.min_similarity is Some {
            f.3
        } else {
            "—"@
        },
        match r.iterative_scan {
            Some(s) => s@,
            None => "—"@,
        },
        match r.index_build_mode {
            Some(s) => s@,
            None => "—"@,
        },
    ]
}

pub open spec fn cell_rows(results: Seq<HnswSizeResult>, figs: Seq<HnswResultFigures>, n: int) -> Seq<
    Seq<Seq<char>>,
>
    decreases n,
{
    if n <= 0 || n > results.len() {
        Seq::empty()
    } else {
        cell_rows(results, figs, n - 1).push(cell_row(results[n - 1], result_figure(figs, n - 1)))
    }
}

pub open spec fn cells_table(results: Seq<HnswSizeResult>, figs: Seq<HnswResultFigures>) -> Seq<char> {
    if results.len() == 0 {
        "_No result cells in latest run._"@
    } else {
        markdown_table_spec(cells_headers(), cell_rows(results, figs, results.len() as int), true)
    }
}

fn opt_i64_text(v: Option<i64>) -> (r: String)
    ensures
        r@ == match v {
            Some(n) => decimal_int(n as int),
            None => "—"@,
        },
{
    match v {
        Some(n) => i64_to_string(n),
        None => String::from_str("—"),
    }
}

fn opt_string_text(v: &Option<String>) -> (r: String)
    ensures
        r@ == match *v {
            Some(s) => s@,
            None => "—"@,
        },
{
    match v {
        Some(s) => s.clone(),
        None => String::from_str("—"),
    }
}

fn cell_row_strings(r: &HnswSizeResult, figs: &Vec<HnswResultFigures>, j: usize) -> (row: Vec<String>)
    ensures
        views(row@) == cell_row(*r, result_figure(figs@, j as int)),
{
    proof {
        reveal_strlit("");
    }
    let (recall_4, p95_1, min_sim): (&str, &str, &str) = if j < figs.len() {
        (figs[j].recall_4.as_str(), figs[j].p95_1.as_str(), figs[j].min_similarity_2.as_str())
    } else {
        ("", "", "")
    };
    let recall = if r.recall_at_10.is_some() {
        String::from_str(recall_4)
    } else {
        String::from_str("—")
    };
    let p95 = if r.latency_ms_p95.is_some() {
        let mut t = String::from_str(p95_1);
        t.append("ms");
        t
    } else {
        String::from_str("—")
    };
    let min_similarity = if r.min_similarity.is_some() {
        String::from_str(min_sim)
    } else {
        String::from_str("—")
    };
    let row: Vec<String> = vec![
        opt_i64_text(r.corpus_size),
        recall,
        p95,
        opt_i64_text(r.ef_search),
        min_similarity,
        opt_string_text(&r.iterative_scan),
        opt_string_text(&r.index_build_mode),
    ];
    assert(views(row@) =~= cell_row(*r, result_figure(figs@, j as int)));
    row
}

pub fn render_hnsw_cells_table(results: &Vec<HnswSizeResult>, figs: &Vec<HnswResultFigures>) -> (r: String)
    ensures
        r@ == cells_table(results@, figs@),
{
    if results.len() == 0 {
        return String::from_str("_No result cells in latest run._");
    }
    let mut rows: Vec<Vec<String>> = Vec::new();
    let mut j: usize = 0;
    while j < results.len()
        invariant
            j <= results@.len(),
            rows_view(rows@) == cell_rows(results@, figs@, j as int),
        decreases results.len() - j,
    {
        let row = cell_row_strings(&results[j], figs, j);
        let ghost before = rows@;
        rows.push(row);
        assert(rows_view(rows@) =~= rows_view(before).push(views(row@)));
        j = j + 1;
    }
    let headers: Vec<&str> = vec!["Size", "Recall@10", "p95", "ef", "min_sim", "iterative", "build"];
    assert(str_views(headers@) =~= cells_headers());
    markdown_table(&headers, &rows)
}

pub open spec fn hnsw_data_section_text(
    data: HnswBenchmarkData,
    f: HnswFigures,
    run_url: Option<Seq<char>>,
    run_number: Option<i64>,
) -> Seq<char> {
    let latest = first_hnsw_run(data);
    let short_sha = match latest {
        Some(r) => run_short_sha(r.short_sha, r.sha),
        None => "unknown"@,
    };
    let mean = match latest {
        Some(r) => if r.mean_recall_at_10 is Some {
            "`"@ + f.mean_recall_4@ + "`"@
        } else {
            "`n/a`"@
        },
        None => "`n/a`"@,
    };
    let number = run_number_text(
        run_number,
        match latest {
            Some(r) => r.run_number,
            None => None,
        },
    );
    let rows = seq![
        seq!["Run number"@, number],
        seq!["Head SHA"@, short_sha],
        seq!["Mean recall@10"@, mean],
        seq!["Path"@, "`"@ + HNSW_BENCHMARK_DATA_PATH@ + "`"@],
    ];
    let results = match latest {
        Some(r) => run_results(r),
        None => Seq::empty(),
    };
    join(
        seq![
            "### Memory HNSW suite"@,
            ""@,
            markdown_table_spec(field_value_headers(), rows, true),
            ""@,
            "#### Corpus cells"@,
            ""@,
            cells_table(results, f.results@),
            ""@,
            "_Production-like knobs expected (`ef_search=40`, `min_similarity≈0.70`, `iterative_scan=off`, bulk index build)._"@,
        ] + match run_url {
            Some(u) => seq![""@, "- [Harness Memory Benchmarks workflow run]("@ + u + ")"@],
            None => Seq::empty(),
        },
        "\n"@,
    )
}

pub fn render_hnsw_data_section(
    data: &HnswBenchmarkData,
    f: &HnswFigures,
    run_url: Option<&str>,
    run_number: Option<i64>,
) -> (r: String)
    ensures
        r@ == hnsw_data_section_text(
            *data,
            *f,
            match run_url {
                Some(u) => Some(u@),
                None => None,
            },
            run_number,
        ),
{
    proof {
        reveal_strlit("");
    }
    let latest: Option<&HnswBenchmarkRun> = match &data.runs {
        Some(rs) => if rs.len() > 0 {
            Some(&rs[0])
        } else {
            None
        },
        None => None,
    };
    let short_sha = match latest {
        Some(r) => match &r.short_sha {
            Some(s) => sanitize_sha(Some(s.as_str())),
            None => match &r.sha {
                Some(s) => sanitize_sha(Some(s.as_str())),
                None => sanitize_sha(None),
            },
        },
        None => sanitize_sha(None),
    };
    let mean = match latest {
        Some(r) => if r.mean_recall_at_10.is_some() {
            let mut t = String::from_str("`");
            t.append(f.mean_recall_4.as_str());
            t.append("`");
            t
        } else {
            String::from_str("`n/a`")
        },
        None => String::from_str("`n/a`"),
    };
    let number = run_number_string(
        run_number,
        match latest {
            Some(r) => r.run_number,
            None => None,
        },
    );
    let mut path = String::from_str("`");
    path.append(HNSW_BENCHMARK_DATA_PATH);
    path.append("`");
    let rows: Vec<Vec<String>> = vec![
        cell("Run number", number),
        cell("Head SHA", short_sha),
        cell("Mean recall@10", mean),
        cell("Path", path),
    ];
    let headers: Vec<&str> = vec!["Field", "Value"];
    assert(str_views(headers@) =~= field_value_headers());
    let empty: Vec<HnswSizeResult> = Vec::new();
    let results: &Vec<HnswSizeResult> = match latest {
        Some(r) => match &r.results {
            Some(rs) => rs,
            None => &empty,
        },
        None => &empty,
    };
    let mut w = LineWriter::new();
    w.push("### Memory HNSW suite");
    w.push("");
    w.push(markdown_table(&headers, &rows).as_str());
    w.push("");
    w.push("#### Corpus cells");
    w.push("");
    w.push(render_hnsw_cells_table(results, &f.results).as_str());
    w.push("");
    w.push(
        "_Production-like knobs expected (`ef_search=40`, `min_similarity≈0.70`, `iterative_scan=off`, bulk index build)._",
    );
    if let Some(url) = run_url {
        w.push("");
        let mut link = String::from_str("- [Harness Memory Benchmarks workflow run](");
        link.append(url);
        link.append(")");
        w.push(link.as_str());
    }
    proof {
        let spec_latest = first_hnsw_run(*data);
        match latest {
            Some(r) => assert(spec_latest == Some(*r)),
            None => assert(spec_latest is None),
        }
        let spec_rows = seq![
            seq!["Run number"@, run_number_text(
                run_number,
                match spec_latest {
                    Some(r) => r.run_number,
                    None => None,
                },
            )],
            seq!["Head SHA"@, match spec_latest {
                Some(r) => run_short_sha(r.short_sha, r.sha),
                None => "unknown"@,
            }],
            seq!["Mean recall@10"@, match spec_latest {
                Some(r) => if r.mean_recall_at_10 is Some {
                    "`"@ + f.mean_recall_4@ + "`"@
                } else {
                    "`n/a`"@
                },
                None => "`n/a`"@,
            }],
            seq!["Path"@, "`"@ + HNSW_BENCHMARK_DATA_PATH@ + "`"@],
        ];
        assert(rows_view(rows@)[0] == spec_rows[0]);
        assert(rows_view(rows@)[1] == spec_rows[1]);
        assert(rows_view(rows@)[2] == spec_rows[2]);
        assert(rows_view(rows@)[3] == spec_rows[3]);
        assert(rows_view(rows@) =~= spec_rows);
        assert(results@ == match spec_latest {
            Some(r) => run_results(r),
            None => Seq::<HnswSizeResult>::empty(),
        });
        let url_view = match run_url {
            Some(u) => Some(u@),
            None => None::<Seq<char>>,
        };
        assert(w.lines() =~= seq![
            "### Memory HNSW suite"@,
            ""@,
            markdown_table_spec(field_value_headers(), spec_rows, true),
            ""@,
            "#### Corpus cells"@,
            ""@,
            cells_table(results@, f.results@),
            ""@,
            "_Production-like knobs expected (`ef_search=40`, `min_similarity≈0.70`, `iterative_scan=off`, bulk index build)._"@,
        ] + match url_view {
            Some(u) => seq![""@, "- [Harness Memory Benchmarks workflow run]("@ + u + ")"@],
            None => Seq::<Seq<char>>::empty(),
        });
    }
    w.finish()
}

pub open spec fn compact_brand() -> Seq<char> {
    "<p align=\"left\">\n  <picture>\n    <source media=\"(prefers-color-scheme: dark)\" srcset=\"https://raw.githubusercontent.com/Rick1330/ibexharness-benchmark-bot/main/docs/brand/ibex-mark-dark.png\">\n    <img alt=\"IBEX Benchmark Bot\" src=\"https://raw.githubusercontent.com/Rick1330/ibexharness-benchmark-bot/main/docs/brand/ibex-mark-light.png\" width=\"32\" height=\"32\" valign=\"middle\">\n  </picture>\n  <strong>IBEX Benchmark Bot</strong>\n</p>"@
}

/// The bot's logo and name, for the top of a data PR.
pub fn render_compact_brand() -> (r: String)
    ensures
        r@ == compact_brand(),
{
    String::from_str(
        "<p align=\"left\">\n  <picture>\n    <source media=\"(prefers-color-scheme: dark)\" srcset=\"https://raw.githubusercontent.com/Rick1330/ibexharness-benchmark-bot/main/docs/brand/ibex-mark-dark.png\">\n    <img alt=\"IBEX Benchmark Bot\" src=\"https://raw.githubusercontent.com/Rick1330/ibexharness-benchmark-bot/main/docs/brand/ibex-mark-light.png\" width=\"32\" height=\"32\" valign=\"middle\">\n  </picture>\n  <strong>IBEX Benchmark Bot</strong>\n</p>",
    )
}

/// Inputs for a single shared data PR that may carry the proxy and/or the
/// HNSW suite, each with the texts of its measurements.
pub struct CombinedDataPrInput<'a> {
    pub proxy: Option<(&'a BenchmarkData, &'a ProxyFigures)>,
    pub proxy_run_url: Option<&'a str>,
    pub proxy_run_number: Option<i64>,
    pub hnsw: Option<(&'a HnswBenchmarkData, &'a HnswFigures)>,
    pub hnsw_run_url: Option<&'a str>,
    pub hnsw_run_number: Option<i64>,
}

pub open spec fn opt_str(o: Option<&str>) -> Option<Seq<char>> {
    match o {
        Some(s) => Some(s@),
        None => None,
    }
}

/// The suites a data PR carries, for its summary line.
pub open spec fn suites_list(has_proxy: bool, has_hnsw: bool) -> Seq<char> {
    if has_proxy && has_hnsw {
        "Proxy, Memory HNSW"@
    } else if has_proxy {
        "Proxy"@
    } else if has_hnsw {
        "Memory HNSW"@
    } else {
        "_none_"@
    }
}

pub open spec fn data_pr_intro(suites: Seq<char>) -> Seq<Seq<char>> {
    seq![
        compact_brand(),
        ""@,
        "## What and Why"@,
        ""@,
        "Automated publish of public benchmark history for ibex-harness. Suites in this PR: **"@
            + suites + "**."@,
        ""@,
        "Keeps `/benchmarks` and `/benchmarks/memory` history current without contributor-authored commits."@,
        ""@,
        "## Tracking issue"@,
        ""@,
        "N/A (GitHub App data publish)"@,
        ""@,
        "## How"@,
        ""@,
    ]
}

pub open spec fn data_pr_outro() -> Seq<Seq<char>> {
    seq![
        "## Testing"@,
        ""@,
        "- [ ] Bot workflow validation passed (suite(s) above)"@,
        "- [ ] Harness CI green on this PR"@,
        "- [ ] `/benchmarks` and/or `/benchmarks/memory` preview updated"@,
        ""@,
        "## Performance"@,
        ""@,
        "No runtime change — history JSON / badge only. Review suite tables above for SLA deltas."@,
        ""@,
        "## Security"@,
        ""@,
        "No secrets; App-signed commits; artifacts re-verified via Actions API before publish."@,
        ""@,
        "## Migrations / Ops"@,
        ""@,
        "None."@,
        ""@,
        "## Docs"@,
        ""@,
        "Public benchmark history only (`web/public/benchmarks/*`). Suite JSON files stay separate."@,
        ""@,
        "## Checklist (Definition of Done)"@,
        ""@,
        "- [ ] Correct files only (proxy JSON+badge and/or HNSW JSON)"@,
        "- [ ] Labels match files (`benchmark-data` / `hnsw-benchmark-data`)"@,
        "- [ ] Single shared data PR branch `chore/bench-data-publish`"@,
    ]
}

/// The body of the shared data PR.
pub open spec fn combined_data_pr_body(input: CombinedDataPrInput) -> Seq<char> {
    let proxy_lines = match input.proxy {
        Some((d, f)) => seq![
            proxy_data_section_text(*d, *f, opt_str(input.proxy_run_url), input.proxy_run_number),
            ""@,
        ],
        None => Seq::empty(),
    };
    let hnsw_lines = match input.hnsw {
        Some((d, f)) => seq![
            hnsw_data_section_text(*d, *f, opt_str(input.hnsw_run_url), input.hnsw_run_number),
            ""@,
        ],
        None => Seq::empty(),
    };
    join(
        data_pr_intro(suites_list(input.proxy is Some, input.hnsw is Some)) + proxy_lines
            + hnsw_lines + data_pr_outro(),
        "\n"@,
    )
}

#[verifier::rlimit(40)]
pub fn render_combined_data_pr_body(input: CombinedDataPrInput) -> (r: String)
    ensures
        r@ == combined_data_pr_body(input),
{
    proof {
        reveal_strlit("");
    }
    let suites: &str = if input.proxy.is_some() && input.hnsw.is_some() {
        "Proxy, Memory HNSW"
    } else if input.proxy.is_some() {
        "Proxy"
    } else if input.hnsw.is_some() {
        "Memory HNSW"
    } else {
        "_none_"
    };
    let mut w = LineWriter::new();
    w.push(render_compact_brand().as_str());
    w.push("");
    w.push("## What and Why");
    w.push("");
    let mut summary = String::from_str(
        "Automated publish of public benchmark history for ibex-harness. Suites in this PR: **",
    );
    summary.append(suites);
    summary.append("**.");
    w.push(summary.as_str());
    w.push("");
    w.push(
        "Keeps `/benchmarks` and `/benchmarks/memory` history current without contributor-authored commits.",
    );
    w.push("");
    w.push("## Tracking issue");
    w.push("");
    w.push("N/A (GitHub App data publish)");
    w.push("");
    w.push("## How");
    w.push("");
    let ghost intro = w.lines();
    assert(intro =~= data_pr_intro(suites_list(input.proxy is Some, input.hnsw is Some)));
    if let Some((d, f)) = input.proxy {
        w.push(render_proxy_data_section(d, f, input.proxy_run_url, input.proxy_run_number).as_str());
        w.push("");
    }
    let ghost with_proxy = w.lines();
    assert(with_proxy =~= intro + match input.proxy {
        Some((d, f)) => seq![
            proxy_data_section_text(*d, *f, opt_str(input.proxy_run_url), input.proxy_run_number),
            ""@,
        ],
        None => Seq::<Seq<char>>::empty(),
    });
    if let Some((d, f)) = input.hnsw {
        w.push(render_hnsw_data_section(d, f, input.hnsw_run_url, input.hnsw_run_number).as_str());
        w.push("");
    }
    let ghost with_hnsw = w.lines();
    assert(with_hnsw =~= with_proxy + match input.hnsw {
        Some((d, f)) => seq![
            hnsw_data_section_text(*d, *f, opt_str(input.hnsw_run_url), input.hnsw_run_number),
            ""@,
        ],
        None => Seq::<Seq<char>>::empty(),
    });
    w.push("## Testing");
    w.push("");
    w.push("- [ ] Bot workflow validation passed (suite(s) above)");
    w.push("- [ ] Harness CI green on this PR");
    w.push("- [ ] `/benchmarks` and/or `/benchmarks/memory` preview updated");
    w.push("");
    w.push("## Performance");
    w.push("");
    w.push(
        "No runtime change — history JSON / badge only. Review suite tables above for SLA deltas.",
    );
    w.push("");
    w.push("## Security");
    w.push("");
    w.push("No secrets; App-signed commits; artifacts re-verified via Actions API before publish.");
    w.push("");
    w.push("## Migrations / Ops");
    w.push("");
    w.push("None.");
    w.push("");
    w.push("## Docs");
    w.push("");
    w.push(
        "Public benchmark history only (`web/public/benchmarks/*`). Suite JSON files stay separate.",
    );
    w.push("");
    w.push("## Checklist (Definition of Done)");
    w.push("");
    w.push("- [ ] Correct files only (proxy JSON+badge and/or HNSW JSON)");
    w.push("- [ ] Labels match files (`benchmark-data` / `hnsw-benchmark-data`)");
    w.push("- [ ] Single shared data PR branch `chore/bench-data-publish`");
    assert(w.lines() =~= with_hnsw + data_pr_outro());
    w.finish()
}

/// The data PR body for the proxy suite alone.
pub fn render_data_pr_body(
    data: &BenchmarkData,
    f: &ProxyFigures,
    run_url: Option<&str>,
    run_number: Option<i64>,
) -> (r: String)
    ensures
        r@ == combined_data_pr_body(
            CombinedDataPrInput {
                proxy: Some((data, f)),
                proxy_run_url: run_url,
                proxy_run_number: run_number,
                hnsw: None,
                hnsw_run_url: None,
                hnsw_run_number: None,
            },
        ),
{
    render_combined_data_pr_body(
        CombinedDataPrInput {
            proxy: Some((data, f)),
            proxy_run_url: run_url,
            proxy_run_number: run_number,
            hnsw: None,
            hnsw_run_url: None,
            hnsw_run_number: None,
        },
    )
}

/// The data PR body for the HNSW suite alone.
pub fn render_hnsw_data_pr_body(
    data: &HnswBenchmarkData,
    f: &HnswFigures,
    run_url: Option<&str>,
    run_number: i64,
) -> (r: String)
    ensures
        r@ == combined_data_pr_body(
            CombinedDataPrInput {
                proxy: None,
                proxy_run_url: None,
                proxy_run_number: None,
                hnsw: Some((data, f)),
                hnsw_run_url: run_url,
                hnsw_run_number: Some(run_number),
            },
        ),
{
    render_combined_data_pr_body(
        CombinedDataPrInput {
            proxy: None,
            proxy_run_url: None,
            proxy_run_number: None,
            hnsw: Some((data, f)),
            hnsw_run_url: run_url,
            hnsw_run_number: Some(run_number),
        },
    )
}

/// Every comment the bot writes starts with the shared marker on a line of
/// its own, so the next run finds it again as the sticky comment.
pub proof fn lemma_merged_comments_start_with_marker(
    existing: Seq<char>,
    proxy: BenchmarkData,
    gate: GateResult,
    pf: ProxyFigures,
    hnsw: HnswBenchmarkData,
    hf: HnswFigures,
)
    ensures
        merged_proxy(existing, proxy, gate, pf) matches Ok(c) ==> crate::text::starts_with(
            c,
            crate::sanitize::COMMENT_MARKER@ + "\n"@,
        ),
        merged_hnsw(existing, hnsw, hf) matches Ok(c) ==> crate::text::starts_with(
            c,
            crate::sanitize::COMMENT_MARKER@ + "\n"@,
        ),
{
    if let Ok(section) = proxy_section(proxy, gate, pf) {
        let body = upserted(comment_shell(existing), PROXY_SECTION_START@, PROXY_SECTION_END@, section);
        let body = match env_section(proxy) {
            Some(env) => upserted(body, ENV_SECTION_START@, ENV_SECTION_END@, env),
            None => body,
        };
        crate::render::lemma_rebuilt_comment_starts_with_marker(body);
    }
    if let Ok(section) = hnsw_section(hnsw, hf) {
        crate::render::lemma_rebuilt_comment_starts_with_marker(
            upserted(comment_shell(existing), HNSW_SECTION_START@, HNSW_SECTION_END@, section),
        );
    }
}

/// Merging the HNSW suite writes its section into the comment: the merged
/// comment holds the section block just rendered.
pub proof fn lemma_merged_hnsw_holds_section(existing: Seq<char>, hnsw: HnswBenchmarkData, hf: HnswFigures)
    requires
        hnsw_section(hnsw, hf) matches Ok(section) && crate::render::upsert_readable(
            comment_shell(existing),
            HNSW_SECTION_START@,
            HNSW_SECTION_END@,
            section,
        ),
    ensures
        hnsw_section(hnsw, hf) matches Ok(section) && merged_hnsw(existing, hnsw, hf) matches Ok(c)
            && crate::text::contains(
            c,
            trim(crate::render::section_block(HNSW_SECTION_START@, HNSW_SECTION_END@, section)),
        ),
{
    if let Ok(section) = hnsw_section(hnsw, hf) {
        let body = upserted(comment_shell(existing), HNSW_SECTION_START@, HNSW_SECTION_END@, section);
        crate::render::lemma_upsert_then_extract(
            comment_shell(existing),
            HNSW_SECTION_START@,
            HNSW_SECTION_END@,
            section,
        );
        crate::render::lemma_rebuilt_comment_holds_hnsw(body);
    }
}

/// Merging the proxy suite writes its section into the comment: read back,
/// the merged comment's proxy section is the block just rendered. This holds
/// when the block reads back whole after the upsert (`upsert_readable`), the
/// environment block neither carries the proxy start marker nor interleaves
/// with the proxy section, and the rebuilt header does not carry that marker.
pub proof fn lemma_merged_proxy_holds_section(
    existing: Seq<char>,
    data: BenchmarkData,
    gate: GateResult,
    f: ProxyFigures,
)
    requires
        proxy_section(data, gate, f) matches Ok(section) && {
            let shell = comment_shell(existing);
            let body = proxy_merge_body(existing, section, env_section(data));
            &&& crate::render::upsert_readable(shell, PROXY_SECTION_START@, PROXY_SECTION_END@, section)
            &&& (env_section(data) matches Some(env) ==> {
                &&& !crate::text::contains(
                    crate::render::section_block(ENV_SECTION_START@, ENV_SECTION_END@, env),
                    PROXY_SECTION_START@,
                )
                &&& crate::render::sections_apart(
                    upserted(shell, PROXY_SECTION_START@, PROXY_SECTION_END@, section),
                    ENV_SECTION_START@,
                    ENV_SECTION_END@,
                    PROXY_SECTION_START@,
                    PROXY_SECTION_END@,
                )
            })
            &&& !crate::text::contains(join(crate::render::comment_top(body), "\n"@), PROXY_SECTION_START@)
        },
    ensures
        proxy_section(data, gate, f) matches Ok(section) && merged_proxy(existing, data, gate, f) matches Ok(
            c,
        ) && extracted(c, PROXY_SECTION_START@, PROXY_SECTION_END@) == Some(
            crate::render::section_block(PROXY_SECTION_START@, PROXY_SECTION_END@, section),
        ),
{
    crate::render::lemma_section_markers();
    let section = proxy_section(data, gate, f)->Ok_0;
    let shell = comment_shell(existing);
    let body1 = upserted(shell, PROXY_SECTION_START@, PROXY_SECTION_END@, section);
    crate::render::lemma_upsert_then_extract(shell, PROXY_SECTION_START@, PROXY_SECTION_END@, section);
    crate::render::lemma_block_trimmed(PROXY_SECTION_START@, PROXY_SECTION_END@, section);
    if let Some(env) = env_section(data) {
        crate::render::lemma_upsert_keeps_section(
            body1,
            ENV_SECTION_START@,
            ENV_SECTION_END@,
            env,
            PROXY_SECTION_START@,
            PROXY_SECTION_END@,
        );
    }
    let body = proxy_merge_body(existing, section, env_section(data));
    crate::render::lemma_rebuilt_keeps_proxy(body);
}

/// The body a proxy merge rebuilds the comment from: the shell with the
/// proxy section, then the environment section, upserted.
pub open spec fn proxy_merge_body(existing: Seq<char>, section: Seq<char>, env: Option<Seq<char>>) -> Seq<
    char,
> {
    let body = upserted(comment_shell(existing), PROXY_SECTION_START@, PROXY_SECTION_END@, section);
    match env {
        Some(e) => upserted(body, ENV_SECTION_START@, ENV_SECTION_END@, e),
        None => body,
    }
}

/// Merging the proxy suite keeps the HNSW suite's section of the sticky
/// comment as it was. This holds when the comment has an HNSW section that
/// does not interleave with the proxy or environment section, and no text
/// written before it (the proxy and environment blocks, the header) carries
/// the HNSW start marker.
pub proof fn lemma_proxy_merge_keeps_hnsw(
    existing: Seq<char>,
    data: BenchmarkData,
    gate: GateResult,
    f: ProxyFigures,
)
    requires
        proxy_section(data, gate, f) matches Ok(section) && {
            let shell = comment_shell(existing);
            let body = proxy_merge_body(existing, section, env_section(data));
            &&& section_span(shell, HNSW_SECTION_START@, HNSW_SECTION_END@) is Some
            &&& crate::render::sections_apart(
                shell,
                PROXY_SECTION_START@,
                PROXY_SECTION_END@,
                HNSW_SECTION_START@,
                HNSW_SECTION_END@,
            )
            &&& !crate::text::contains(
                crate::render::section_block(PROXY_SECTION_START@, PROXY_SECTION_END@, section),
                HNSW_SECTION_START@,
            )
            &&& (env_section(data) matches Some(env) ==> {
                &&& !crate::text::contains(
                    crate::render::section_block(ENV_SECTION_START@, ENV_SECTION_END@, env),
                    HNSW_SECTION_START@,
                )
                &&& crate::render::sections_apart(
                    upserted(shell, PROXY_SECTION_START@, PROXY_SECTION_END@, section),
                    ENV_SECTION_START@,
                    ENV_SECTION_END@,
                    HNSW_SECTION_START@,
                    HNSW_SECTION_END@,
                )
            })
            &&& !crate::text::contains(
                join(
                    crate::render::comment_top(body) + crate::render::section_lines(
                        extracted(body, PROXY_SECTION_START@, PROXY_SECTION_END@),
                    ),
                    "\n"@,
                ),
                HNSW_SECTION_START@,
            )
        },
    ensures
        merged_proxy(existing, data, gate, f) matches Ok(c) && extracted(
            c,
            HNSW_SECTION_START@,
            HNSW_SECTION_END@,
        ) == extracted(comment_shell(existing), HNSW_SECTION_START@, HNSW_SECTION_END@),
{
    crate::render::lemma_section_markers();
    let section = proxy_section(data, gate, f)->Ok_0;
    let shell = comment_shell(existing);
    let body1 = upserted(shell, PROXY_SECTION_START@, PROXY_SECTION_END@, section);
    crate::render::lemma_upsert_keeps_section(
        shell,
        PROXY_SECTION_START@,
        PROXY_SECTION_END@,
        section,
        HNSW_SECTION_START@,
        HNSW_SECTION_END@,
    );
    if let Some(env) = env_section(data) {
        crate::render::lemma_upsert_keeps_section(
            body1,
            ENV_SECTION_START@,
            ENV_SECTION_END@,
            env,
            HNSW_SECTION_START@,
            HNSW_SECTION_END@,
        );
    }
    let body = proxy_merge_body(existing, section, env_section(data));
    crate::render::lemma_rebuilt_keeps_hnsw(body);
}

/// Merging the HNSW suite keeps the proxy suite's section of the sticky
/// comment as it was. This holds when the comment has a proxy section that
/// does not interleave with the HNSW section, and neither the HNSW block nor
/// the rebuilt header carries the proxy start marker.
pub proof fn lemma_hnsw_merge_keeps_proxy(existing: Seq<char>, hnsw: HnswBenchmarkData, hf: HnswFigures)
    requires
        hnsw_section(hnsw, hf) matches Ok(section) && {
            let shell = comment_shell(existing);
            let body = upserted(shell, HNSW_SECTION_START@, HNSW_SECTION_END@, section);
            &&& section_span(shell, PROXY_SECTION_START@, PROXY_SECTION_END@) is Some
            &&& crate::render::sections_apart(
                shell,
                HNSW_SECTION_START@,
                HNSW_SECTION_END@,
                PROXY_SECTION_START@,
                PROXY_SECTION_END@,
            )
            &&& !crate::text::contains(
                crate::render::section_block(HNSW_SECTION_START@, HNSW_SECTION_END@, section),
                PROXY_SECTION_START@,
            )
            &&& !crate::text::contains(
                join(crate::render::comment_top(body), "\n"@),
                PROXY_SECTION_START@,
            )
        },
    ensures
        merged_hnsw(existing, hnsw, hf) matches Ok(c) && extracted(
            c,
            PROXY_SECTION_START@,
            PROXY_SECTION_END@,
        ) == extracted(comment_shell(existing), PROXY_SECTION_START@, PROXY_SECTION_END@),
{
    crate::render::lemma_section_markers();
    let section = hnsw_section(hnsw, hf)->Ok_0;
    let shell = comment_shell(existing);
    crate::render::lemma_upsert_keeps_section(
        shell,
        HNSW_SECTION_START@,
        HNSW_SECTION_END@,
        section,
        PROXY_SECTION_START@,
        PROXY_SECTION_END@,
    );
    crate::render::lemma_rebuilt_keeps_proxy(
        upserted(shell, HNSW_SECTION_START@, HNSW_SECTION_END@, section),
    );
}

/// Re-posting the same HNSW suite leaves the sticky comment as it is:
/// merging the HNSW data into the comment that merging it produced gives
/// that comment back. This holds when the block written reads back whole
/// (`upsert_readable`), the comment does not carry the old HNSW comment
/// marker, no text before the HNSW section carries its start marker, and
/// rebuilding reads the same proxy and environment sections and the same
/// suite metadata back from the comment as from the body it was built from
/// (which fails when the body holds metadata lines outside the sections).
pub proof fn lemma_hnsw_remerge_unchanged(existing: Seq<char>, hnsw: HnswBenchmarkData, hf: HnswFigures)
    requires
        hnsw_section(hnsw, hf) matches Ok(section) && {
            let body = upserted(comment_shell(existing), HNSW_SECTION_START@, HNSW_SECTION_END@, section);
            let c = rebuilt_comment(body);
            &&& crate::render::upsert_readable(
                comment_shell(existing),
                HNSW_SECTION_START@,
                HNSW_SECTION_END@,
                section,
            )
            &&& !crate::text::contains(c, crate::sanitize::COMMENT_MARKER_HNSW@)
            &&& !crate::text::contains(
                join(
                    crate::render::comment_top(body) + crate::render::section_lines(
                        extracted(body, PROXY_SECTION_START@, PROXY_SECTION_END@),
                    ),
                    "\n"@,
                ),
                HNSW_SECTION_START@,
            )
            &&& extracted(c, PROXY_SECTION_START@, PROXY_SECTION_END@) == extracted(
                body,
                PROXY_SECTION_START@,
                PROXY_SECTION_END@,
            )
            &&& extracted(c, ENV_SECTION_START@, ENV_SECTION_END@) == extracted(
                body,
                ENV_SECTION_START@,
                ENV_SECTION_END@,
            )
            &&& crate::render::suite_metas(c) == crate::render::suite_metas(body)
        },
    ensures
        merged_hnsw(existing, hnsw, hf) matches Ok(c) && merged_hnsw(c, hnsw, hf) == Ok::<
            Seq<char>,
            Seq<char>,
        >(c),
{
    crate::render::lemma_section_markers();
    let section = hnsw_section(hnsw, hf)->Ok_0;
    let shell = comment_shell(existing);
    let body = upserted(shell, HNSW_SECTION_START@, HNSW_SECTION_END@, section);
    let c = rebuilt_comment(body);
    let block = crate::render::section_block(HNSW_SECTION_START@, HNSW_SECTION_END@, section);
    crate::render::lemma_upsert_then_extract(shell, HNSW_SECTION_START@, HNSW_SECTION_END@, section);
    crate::render::lemma_block_trimmed(HNSW_SECTION_START@, HNSW_SECTION_END@, section);
    assert(extracted(body, HNSW_SECTION_START@, HNSW_SECTION_END@) == Some(block));
    crate::render::lemma_rebuilt_keeps_hnsw(body);
    crate::render::lemma_shell_of_rebuilt(body);
    crate::render::lemma_upsert_same_block(c, HNSW_SECTION_START@, HNSW_SECTION_END@, section);
    assert(upserted(comment_shell(c), HNSW_SECTION_START@, HNSW_SECTION_END@, section) == c);
    assert(rebuilt_comment(c) == c);
}

} // verus!
