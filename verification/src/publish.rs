//! Decisions of the publish flow: replay protection, which suites are
//! pending on the shared data branch, and the title and labels of the data PR.

use vstd::prelude::*;

use crate::config::{
    BENCHMARK_DATA_LABEL, EXTRACTION_QUALITY_BENCHMARK_DATA_LABEL, HNSW_BENCHMARK_DATA_LABEL,
    RANKING_QUALITY_BENCHMARK_DATA_LABEL, WRITE_PIPELINE_BENCHMARK_DATA_LABEL,
};
use crate::error::{bot_err, fails_as, BotError};
use crate::markdown::{join, str_views};
use crate::model::{
    BenchmarkData, ExtractionQualityBenchmarkData, HnswBenchmarkData, RankingQualityBenchmarkData,
    WorkflowRun, WritePipelineBenchmarkData,
};
use crate::ranking_quality_validate::{
    history_has_sha, max_run_number, lemma_max_run_number, memory_suite_max_published_run_number,
    memory_suite_published_sha_exists, ref_vec_seq, vec_seq, MemorySuiteRunFields,
};
use crate::text::{decimal_int, i64_to_string};

verus! {

/// What a publish run did.
pub struct PublishResult {
    pub skipped: bool,
    pub pr_url: Option<String>,
    pub branch: String,
}

/// The SHA of the verified workflow run.
pub fn verified_head_sha(run: &WorkflowRun) -> (r: Result<String, BotError>)
    ensures
        match run.head_sha {
            Some(s) => r matches Ok(x) && x@ == s@,
            None => r matches Err(e) && e@ == "verified run missing head_sha"@,
        },
{
    match &run.head_sha {
        Some(s) => Ok(s.clone()),
        None => Err(bot_err(String::from_str("verified run missing head_sha"))),
    }
}

// ---------------------------------------------------------------------------
// Replay protection
// ---------------------------------------------------------------------------
/// Why a dispatch replays history already published on `main`: its head SHA
/// is there, or its run number is not newer than the largest published one.
pub open spec fn replay_failure<T: MemorySuiteRunFields>(
    runs: Option<Seq<T>>,
    head_sha: Seq<char>,
    run_number: i64,
) -> Option<Seq<char>> {
    if history_has_sha(runs, head_sha) {
        Some("head_sha already published on main"@)
    } else {
        match runs {
            Some(rs) => match max_run_number(rs, rs.len() as int) {
                Some(m) => if run_number <= m {
                    Some(
                        "run_number "@ + decimal_int(run_number as int)
                            + " is not newer than published max "@ + decimal_int(m as int),
                    )
                } else {
                    None
                },
                None => None,
            },
            None => None,
        }
    }
}

fn check_not_replay<T: MemorySuiteRunFields>(runs: Option<&Vec<T>>, head_sha: &str, run_number: i64) -> (r: Result<
    (),
    BotError,
>)
    ensures
        fails_as(r, replay_failure(ref_vec_seq(runs), head_sha@, run_number)),
{
    if memory_suite_published_sha_exists(runs, head_sha) {
        return Err(bot_err(String::from_str("head_sha already published on main")));
    }
    if let Some(max_run) = memory_suite_max_published_run_number(runs) {
        if run_number <= max_run {
            let mut msg = String::from_str("run_number ");
            msg.append(i64_to_string(run_number).as_str());
            msg.append(" is not newer than published max ");
            msg.append(i64_to_string(max_run).as_str());
            return Err(bot_err(msg));
        }
    }
    Ok(())
}

/// Refuses a proxy dispatch whose head SHA or run number is already covered
/// by the history published on `main` (`None` when there is no such file).
pub fn ensure_proxy_not_replay(published: Option<&BenchmarkData>, head_sha: &str, run_number: i64) -> (r: Result<
    (),
    BotError,
>)
    ensures
        fails_as(
            r,
            match published {
                Some(d) => replay_failure(vec_seq(d.runs), head_sha@, run_number),
                None => None,
            },
        ),
{
    match published {
        None => Ok(()),
        Some(d) => check_not_replay(d.runs.as_ref(), head_sha, run_number),
    }
}

/// Refuses an HNSW dispatch already covered by the history on `main`.
pub fn ensure_hnsw_not_replay(published: Option<&HnswBenchmarkData>, head_sha: &str, run_number: i64) -> (r: Result<
    (),
    BotError,
>)
    ensures
        fails_as(
            r,
            match published {
                Some(d) => replay_failure(vec_seq(d.runs), head_sha@, run_number),
                None => None,
            },
        ),
{
    match published {
        None => Ok(()),
        Some(d) => check_not_replay(d.runs.as_ref(), head_sha, run_number),
    }
}

/// Refuses a write-pipeline dispatch already covered by the history on
/// `main`.
pub fn ensure_write_pipeline_not_replay(
    published: Option<&WritePipelineBenchmarkData>,
    head_sha: &str,
    run_number: i64,
) -> (r: Result<(), BotError>)
    ensures
        fails_as(
            r,
            match published {
                Some(d) => replay_failure(vec_seq(d.runs), head_sha@, run_number),
                None => None,
            },
        ),
{
    match published {
        None => Ok(()),
        Some(d) => check_not_replay(d.runs.as_ref(), head_sha, run_number),
    }
}

/// A dispatch passes the replay check exactly when no published run has its
/// head SHA and every published run number is smaller than its run number.
pub proof fn lemma_replay_guard<T: MemorySuiteRunFields>(
    runs: Seq<T>,
    head_sha: Seq<char>,
    run_number: i64,
)
    ensures
        replay_failure(Some(runs), head_sha, run_number) is None <==> (!history_has_sha(
            Some(runs),
            head_sha,
        ) && forall|k: int|
            0 <= k < runs.len() ==> (#[trigger] runs[k].spec_run_number() matches Some(x) ==> x
                < run_number)),
{
    lemma_max_run_number(runs, runs.len() as int);
    if let Some(m) = max_run_number(runs, runs.len() as int) {
        if run_number <= m {
            let k = choose|k: int| 0 <= k < runs.len() && #[trigger] runs[k].spec_run_number() == Some(m);
            assert(runs[k].spec_run_number() == Some(m));
        }
    }
}

/// A dispatch that passes the replay check is new to `main`: no published
/// run has its commit (ignoring ASCII case) and no published run number is
/// as large as its own.
pub proof fn lemma_replay_check_passes_only_new_runs<T: MemorySuiteRunFields>(
    runs: Seq<T>,
    head_sha: Seq<char>,
    run_number: i64,
)
    ensures
        replay_failure(Some(runs), head_sha, run_number) is None ==> forall|k: int|
            0 <= k < runs.len() ==> (#[trigger] runs[k].spec_sha() matches Some(s)
                ==> !crate::text::eq_ignore_ascii_case(s, crate::text::unicode_lowercase(head_sha)))
                && (runs[k].spec_run_number() matches Some(x) ==> x < run_number),
{
    lemma_replay_guard(runs, head_sha, run_number);
    if replay_failure(Some(runs), head_sha, run_number) is None {
        assert forall|k: int| 0 <= k < runs.len() implies (#[trigger] runs[k].spec_sha() matches Some(s)
            ==> !crate::text::eq_ignore_ascii_case(s, crate::text::unicode_lowercase(head_sha)))
            && (runs[k].spec_run_number() matches Some(x) ==> x < run_number) by {
            if runs[k].spec_sha() matches Some(s) && crate::text::eq_ignore_ascii_case(
                s,
                crate::text::unicode_lowercase(head_sha),
            ) {
                assert(crate::ranking_quality_validate::sha_matches(
                    runs[k].spec_sha(),
                    crate::text::unicode_lowercase(head_sha),
                ));
            }
        }
    }
}

// ---------------------------------------------------------------------------
// Pending suites on the shared branch
// ---------------------------------------------------------------------------
/// The suite histories on the shared data branch that differ from `main`.
pub struct PendingSuites {
    pub proxy: Option<BenchmarkData>,
    pub hnsw: Option<HnswBenchmarkData>,
    pub ranking: Option<RankingQualityBenchmarkData>,
    pub write: Option<WritePipelineBenchmarkData>,
    pub extraction: Option<ExtractionQualityBenchmarkData>,
}

impl PendingSuites {
    pub open spec fn none_pending(&self) -> bool {
        self.proxy is None && self.hnsw is None && self.ranking is None && self.write is None
            && self.extraction is None
    }

    pub fn is_empty(&self) -> (r: bool)
        ensures
            r == self.none_pending(),
    {
        self.proxy.is_none() && self.hnsw.is_none() && self.ranking.is_none()
            && self.write.is_none() && self.extraction.is_none()
    }
}

/// A suite is pending when the branch has its file and `main` has none, or
/// a different one.
pub fn pending_suite<T>(on_branch: Option<T>, on_main: bool, bytes_differ: bool) -> (r: Option<T>)
    ensures
        r == (if on_branch is Some && (!on_main || bytes_differ) {
            on_branch
        } else {
            None
        }),
{
    match on_branch {
        Some(b) => if !on_main || bytes_differ {
            Some(b)
        } else {
            None
        },
        None => None,
    }
}

/// The names of the pending suites, in the fixed suite order.
pub open spec fn pending_names(p: PendingSuites) -> Seq<Seq<char>> {
    (if p.proxy is Some {
        seq!["proxy"@]
    } else {
        Seq::empty()
    }) + (if p.hnsw is Some {
        seq!["memory HNSW"@]
    } else {
        Seq::empty()
    }) + (if p.ranking is Some {
        seq!["ranking-quality"@]
    } else {
        Seq::empty()
    }) + (if p.write is Some {
        seq!["write-pipeline"@]
    } else {
        Seq::empty()
    }) + (if p.extraction is Some {
        seq!["extraction-quality"@]
    } else {
        Seq::empty()
    })
}

pub open spec fn data_pr_title_spec(p: PendingSuites) -> Seq<char> {
    let names = pending_names(p);
    if names.len() == 0 {
        "chore(bench): publish benchmark data"@
    } else {
        "chore(bench): publish "@ + join(names, " and "@) + " benchmark data"@
    }
}

/// The data PR's title, naming the pending suites.
pub fn data_pr_title(suites: &PendingSuites) -> (r: String)
    ensures
        r@ == data_pr_title_spec(*suites),
{
    let mut names: Vec<&str> = Vec::new();
    if suites.proxy.is_some() {
        names.push("proxy");
    }
    if suites.hnsw.is_some() {
        names.push("memory HNSW");
    }
    if suites.ranking.is_some() {
        names.push("ranking-quality");
    }
    if suites.write.is_some() {
        names.push("write-pipeline");
    }
    if suites.extraction.is_some() {
        names.push("extraction-quality");
    }
    assert(str_views(names@) =~= pending_names(*suites));
    if names.len() == 0 {
        return String::from_str("chore(bench): publish benchmark data");
    }
    let mut owned: Vec<String> = Vec::new();
    let mut i: usize = 0;
    while i < names.len()
        invariant
            i <= names@.len(),
            owned@.len() == i,
            forall|k: int| 0 <= k < i ==> #[trigger] owned@[k]@ == names@[k]@,
        decreases names.len() - i,
    {
        owned.push(String::from_str(names[i]));
        i = i + 1;
    }
    assert(crate::markdown::views(owned@) =~= str_views(names@));
    let mut out = String::from_str("chore(bench): publish ");
    out.append(crate::markdown::join_strings(&owned, " and ").as_str());
    out.append(" benchmark data");
    out
}

/// The labels of the data PR: `automated`, then one per pending suite.
pub open spec fn suite_labels_spec(p: PendingSuites) -> Seq<Seq<char>> {
    seq!["automated"@] + (if p.proxy is Some {
        seq![BENCHMARK_DATA_LABEL@]
    } else {
        Seq::empty()
    }) + (if p.hnsw is Some {
        seq![HNSW_BENCHMARK_DATA_LABEL@]
    } else {
        Seq::empty()
    }) + (if p.ranking is Some {
        seq![RANKING_QUALITY_BENCHMARK_DATA_LABEL@]
    } else {
        Seq::empty()
    }) + (if p.write is Some {
        seq![WRITE_PIPELINE_BENCHMARK_DATA_LABEL@]
    } else {
        Seq::empty()
    }) + (if p.extraction is Some {
        seq![EXTRACTION_QUALITY_BENCHMARK_DATA_LABEL@]
    } else {
        Seq::empty()
    })
}

proof fn lemma_contains_add(a: Seq<Seq<char>>, b: Seq<Seq<char>>, x: Seq<char>)
    ensures
        (a + b).contains(x) <==> a.contains(x) || b.contains(x),
{
    if (a + b).contains(x) {
        let k = choose|k: int| 0 <= k < (a + b).len() && (a + b)[k] == x;
        if k >= a.len() {
            assert(b[k - a.len()] == x);
        }
    }
    if a.contains(x) {
        let k = choose|k: int| 0 <= k < a.len() && a[k] == x;
        assert((a + b)[k] == x);
    }
    if b.contains(x) {
        let k = choose|k: int| 0 <= k < b.len() && b[k] == x;
        assert((a + b)[a.len() + k] == x);
    }
}

pub open spec fn label_if(present: bool, label: Seq<char>) -> Seq<Seq<char>> {
    if present {
        seq![label]
    } else {
        Seq::empty()
    }
}

/// The data PR is labelled `automated` first, and carries each suite's label
/// exactly when that suite is pending on the shared branch.
pub proof fn lemma_labels_name_pending_suites(p: PendingSuites)
    ensures
        suite_labels_spec(p).len() > 0 && suite_labels_spec(p)[0] == "automated"@,
        suite_labels_spec(p).contains(BENCHMARK_DATA_LABEL@) <==> p.proxy is Some,
        suite_labels_spec(p).contains(HNSW_BENCHMARK_DATA_LABEL@) <==> p.hnsw is Some,
        suite_labels_spec(p).contains(RANKING_QUALITY_BENCHMARK_DATA_LABEL@) <==> p.ranking is Some,
        suite_labels_spec(p).contains(WRITE_PIPELINE_BENCHMARK_DATA_LABEL@) <==> p.write is Some,
        suite_labels_spec(p).contains(EXTRACTION_QUALITY_BENCHMARK_DATA_LABEL@) <==> p.extraction is Some,
{
    reveal_strlit("automated");
    reveal_strlit("benchmark-data");
    reveal_strlit("hnsw-benchmark-data");
    reveal_strlit("ranking-quality-benchmark-data");
    reveal_strlit("write-pipeline-benchmark-data");
    reveal_strlit("extraction-quality-benchmark-data");
    let names = seq![
        "automated"@,
        BENCHMARK_DATA_LABEL@,
        HNSW_BENCHMARK_DATA_LABEL@,
        RANKING_QUALITY_BENCHMARK_DATA_LABEL@,
        WRITE_PIPELINE_BENCHMARK_DATA_LABEL@,
        EXTRACTION_QUALITY_BENCHMARK_DATA_LABEL@,
    ];
    assert forall|a: int, b: int| 0 <= a < 6 && 0 <= b < 6 && a != b implies #[trigger] names[a]
        != #[trigger] names[b] by {
        assert(names[a][0] != names[b][0]);
    }
    let p0 = seq!["automated"@];
    let p1 = label_if(p.proxy is Some, names[1]);
    let p2 = label_if(p.hnsw is Some, names[2]);
    let p3 = label_if(p.ranking is Some, names[3]);
    let p4 = label_if(p.write is Some, names[4]);
    let p5 = label_if(p.extraction is Some, names[5]);
    assert(suite_labels_spec(p) == p0 + p1 + p2 + p3 + p4 + p5);
    assert forall|t: int| 1 <= t < 6 implies (suite_labels_spec(p).contains(#[trigger] names[t]) <==> (
    p0.contains(names[t]) || p1.contains(names[t]) || p2.contains(names[t]) || p3.contains(names[t])
        || p4.contains(names[t]) || p5.contains(names[t]))) by {
        let x = names[t];
        lemma_contains_add(p0 + p1 + p2 + p3 + p4, p5, x);
        lemma_contains_add(p0 + p1 + p2 + p3, p4, x);
        lemma_contains_add(p0 + p1 + p2, p3, x);
        lemma_contains_add(p0 + p1, p2, x);
        lemma_contains_add(p0, p1, x);
    }
    assert forall|f: bool, t: int, u: int| 0 <= t < 6 && 0 <= u < 6 && t != u implies !(
    #[trigger] label_if(f, names[u]).contains(names[t])) by {
        if label_if(f, names[u]).contains(names[t]) {
            let k = choose|k: int| 0 <= k < label_if(f, names[u]).len() && label_if(f, names[u])[k] == names[t];
            assert(label_if(f, names[u])[k] == names[u]);
        }
    }
    assert(p0.contains(names[1]) == false) by { assert(p0[0] == names[0]); }
    assert(!p0.contains(names[2])) by { assert(p0[0] == names[0]); }
    assert(!p0.contains(names[3])) by { assert(p0[0] == names[0]); }
    assert(!p0.contains(names[4])) by { assert(p0[0] == names[0]); }
    assert(!p0.contains(names[5])) by { assert(p0[0] == names[0]); }
    assert(p1.contains(names[1]) <==> p.proxy is Some) by { if p.proxy is Some { assert(p1[0] == names[1]); } }
    assert(p2.contains(names[2]) <==> p.hnsw is Some) by { if p.hnsw is Some { assert(p2[0] == names[2]); } }
    assert(p3.contains(names[3]) <==> p.ranking is Some) by { if p.ranking is Some { assert(p3[0] == names[3]); } }
    assert(p4.contains(names[4]) <==> p.write is Some) by { if p.write is Some { assert(p4[0] == names[4]); } }
    assert(p5.contains(names[5]) <==> p.extraction is Some) by { if p.extraction is Some { assert(p5[0] == names[5]); } }
}

pub fn suite_labels(pending: &PendingSuites) -> (r: Vec<&'static str>)
    ensures
        str_views(r@) == suite_labels_spec(*pending),
{
    let mut labels: Vec<&'static str> = vec!["automated"];
    if pending.proxy.is_some() {
        labels.push(BENCHMARK_DATA_LABEL);
    }
    if pending.hnsw.is_some() {
        labels.push(HNSW_BENCHMARK_DATA_LABEL);
    }
    if pending.ranking.is_some() {
        labels.push(RANKING_QUALITY_BENCHMARK_DATA_LABEL);
    }
    if pending.write.is_some() {
        labels.push(WRITE_PIPELINE_BENCHMARK_DATA_LABEL);
    }
    if pending.extraction.is_some() {
        labels.push(EXTRACTION_QUALITY_BENCHMARK_DATA_LABEL);
    }
    assert(str_views(labels@) =~= suite_labels_spec(*pending));
    labels
}

/// The shared data PR can only be refreshed when some suite is pending.
pub fn require_pending(pending: &PendingSuites) -> (r: Result<(), BotError>)
    ensures
        fails_as(
            r,
            if pending.none_pending() {
                Some("no pending benchmark suite files on shared data branch"@)
            } else {
                None
            },
        ),
{
    if pending.is_empty() {
        Err(bot_err(String::from_str("no pending benchmark suite files on shared data branch")))
    } else {
        Ok(())
    }
}

/// The commit subject of a suite's data update.
pub fn commit_subject(suite: &str, run_number: i64) -> (r: String)
    ensures
        r@ == "chore(bench): "@ + suite@ + " benchmark data update (run #"@ + decimal_int(
            run_number as int,
        ) + ")"@,
{
    let mut out = String::from_str("chore(bench): ");
    out.append(suite);
    out.append(" benchmark data update (run #");
    out.append(i64_to_string(run_number).as_str());
    out.append(")");
    out
}

} // verus!
