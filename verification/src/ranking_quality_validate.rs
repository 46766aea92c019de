//! Validation of published ranking-quality benchmark JSON, and the checks shared
//! by every memory benchmark suite (run headers, history cross-checks, replay
//! lookups).

use vstd::prelude::*;

use crate::error::{bot_err, fails_as, BotError};
use crate::float::{in_unit, F64Bits};
use crate::model::{RankingQualityBenchmarkData, RankingQualityBenchmarkRun, WorkflowRun};
use crate::text::{
    ascii_lower, byte_len, cat, cat3, chars_of, decimal, ends_with, ends_with_chars,
    eq_ignore_ascii_case, eq_ignore_ascii_case_str, eq_str, opt_eq, str_byte_len, to_lowercase,
    trim, trim_str, unicode_lowercase, usize_to_string, i64_to_string,
};
use crate::verify::{cleaned_sha, hex_sha, is_hex_sha, opt_is};

verus! {

pub const MAX_RUNS: usize = 50;
pub const MAX_RUN_NUMBER: i64 = 1_000_000;

/// `"runs[{index}]"`.
pub open spec fn run_label(index: nat) -> Seq<char> {
    "runs["@ + decimal(index) + "]"@
}

pub fn run_label_string(index: usize) -> (s: String)
    ensures
        s@ == run_label(index as nat),
{
    let n = usize_to_string(index);
    cat3("runs[", n.as_str(), "]")
}

/// The earlier failure if there is one, else the later.
pub open spec fn first_failure(a: Option<Seq<char>>, b: Option<Seq<char>>) -> Option<Seq<char>> {
    if a is Some {
        a
    } else {
        b
    }
}

pub open spec fn opt_view(o: Option<String>) -> Option<Seq<char>> {
    match o {
        Some(s) => Some(s@),
        None => None,
    }
}

pub open spec fn opt_str_view(o: Option<&str>) -> Option<Seq<char>> {
    match o {
        Some(s) => Some(s@),
        None => None,
    }
}

/// The SHA, short SHA and run number checks every memory suite run must pass.
pub open spec fn run_header_failure(
    sha: Option<String>,
    short_sha: Option<String>,
    run_number: Option<i64>,
    label: Seq<char>,
) -> Option<Seq<char>> {
    match sha {
        None => Some(label + ".sha required"@),
        Some(s) => if !hex_sha(cleaned_sha(s@)) {
            Some(label + ".sha"@ + " must be hexadecimal"@)
        } else {
            match short_sha {
                None => Some(label + ".short_sha required"@),
                Some(t) => if byte_len(t@) < 7 {
                    Some(label + ".short_sha too short"@)
                } else {
                    match run_number {
                        None => Some(label + ".run_number required"@),
                        Some(n) => if !(0 <= n <= MAX_RUN_NUMBER) {
                            Some(label + ".run_number out of range"@)
                        } else {
                            None
                        },
                    }
                },
            }
        },
    }
}

/// `field` must be hexadecimal once trimmed and lower-cased.
pub(crate) fn require_sha_field(value: &str, field: &str) -> (r: Result<(), BotError>)
    ensures
        fails_as(
            r,
            if hex_sha(cleaned_sha(value@)) {
                None
            } else {
                Some(field@ + " must be hexadecimal"@)
            },
        ),
{
    let trimmed = trim_str(value);
    let cleaned = to_lowercase(trimmed.as_str());
    if !is_hex_sha(cleaned.as_str()) {
        return Err(bot_err(cat(field, " must be hexadecimal")));
    }
    Ok(())
}

pub(crate) fn check_run_header(
    sha: &Option<String>,
    short_sha: &Option<String>,
    run_number: Option<i64>,
    label: &str,
) -> (r: Result<(), BotError>)
    ensures
        fails_as(r, run_header_failure(*sha, *short_sha, run_number, label@)),
{
    let sha = match sha {
        None => return Err(bot_err(cat(label, ".sha required"))),
        Some(s) => s,
    };
    let field = cat(label, ".sha");
    require_sha_field(sha.as_str(), field.as_str())?;
    let short = match short_sha {
        None => return Err(bot_err(cat(label, ".short_sha required"))),
        Some(s) => s,
    };
    if str_byte_len(short.as_str()) < 7 {
        return Err(bot_err(cat(label, ".short_sha too short")));
    }
    let n = match run_number {
        None => return Err(bot_err(cat(label, ".run_number required"))),
        Some(n) => n,
    };
    if !(0 <= n && n <= MAX_RUN_NUMBER) {
        return Err(bot_err(cat(label, ".run_number out of range")));
    }
    Ok(())
}

/// A suite run's optional status must be `pass`, `fail` or `warn`.
pub open spec fn status_failure(status: Option<String>, label: Seq<char>) -> Option<Seq<char>> {
    match status {
        Some(s) => if s@ == "pass"@ || s@ == "fail"@ || s@ == "warn"@ {
            None
        } else {
            Some(label + ".status invalid"@)
        },
        None => None,
    }
}

pub(crate) fn check_status(status: &Option<String>, label: &str) -> (r: Result<(), BotError>)
    ensures
        fails_as(r, status_failure(*status, label@)),
{
    match status {
        Some(s) => {
            let t = s.as_str();
            if eq_str(t, "pass") || eq_str(t, "fail") || eq_str(t, "warn") {
                Ok(())
            } else {
                Err(bot_err(cat(label, ".status invalid")))
            }
        },
        None => Ok(()),
    }
}

/// A required metric in `[0, 1]`.
pub open spec fn required_unit_failure(
    label: Seq<char>,
    name: Seq<char>,
    value: Option<F64Bits>,
) -> Option<Seq<char>> {
    match value {
        None => Some(label + ".metrics."@ + name + " required"@),
        Some(v) => if in_unit(v.0) {
            None
        } else {
            Some(label + ".metrics."@ + name + " out of range"@)
        },
    }
}

pub(crate) fn check_required_unit(label: &str, name: &str, value: Option<F64Bits>) -> (r: Result<
    (),
    BotError,
>)
    ensures
        fails_as(r, required_unit_failure(label@, name@, value)),
{
    match value {
        None => {
            let mut m = cat3(label, ".metrics.", name);
            m.append(" required");
            Err(bot_err(m))
        },
        Some(v) => if v.is_in_unit() {
            Ok(())
        } else {
            let mut m = cat3(label, ".metrics.", name);
            m.append(" out of range");
            Err(bot_err(m))
        },
    }
}

/// The fields of a suite run that the history checks read.
pub trait MemorySuiteRunFields {
    spec fn spec_sha(&self) -> Option<Seq<char>>;

    spec fn spec_run_number(&self) -> Option<i64>;

    spec fn spec_run_url(&self) -> Option<Seq<char>>;

    fn sha(&self) -> (r: Option<&str>)
        ensures
            opt_str_view(r) == self.spec_sha(),
    ;

    fn run_number(&self) -> (r: Option<i64>)
        ensures
            r == self.spec_run_number(),
    ;

    fn run_url(&self) -> (r: Option<&str>)
        ensures
            opt_str_view(r) == self.spec_run_url(),
    ;
}

/// The per-run validation of a suite, given the run's index in `runs`.
pub trait SuiteRunValidation: MemorySuiteRunFields {
    spec fn failure_at(&self, index: nat) -> Option<Seq<char>>;

    fn check_at(&self, index: usize) -> (r: Result<(), BotError>)
        ensures
            fails_as(r, self.failure_at(index as nat)),
    ;
}

/// Run `i` has a SHA that an earlier run already has.
pub open spec fn sha_seen_before<T: MemorySuiteRunFields>(runs: Seq<T>, i: int) -> bool {
    runs[i].spec_sha() is Some && exists|j: int|
        0 <= j < i && #[trigger] runs[j].spec_sha() == runs[i].spec_sha()
}

/// The first failing run at or after `i`: its own validation, then a SHA that
/// repeats an earlier run's (reported as `dup` followed by the SHA).
pub open spec fn suite_runs_failure<T: SuiteRunValidation>(
    runs: Seq<T>,
    i: int,
    dup: Seq<char>,
) -> Option<Seq<char>>
    decreases runs.len() - i,
{
    if i < 0 || i >= runs.len() {
        None
    } else if runs[i].failure_at(i as nat) is Some {
        runs[i].failure_at(i as nat)
    } else if sha_seen_before(runs, i) {
        Some(dup + runs[i].spec_sha().unwrap())
    } else {
        suite_runs_failure(runs, i + 1, dup)
    }
}

/// The schema, benchmark name and run list checks of a memory suite payload.
pub open spec fn suite_payload_failure<T: SuiteRunValidation>(
    schema_version: Option<i64>,
    benchmark: Option<String>,
    runs: Option<Vec<T>>,
    suite: Seq<char>,
    benchmark_name: Seq<char>,
) -> Option<Seq<char>> {
    if schema_version != Some(1i64) {
        Some(suite + " schema_version must be 1"@)
    } else if !opt_is(benchmark, benchmark_name) {
        Some(suite + " benchmark must be "@ + benchmark_name)
    } else {
        match runs {
            None => Some(suite + " runs must be an array"@),
            Some(rs) => if rs@.len() == 0 {
                Some(suite + " runs must not be empty"@)
            } else if rs@.len() > MAX_RUNS {
                Some(suite + " runs exceeds max 50"@)
            } else {
                suite_runs_failure(rs@, 0, "duplicate "@ + suite + " sha: "@)
            },
        }
    }
}

proof fn lemma_suite_runs_accepted<T: SuiteRunValidation>(runs: Seq<T>, i: int, dup: Seq<char>)
    requires
        0 <= i,
        suite_runs_failure(runs, i, dup) is None,
    ensures
        forall|b: int|
            i <= b < runs.len() ==> (#[trigger] runs[b]).failure_at(b as nat) is None
                && !sha_seen_before(runs, b),
    decreases runs.len() - i,
{
    if i < runs.len() {
        lemma_suite_runs_accepted(runs, i + 1, dup);
    }
}

/// An accepted memory suite history has schema 1, the suite's benchmark
/// name, one to fifty runs that each pass the suite's run checks, and no two
/// runs with the same SHA.
pub proof fn lemma_accepted_suite_history<T: SuiteRunValidation>(
    schema_version: Option<i64>,
    benchmark: Option<String>,
    runs: Option<Vec<T>>,
    suite: Seq<char>,
    benchmark_name: Seq<char>,
)
    ensures
        suite_payload_failure(schema_version, benchmark, runs, suite, benchmark_name) is None ==> {
            &&& schema_version == Some(1i64)
            &&& (benchmark matches Some(b) && b@ == benchmark_name)
            &&& runs is Some && 1 <= runs.unwrap()@.len() <= 50
            &&& forall|a: int|
                0 <= a < runs.unwrap()@.len() ==> (#[trigger] runs.unwrap()@[a]).failure_at(a as nat) is None
            &&& forall|a: int, b: int|
                0 <= a < b < runs.unwrap()@.len() ==> (#[trigger] runs.unwrap()@[a].spec_sha() matches Some(x)
                    ==> #[trigger] runs.unwrap()@[b].spec_sha() != Some(x))
        },
{
    if suite_payload_failure(schema_version, benchmark, runs, suite, benchmark_name) is None {
        let rs = runs.unwrap()@;
        lemma_suite_runs_accepted(rs, 0, "duplicate "@ + suite + " sha: "@);
        assert forall|a: int, b: int| 0 <= a < b < rs.len() implies (#[trigger] rs[a].spec_sha() matches Some(x)
            ==> #[trigger] rs[b].spec_sha() != Some(x)) by {
            let _ = rs[b];
            assert(!sha_seen_before(rs, b));
        }
    }
}

fn sha_repeats<T: MemorySuiteRunFields>(runs: &Vec<T>, i: usize, sha: &str) -> (r: bool)
    requires
        i < runs@.len(),
        runs@[i as int].spec_sha() == Some(sha@),
    ensures
        r == sha_seen_before(runs@, i as int),
{
    let mut j: usize = 0;
    while j < i
        invariant
            i < runs@.len(),
            j <= i,
            runs@[i as int].spec_sha() == Some(sha@),
            forall|k: int| 0 <= k < j ==> #[trigger] runs@[k].spec_sha() != Some(sha@),
        decreases i - j,
    {
        if let Some(other) = runs[j].sha() {
            if eq_str(other, sha) {
                assert(runs@[j as int].spec_sha() == runs@[i as int].spec_sha());
                return true;
            }
        }
        j = j + 1;
    }
    false
}

pub(crate) fn validate_suite_runs<T: SuiteRunValidation>(runs: &Vec<T>, dup: &str) -> (r: Result<
    (),
    BotError,
>)
    ensures
        fails_as(r, suite_runs_failure(runs@, 0, dup@)),
{
    let n: usize = runs.len();
    let mut i: usize = 0;
    while i < n
        invariant
            n == runs@.len(),
            i <= n,
            suite_runs_failure(runs@, 0, dup@) == suite_runs_failure(runs@, i as int, dup@),
        decreases n - i,
    {
        runs[i].check_at(i)?;
        if let Some(sha) = runs[i].sha() {
            if sha_repeats(runs, i, sha) {
                return Err(bot_err(cat(dup, sha)));
            }
        }
        i = i + 1;
    }
    Ok(())
}

pub(crate) fn validate_suite_payload<T: SuiteRunValidation>(
    schema_version: Option<i64>,
    benchmark: &Option<String>,
    runs: &Option<Vec<T>>,
    suite: &str,
    benchmark_name: &str,
) -> (r: Result<(), BotError>)
    ensures
        fails_as(
            r,
            suite_payload_failure(schema_version, *benchmark, *runs, suite@, benchmark_name@),
        ),
{
    if schema_version != Some(1i64) {
        return Err(bot_err(cat(suite, " schema_version must be 1")));
    }
    if !opt_eq(benchmark, benchmark_name) {
        return Err(bot_err(cat3(suite, " benchmark must be ", benchmark_name)));
    }
    let runs = match runs {
        None => return Err(bot_err(cat(suite, " runs must be an array"))),
        Some(rs) => rs,
    };
    if runs.len() == 0 {
        return Err(bot_err(cat(suite, " runs must not be empty")));
    }
    if runs.len() > MAX_RUNS {
        return Err(bot_err(cat(suite, " runs exceeds max 50")));
    }
    let dup = cat3("duplicate ", suite, " sha: ");
    validate_suite_runs(runs, dup.as_str())
}


pub open spec fn vec_seq<T>(o: Option<Vec<T>>) -> Option<Seq<T>> {
    match o {
        Some(v) => Some(v@),
        None => None,
    }
}

pub open spec fn ref_vec_seq<T>(o: Option<&Vec<T>>) -> Option<Seq<T>> {
    match o {
        Some(v) => Some(v@),
        None => None,
    }
}

/// The run URL recorded in `runs[0]` must be the verified workflow's URL, or,
/// when the workflow has none, end with `/actions/runs/{run_id}`.
pub open spec fn run_url_failure(
    run_url: Seq<char>,
    html_url: Option<String>,
    run_id: i64,
    suite: Seq<char>,
) -> Option<Seq<char>> {
    match html_url {
        Some(expected) => if trim(run_url) != trim(expected@) {
            Some(suite + " runs[0].run_url must match verified workflow html_url"@)
        } else {
            None
        },
        None => if !ends_with(trim(run_url), "/actions/runs/"@ + crate::text::decimal_int(run_id as int)) {
            Some(suite + " runs[0].run_url must reference dispatch run_id"@)
        } else {
            None
        },
    }
}

/// Run `i` has a SHA equal, after lower-casing, to an earlier run's SHA.
pub open spec fn lowered_sha_seen_before<T: MemorySuiteRunFields>(runs: Seq<T>, i: int) -> bool {
    runs[i].spec_sha() matches Some(s) && exists|j: int|
        0 <= j < i && (#[trigger] runs[j].spec_sha() matches Some(t) && unicode_lowercase(t)
            == unicode_lowercase(s))
}

/// No run of the history is newer than the dispatched run, and no two runs
/// share a SHA (ignoring case), from index `i` on.
pub open spec fn history_failure<T: MemorySuiteRunFields>(
    runs: Seq<T>,
    i: int,
    expected_run_number: i64,
    suite: Seq<char>,
) -> Option<Seq<char>>
    decreases runs.len() - i,
{
    if i < 0 || i >= runs.len() {
        None
    } else if runs[i].spec_run_number() matches Some(n) && n > expected_run_number {
        Some(
            suite + " "@ + run_label(i as nat) + ".run_number exceeds verified dispatch run_number"@,
        )
    } else if lowered_sha_seen_before(runs, i) {
        Some(suite + " "@ + run_label(i as nat) + ".sha duplicates an earlier run"@)
    } else {
        history_failure(runs, i + 1, expected_run_number, suite)
    }
}

/// Binding of a suite artifact's history to the verified workflow run.
pub open spec fn cross_check_failure<T: MemorySuiteRunFields>(
    runs: Option<Seq<T>>,
    workflow: WorkflowRun,
    run_id: i64,
    expected_run_number: i64,
    suite: Seq<char>,
) -> Option<Seq<char>> {
    match runs {
        None => Some(suite + " runs must be an array"@),
        Some(rs) => if rs.len() == 0 {
            Some(suite + " runs must contain latest entry"@)
        } else {
            match workflow.head_sha {
                None => Some("workflow head_sha missing"@),
                Some(h) => match rs[0].spec_sha() {
                    None => Some("runs[0].sha required"@),
                    Some(s) => if unicode_lowercase(s) != unicode_lowercase(h@) {
                        Some(suite + " runs[0].sha mismatch with verified workflow head_sha"@)
                    } else if rs[0].spec_run_number() != Some(expected_run_number) {
                        Some(suite + " runs[0].run_number mismatch with dispatch payload"@)
                    } else {
                        match rs[0].spec_run_url() {
                            None => Some("runs[0].run_url required"@),
                            Some(u) => first_failure(
                                run_url_failure(u, workflow.html_url, run_id, suite),
                                history_failure(rs, 0, expected_run_number, suite),
                            ),
                        }
                    },
                },
            }
        },
    }
}

proof fn lemma_history_accepted<T: MemorySuiteRunFields>(
    runs: Seq<T>,
    i: int,
    expected_run_number: i64,
    suite: Seq<char>,
)
    requires
        0 <= i,
        history_failure(runs, i, expected_run_number, suite) is None,
    ensures
        forall|b: int|
            i <= b < runs.len() ==> !(#[trigger] runs[b].spec_run_number() matches Some(n) && n
                > expected_run_number) && !lowered_sha_seen_before(runs, b),
    decreases runs.len() - i,
{
    if i < runs.len() {
        lemma_history_accepted(runs, i + 1, expected_run_number, suite);
    }
}

/// A suite artifact passes the cross-check only when its latest run is the
/// verified run (same commit ignoring case, the dispatched run number, the
/// verified run's URL when the workflow gives one), no run of its history is
/// newer than the dispatch, and no two runs share a commit.
pub proof fn lemma_cross_check_binds_history<T: MemorySuiteRunFields>(
    runs: Option<Seq<T>>,
    workflow: WorkflowRun,
    run_id: i64,
    expected_run_number: i64,
    suite: Seq<char>,
)
    ensures
        cross_check_failure(runs, workflow, run_id, expected_run_number, suite) is None ==> {
            &&& runs is Some && runs.unwrap().len() > 0
            &&& (runs.unwrap()[0].spec_sha() matches Some(s) && (workflow.head_sha matches Some(h)
                && unicode_lowercase(s) == unicode_lowercase(h@)))
            &&& runs.unwrap()[0].spec_run_number() == Some(expected_run_number)
            &&& (workflow.html_url matches Some(w) ==> (runs.unwrap()[0].spec_run_url() matches Some(u)
                && trim(u) == trim(w@)))
            &&& forall|b: int|
                0 <= b < runs.unwrap().len() ==> (#[trigger] runs.unwrap()[b].spec_run_number() matches Some(
                    n,
                ) ==> n <= expected_run_number)
            &&& forall|a: int, b: int|
                0 <= a < b < runs.unwrap().len() ==> (#[trigger] runs.unwrap()[a].spec_sha() matches Some(x)
                    ==> (#[trigger] runs.unwrap()[b].spec_sha() matches Some(y) ==> unicode_lowercase(x)
                    != unicode_lowercase(y)))
        },
{
    if cross_check_failure(runs, workflow, run_id, expected_run_number, suite) is None {
        let rs = runs.unwrap();
        assert(history_failure(rs, 0, expected_run_number, suite) is None);
        lemma_history_accepted(rs, 0, expected_run_number, suite);
        assert forall|a: int, b: int| 0 <= a < b < rs.len() implies (#[trigger] rs[a].spec_sha() matches Some(x)
            ==> (#[trigger] rs[b].spec_sha() matches Some(y) ==> unicode_lowercase(x)
            != unicode_lowercase(y))) by {
            let _ = rs[b].spec_run_number();
            assert(!lowered_sha_seen_before(rs, b));
        }
    }
}

fn verify_dispatch_run_url(run_url: &str, workflow: &WorkflowRun, run_id: i64, suite: &str) -> (r:
    Result<(), BotError>)
    ensures
        fails_as(r, run_url_failure(run_url@, workflow.html_url, run_id, suite@)),
{
    let url = trim_str(run_url);
    match &workflow.html_url {
        Some(expected) => {
            let e = trim_str(expected.as_str());
            if !eq_str(url.as_str(), e.as_str()) {
                return Err(
                    bot_err(cat(suite, " runs[0].run_url must match verified workflow html_url")),
                );
            }
            Ok(())
        },
        None => {
            let id = i64_to_string(run_id);
            let suffix = cat("/actions/runs/", id.as_str());
            let uv = chars_of(url.as_str());
            let sv = chars_of(suffix.as_str());
            if !ends_with_chars(uv.as_slice(), sv.as_slice()) {
                return Err(bot_err(cat(suite, " runs[0].run_url must reference dispatch run_id")));
            }
            Ok(())
        },
    }
}

fn lowered_repeats<T: MemorySuiteRunFields>(runs: &Vec<T>, i: usize, lowered: &str) -> (r: bool)
    requires
        i < runs@.len(),
        runs@[i as int].spec_sha() matches Some(s) && unicode_lowercase(s) == lowered@,
    ensures
        r == lowered_sha_seen_before(runs@, i as int),
{
    let mut j: usize = 0;
    while j < i
        invariant
            i < runs@.len(),
            j <= i,
            runs@[i as int].spec_sha() matches Some(s) && unicode_lowercase(s) == lowered@,
            forall|k: int|
                0 <= k < j ==> !(#[trigger] runs@[k].spec_sha() matches Some(t)
                    && unicode_lowercase(t) == lowered@),
        decreases i - j,
    {
        if let Some(other) = runs[j].sha() {
            let lo = to_lowercase(other);
            if eq_str(lo.as_str(), lowered) {
                return true;
            }
        }
        j = j + 1;
    }
    false
}

fn check_history<T: MemorySuiteRunFields>(
    runs: &Vec<T>,
    expected_run_number: i64,
    suite: &str,
) -> (r: Result<(), BotError>)
    ensures
        fails_as(r, history_failure(runs@, 0, expected_run_number, suite@)),
{
    let n: usize = runs.len();
    let mut i: usize = 0;
    while i < n
        invariant
            n == runs@.len(),
            i <= n,
            history_failure(runs@, 0, expected_run_number, suite@) == history_failure(
                runs@,
                i as int,
                expected_run_number,
                suite@,
            ),
        decreases n - i,
    {
        if let Some(number) = runs[i].run_number() {
            if number > expected_run_number {
                let label = run_label_string(i);
                let mut m = cat3(suite, " ", label.as_str());
                m.append(".run_number exceeds verified dispatch run_number");
                return Err(bot_err(m));
            }
        }
        if let Some(sha) = runs[i].sha() {
            let lowered = to_lowercase(sha);
            if lowered_repeats(runs, i, lowered.as_str()) {
                let label = run_label_string(i);
                let mut m = cat3(suite, " ", label.as_str());
                m.append(".sha duplicates an earlier run");
                return Err(bot_err(m));
            }
        }
        i = i + 1;
    }
    Ok(())
}

/// Binds `runs[0]` of a memory suite artifact to the verified workflow run
/// (same head SHA, run number and run URL) and rejects a history holding a
/// newer run number or a repeated SHA.
pub(crate) fn cross_check_memory_suite_run<T: MemorySuiteRunFields>(
    runs: Option<&Vec<T>>,
    workflow: &WorkflowRun,
    run_id: i64,
    expected_run_number: i64,
    suite: &str,
) -> (r: Result<(), BotError>)
    ensures
        fails_as(
            r,
            cross_check_failure(ref_vec_seq(runs), *workflow, run_id, expected_run_number, suite@),
        ),
        r is Ok ==> {
            &&& runs is Some && runs.unwrap()@.len() > 0
            &&& (runs.unwrap()@[0].spec_sha() matches Some(s) && (workflow.head_sha matches Some(h)
                && unicode_lowercase(s) == unicode_lowercase(h@)))
            &&& runs.unwrap()@[0].spec_run_number() == Some(expected_run_number)
        },
{
    proof {
        lemma_cross_check_binds_history(ref_vec_seq(runs), *workflow, run_id, expected_run_number, suite@);
    }
    let runs = match runs {
        None => return Err(bot_err(cat(suite, " runs must be an array"))),
        Some(rs) => rs,
    };
    if runs.len() == 0 {
        return Err(bot_err(cat(suite, " runs must contain latest entry")));
    }
    let latest = &runs[0];
    let head_sha = match &workflow.head_sha {
        None => return Err(bot_err(String::from_str("workflow head_sha missing"))),
        Some(h) => to_lowercase(h.as_str()),
    };
    let run_sha = match latest.sha() {
        None => return Err(bot_err(String::from_str("runs[0].sha required"))),
        Some(s) => to_lowercase(s),
    };
    if !eq_str(run_sha.as_str(), head_sha.as_str()) {
        return Err(bot_err(cat(suite, " runs[0].sha mismatch with verified workflow head_sha")));
    }
    let same_number = match latest.run_number() {
        Some(n) => n == expected_run_number,
        None => false,
    };
    if !same_number {
        return Err(bot_err(cat(suite, " runs[0].run_number mismatch with dispatch payload")));
    }
    let run_url = match latest.run_url() {
        None => return Err(bot_err(String::from_str("runs[0].run_url required"))),
        Some(u) => u,
    };
    verify_dispatch_run_url(run_url, workflow, run_id, suite)?;
    check_history(runs, expected_run_number, suite)
}

pub open spec fn sha_matches(sha: Option<Seq<char>>, needle: Seq<char>) -> bool {
    sha matches Some(s) && eq_ignore_ascii_case(s, needle)
}

/// Some run's SHA equals `head_sha` lower-cased, ignoring ASCII case.
pub open spec fn runs_have_sha<T: MemorySuiteRunFields>(runs: Seq<T>, head_sha: Seq<char>) -> bool {
    exists|i: int|
        0 <= i < runs.len() && sha_matches(#[trigger] runs[i].spec_sha(), unicode_lowercase(head_sha))
}

proof fn lemma_runs_have_sha_witness<T: MemorySuiteRunFields>(
    runs: Seq<T>,
    i: int,
    head_sha: Seq<char>,
)
    requires
        0 <= i < runs.len(),
        sha_matches(runs[i].spec_sha(), unicode_lowercase(head_sha)),
    ensures
        runs_have_sha(runs, head_sha),
{
}

pub open spec fn history_has_sha<T: MemorySuiteRunFields>(
    runs: Option<Seq<T>>,
    head_sha: Seq<char>,
) -> bool {
    runs is Some && runs_have_sha(runs.unwrap(), head_sha)
}

pub(crate) fn memory_suite_published_sha_exists<T: MemorySuiteRunFields>(
    runs: Option<&Vec<T>>,
    head_sha: &str,
) -> (r: bool)
    ensures
        r == history_has_sha(ref_vec_seq(runs), head_sha@),
{
    let needle = to_lowercase(head_sha);
    let rs = match runs {
        None => return false,
        Some(rs) => rs,
    };
    assert(ref_vec_seq(runs) == Some(rs@));
    let n: usize = rs.len();
    let mut i: usize = 0;
    while i < n
        invariant
            n == rs@.len(),
            i <= n,
            ref_vec_seq(runs) == Some(rs@),
            needle@ == unicode_lowercase(head_sha@),
            forall|k: int| 0 <= k < i ==> !sha_matches(#[trigger] rs@[k].spec_sha(), needle@),
        decreases n - i,
    {
        if let Some(sha) = rs[i].sha() {
            if eq_ignore_ascii_case_str(sha, needle.as_str()) {
                proof {
                    lemma_runs_have_sha_witness(rs@, i as int, head_sha@);
                }
                return true;
            }
        }
        i = i + 1;
    }
    false
}

/// Largest run number among the first `n` runs, if any has one.
pub open spec fn max_run_number<T: MemorySuiteRunFields>(runs: Seq<T>, n: int) -> Option<i64>
    decreases n,
{
    if n <= 0 {
        None
    } else {
        let prev = max_run_number(runs, n - 1);
        match runs[n - 1].spec_run_number() {
            None => prev,
            Some(x) => match prev {
                None => Some(x),
                Some(p) => Some(if x >= p { x } else { p }),
            },
        }
    }
}

pub proof fn lemma_max_run_number<T: MemorySuiteRunFields>(runs: Seq<T>, n: int)
    requires
        0 <= n <= runs.len(),
    ensures
        max_run_number(runs, n) matches Some(m) ==> (forall|k: int|
            0 <= k < n ==> (#[trigger] runs[k].spec_run_number() matches Some(x) ==> x <= m))
            && exists|k: int| 0 <= k < n && #[trigger] runs[k].spec_run_number() == Some(m),
        max_run_number(runs, n) is None ==> forall|k: int|
            0 <= k < n ==> #[trigger] runs[k].spec_run_number() is None,
    decreases n,
{
    if n > 0 {
        lemma_max_run_number(runs, n - 1);
        if let Some(m) = max_run_number(runs, n) {
            if runs[n - 1].spec_run_number() == Some(m) {
                assert(runs[n - 1].spec_run_number() == Some(m));
            } else {
                let k = choose|k: int| 0 <= k < n - 1 && #[trigger] runs[k].spec_run_number() == Some(m);
                assert(runs[k].spec_run_number() == Some(m));
            }
        }
    }
}

/// The largest published run number of a history (`Iterator::max` over the
/// runs that have one).
pub(crate) fn memory_suite_max_published_run_number<T: MemorySuiteRunFields>(
    runs: Option<&Vec<T>>,
) -> (r: Option<i64>)
    ensures
        r == match ref_vec_seq(runs) {
            Some(rs) => max_run_number(rs, rs.len() as int),
            None => None,
        },
{
    let runs = match runs {
        None => return None,
        Some(rs) => rs,
    };
    let n: usize = runs.len();
    let mut best: Option<i64> = None;
    let mut i: usize = 0;
    while i < n
        invariant
            n == runs@.len(),
            i <= n,
            best == max_run_number(runs@, i as int),
        decreases n - i,
    {
        if let Some(x) = runs[i].run_number() {
            best = match best {
                None => Some(x),
                Some(p) => Some(if x >= p { x } else { p }),
            };
        }
        i = i + 1;
    }
    best
}


impl MemorySuiteRunFields for RankingQualityBenchmarkRun {
    open spec fn spec_sha(&self) -> Option<Seq<char>> {
        opt_view(self.sha)
    }

    open spec fn spec_run_number(&self) -> Option<i64> {
        self.run_number
    }

    open spec fn spec_run_url(&self) -> Option<Seq<char>> {
        opt_view(self.run_url)
    }

    fn sha(&self) -> (r: Option<&str>) {
        match &self.sha {
            Some(s) => Some(s.as_str()),
            None => None,
        }
    }

    fn run_number(&self) -> (r: Option<i64>) {
        self.run_number
    }

    fn run_url(&self) -> (r: Option<&str>) {
        match &self.run_url {
            Some(s) => Some(s.as_str()),
            None => None,
        }
    }
}

/// The first check that ranking-quality run `index` fails.
pub open spec fn ranking_run_failure(run: RankingQualityBenchmarkRun, index: nat) -> Option<
    Seq<char>,
> {
    let label = run_label(index);
    first_failure(
        run_header_failure(run.sha, run.short_sha, run.run_number, label),
        first_failure(
            status_failure(run.status, label),
            match run.metrics {
                None => Some(label + ".metrics required"@),
                Some(m) => first_failure(
                    required_unit_failure(label, "precision_at_5"@, m.precision_at_5),
                    first_failure(
                        required_unit_failure(label, "recall_at_10"@, m.recall_at_10),
                        required_unit_failure(label, "mrr"@, m.mrr),
                    ),
                ),
            },
        ),
    )
}

/// An accepted ranking-quality run has a hexadecimal SHA, a short SHA, a run
/// number in range, a known status when it has one, and precision@5,
/// recall@10 and MRR each in `[0, 1]`.
pub proof fn lemma_accepted_ranking_run(run: RankingQualityBenchmarkRun, index: nat)
    ensures
        ranking_run_failure(run, index) is None ==> {
            &&& (run.sha matches Some(s) && crate::verify::hex_sha(crate::verify::cleaned_sha(s@)))
            &&& run.short_sha is Some
            &&& (run.run_number matches Some(n) && 0 <= n <= 1_000_000)
            &&& (run.status matches Some(s) ==> (s@ == "pass"@ || s@ == "fail"@ || s@ == "warn"@))
            &&& (run.metrics matches Some(m) && (m.precision_at_5 matches Some(v) && in_unit(v.0)) && (
            m.recall_at_10 matches Some(v) && in_unit(v.0)) && (m.mrr matches Some(v) && in_unit(v.0)))
        },
{
}

impl SuiteRunValidation for RankingQualityBenchmarkRun {
    open spec fn failure_at(&self, index: nat) -> Option<Seq<char>> {
        ranking_run_failure(*self, index)
    }

    fn check_at(&self, index: usize) -> (r: Result<(), BotError>) {
        validate_ranking_quality_run(self, index)
    }
}

fn validate_ranking_quality_run(run: &RankingQualityBenchmarkRun, index: usize) -> (r: Result<
    (),
    BotError,
>)
    ensures
        fails_as(r, ranking_run_failure(*run, index as nat)),
{
    let label = run_label_string(index);
    let label = label.as_str();
    check_run_header(&run.sha, &run.short_sha, run.run_number, label)?;
    check_status(&run.status, label)?;
    let metrics = match &run.metrics {
        None => return Err(bot_err(cat(label, ".metrics required"))),
        Some(m) => m,
    };
    check_required_unit(label, "precision_at_5", metrics.precision_at_5)?;
    check_required_unit(label, "recall_at_10", metrics.recall_at_10)?;
    check_required_unit(label, "mrr", metrics.mrr)?;
    Ok(())
}

pub open spec fn ranking_payload_failure(payload: RankingQualityBenchmarkData) -> Option<Seq<char>> {
    suite_payload_failure(
        payload.schema_version,
        payload.benchmark,
        payload.runs,
        "ranking-quality"@,
        "ranking_quality"@,
    )
}

/// A ranking-quality history is accepted when it has schema 1, benchmark
/// `ranking_quality`, one to fifty runs that each pass the run checks, and no
/// SHA twice.
pub fn validate_ranking_quality_payload(payload: &RankingQualityBenchmarkData) -> (r: Result<
    (),
    BotError,
>)
    ensures
        fails_as(r, ranking_payload_failure(*payload)),
{
    validate_suite_payload(
        payload.schema_version,
        &payload.benchmark,
        &payload.runs,
        "ranking-quality",
        "ranking_quality",
    )
}

pub fn cross_check_ranking_quality_artifact_run(
    payload: &RankingQualityBenchmarkData,
    workflow: &WorkflowRun,
    run_id: i64,
    expected_run_number: i64,
) -> (r: Result<(), BotError>)
    ensures
        fails_as(
            r,
            cross_check_failure(
                vec_seq(payload.runs),
                *workflow,
                run_id,
                expected_run_number,
                "ranking-quality"@,
            ),
        ),
{
    cross_check_memory_suite_run(
        payload.runs.as_ref(),
        workflow,
        run_id,
        expected_run_number,
        "ranking-quality",
    )
}

pub fn ranking_quality_published_sha_exists(data: &RankingQualityBenchmarkData, head_sha: &str) -> (r:
    bool)
    ensures
        r == history_has_sha(vec_seq(data.runs), head_sha@),
{
    memory_suite_published_sha_exists(data.runs.as_ref(), head_sha)
}

pub fn ranking_quality_max_published_run_number(data: &RankingQualityBenchmarkData) -> (r: Option<
    i64,
>)
    ensures
        r == match vec_seq(data.runs) {
            Some(rs) => max_run_number(rs, rs.len() as int),
            None => None,
        },
{
    memory_suite_max_published_run_number(data.runs.as_ref())
}

} // verus!
