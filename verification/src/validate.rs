//! Validation of the published proxy benchmark JSON (schema version 1).

use vstd::prelude::*;

use crate::error::{bot_err, fails_as, BotError};
use crate::float::{gt_bound, in_unit, le_zero, nan};
use crate::hnsw_validate::{check_latest_run_binding, latest_run_binding_failure};
use crate::model::{BenchmarkData, BenchmarkRun, K6Metrics, WorkflowRun};
use crate::ranking_quality_validate::{
    first_failure, history_has_sha, max_run_number, memory_suite_max_published_run_number,
    memory_suite_published_sha_exists, opt_view, run_label, run_label_string, sha_seen_before,
    vec_seq, MemorySuiteRunFields,
};
use crate::text::{
    cat, cat3, chars_of, decimal_int, eq_str, i64_to_string, occurs_at, parse_i64,
    parse_i64_spec, string_of,
};

verus! {

pub const MAX_RUNS: usize = 365;
/// Bit pattern of `500.0`, the largest plausible k6 p99 in milliseconds.
pub const MAX_P99_MS_BITS: u64 = 0x407f_4000_0000_0000;
pub const MAX_RUN_NUMBER: i64 = 1_000_000;

/// Start of the last occurrence of `n` in `h` at or before `j`.
pub open spec fn rfind_at_or_before(h: Seq<char>, n: Seq<char>, j: int) -> Option<int>
    decreases j + 1,
{
    if j < 0 {
        None
    } else if occurs_at(h, n, j) {
        Some(j)
    } else {
        rfind_at_or_before(h, n, j - 1)
    }
}

/// Start of the last occurrence of `n` in `h` (what `rsplit(n).next()` cuts at).
pub open spec fn rfind(h: Seq<char>, n: Seq<char>) -> Option<int> {
    rfind_at_or_before(h, n, h.len() - n.len())
}

pub open spec fn slash_start_from(s: Seq<char>, i: int) -> int
    decreases s.len() - i,
{
    if i < 0 || i >= s.len() {
        s.len() as int
    } else if s[i] == '/' {
        slash_start_from(s, i + 1)
    } else {
        i
    }
}

pub open spec fn slash_end_from(s: Seq<char>, lo: int, j: int) -> int
    decreases j - lo,
{
    if j <= lo {
        lo
    } else if s[j - 1] == '/' {
        slash_end_from(s, lo, j - 1)
    } else {
        j
    }
}

/// `str::trim_matches('/')`.
pub open spec fn trim_slashes(s: Seq<char>) -> Seq<char> {
    let lo = slash_start_from(s, 0);
    s.subrange(lo, slash_end_from(s, lo, s.len() as int))
}

pub open spec fn run_marker() -> Seq<char> {
    "/actions/runs/"@
}

/// The run id at the end of a workflow run URL: what follows the last
/// `/actions/runs/`, without surrounding slashes, read as an `i64`.
pub open spec fn run_id_in_url(run_url: Option<Seq<char>>) -> Option<i64> {
    match run_url {
        None => None,
        Some(u) => match rfind(u, run_marker()) {
            None => None,
            Some(k) => parse_i64_spec(trim_slashes(u.subrange(k + run_marker().len(), u.len() as int))),
        },
    }
}

proof fn lemma_slash_bounds(s: Seq<char>, i: int, lo: int, j: int)
    requires
        0 <= i <= s.len(),
        lo <= j,
    ensures
        i <= slash_start_from(s, i) <= s.len(),
        lo <= slash_end_from(s, lo, j) <= j,
    decreases s.len() - i + j - lo,
{
    if i < s.len() && s[i] == '/' {
        lemma_slash_bounds(s, i + 1, lo, j);
    } else if j > lo && s[j - 1] == '/' {
        lemma_slash_bounds(s, i, lo, j - 1);
    }
}

fn trim_slashes_chars(v: &[char]) -> (r: Vec<char>)
    ensures
        r@ == trim_slashes(v@),
{
    let n: usize = v.len();
    let mut i: usize = 0;
    while i < n && v[i] == '/'
        invariant
            n == v@.len(),
            i <= n,
            slash_start_from(v@, i as int) == slash_start_from(v@, 0),
        decreases n - i,
    {
        i = i + 1;
    }
    proof {
        lemma_slash_bounds(v@, 0, 0, 0);
    }
    let mut j: usize = n;
    while j > i && v[j - 1] == '/'
        invariant
            n == v@.len(),
            i <= j <= n,
            i == slash_start_from(v@, 0),
            slash_end_from(v@, i as int, j as int) == slash_end_from(v@, i as int, n as int),
        decreases j,
    {
        j = j - 1;
    }
    let mut out: Vec<char> = Vec::new();
    let mut k: usize = i;
    while k < j
        invariant
            n == v@.len(),
            i <= k <= j <= n,
            out@ == v@.subrange(i as int, k as int),
        decreases j - k,
    {
        out.push(v[k]);
        k = k + 1;
        assert(out@ == v@.subrange(i as int, k as int));
    }
    out
}

proof fn lemma_rfind_sound(h: Seq<char>, n: Seq<char>, j: int)
    ensures
        rfind_at_or_before(h, n, j) matches Some(k) ==> k <= j && occurs_at(h, n, k),
    decreases j + 1,
{
    if j >= 0 && !occurs_at(h, n, j) {
        lemma_rfind_sound(h, n, j - 1);
    }
}

fn rfind_chars(h: &[char], n: &[char]) -> (r: Option<usize>)
    ensures
        match r {
            Some(k) => rfind(h@, n@) == Some(k as int),
            None => rfind(h@, n@) is None,
        },
{
    if n.len() > h.len() {
        return None;
    }
    let mut j: usize = h.len() - n.len();
    loop
        invariant
            j <= h@.len() - n@.len(),
            rfind(h@, n@) == rfind_at_or_before(h@, n@, j as int),
        decreases j,
    {
        if crate::text::matches_at(h, n, j) {
            return Some(j);
        }
        if j == 0 {
            return None;
        }
        j = j - 1;
    }
}

fn run_id_from_url(run_url: Option<&str>) -> (r: Option<i64>)
    ensures
        r == run_id_in_url(crate::ranking_quality_validate::opt_str_view(run_url)),
{
    let url = match run_url {
        None => return None,
        Some(u) => u,
    };
    let uv = chars_of(url);
    let mv = chars_of("/actions/runs/");
    let k = match rfind_chars(uv.as_slice(), mv.as_slice()) {
        None => return None,
        Some(k) => k,
    };
    proof {
        lemma_rfind_sound(uv@, mv@, uv@.len() - mv@.len());
        assert(rfind(uv@, mv@) == Some(k as int));
        assert(occurs_at(uv@, mv@, k as int));
        assert(k + mv@.len() <= uv@.len());
    }
    let ulen: usize = uv.len();
    let mut tail: Vec<char> = Vec::new();
    let mut i: usize = k + mv.len();
    while i < ulen
        invariant
            ulen == uv@.len(),
            k + mv@.len() <= i <= uv@.len(),
            tail@ == uv@.subrange(k + mv@.len(), i as int),
        decreases ulen - i,
    {
        tail.push(uv[i]);
        i = i + 1;
        assert(tail@ == uv@.subrange(k + mv@.len(), i as int));
    }
    let id = string_of(trim_slashes_chars(tail.as_slice()).as_slice());
    parse_i64(id.as_str())
}

/// A required text field: present and not empty.
pub open spec fn require_string_failure(value: Option<String>, label: Seq<char>) -> Option<
    Seq<char>,
> {
    match value {
        None => Some(label + " must be a string"@),
        Some(v) => if v@.len() == 0 {
            Some(label + " must not be empty"@)
        } else {
            None
        },
    }
}

fn require_string(value: &Option<String>, label: &str) -> (r: Result<(), BotError>)
    ensures
        fails_as(r, require_string_failure(*value, label@)),
{
    match value {
        None => Err(bot_err(cat(label, " must be a string"))),
        Some(v) => if v.as_str().is_empty() {
            Err(bot_err(cat(label, " must not be empty")))
        } else {
            Ok(())
        },
    }
}

pub open spec fn proxy_status_known(s: Seq<char>) -> bool {
    s == "pass"@ || s == "regression"@ || s == "fail"@ || s == "unknown"@
}

pub open spec fn status_field_failure(status: Option<String>, label: Seq<char>) -> Option<Seq<char>> {
    match status {
        None => Some(label + ".status must be a string"@),
        Some(s) => if s@.len() == 0 {
            Some(label + ".status must not be empty"@)
        } else if !proxy_status_known(s@) {
            Some(label + ".status invalid: "@ + s@)
        } else {
            None
        },
    }
}

pub open spec fn run_number_failure(run: BenchmarkRun, label: Seq<char>) -> Option<Seq<char>> {
    match run.run_number {
        None => None,
        Some(n) => if n <= 0 || n > MAX_RUN_NUMBER {
            Some(label + ".run_number out of bounds: "@ + decimal_int(n as int))
        } else if run_id_in_url(opt_view(run.run_url)) == Some(n) {
            Some(label + ".run_number must be workflow run number, not run id"@)
        } else {
            None
        },
    }
}

/// k6 metrics are required, with `0 < p99_ms <= 500` (NaN refused) and an
/// error rate (zero when absent) in `[0, 1]`.
pub open spec fn k6_failure(k6: Option<K6Metrics>, label: Seq<char>) -> Option<Seq<char>> {
    match k6 {
        None => Some(label + " required"@),
        Some(k) => match k.p99_ms {
            None => Some(label + ".p99_ms required"@),
            Some(p) => if nan(p.0) || le_zero(p.0) || gt_bound(p.0, MAX_P99_MS_BITS) {
                Some(label + ".p99_ms out of bounds"@)
            } else if k.error_rate matches Some(e) && !in_unit(e.0) {
                Some(label + ".error_rate out of bounds"@)
            } else {
                None
            },
        },
    }
}

/// The first check that proxy run `index` fails.
pub open spec fn proxy_run_failure(run: BenchmarkRun, index: nat) -> Option<Seq<char>> {
    let label = run_label(index);
    first_failure(
        require_string_failure(run.sha, label + ".sha"@),
        first_failure(
            require_string_failure(run.short_sha, label + ".short_sha"@),
            first_failure(
                status_field_failure(run.status, label),
                first_failure(
                    if run.pr_number matches Some(p) && p <= 0 {
                        Some(label + ".pr_number must be positive"@)
                    } else {
                        None
                    },
                    first_failure(
                        run_number_failure(run, label),
                        k6_failure(run.k6, label + ".k6"@),
                    ),
                ),
            ),
        ),
    )
}

fn validate_status(status: &Option<String>, label: &str) -> (r: Result<(), BotError>)
    ensures
        fails_as(r, status_field_failure(*status, label@)),
{
    let s = match status {
        None => return Err(bot_err(cat(label, ".status must be a string"))),
        Some(s) => s.as_str(),
    };
    if s.is_empty() {
        return Err(bot_err(cat(label, ".status must not be empty")));
    }
    if !(eq_str(s, "pass") || eq_str(s, "regression") || eq_str(s, "fail") || eq_str(s, "unknown")) {
        return Err(bot_err(cat3(label, ".status invalid: ", s)));
    }
    Ok(())
}

fn validate_run_number(run: &BenchmarkRun, label: &str) -> (r: Result<(), BotError>)
    ensures
        fails_as(r, run_number_failure(*run, label@)),
{
    let run_number = match run.run_number {
        None => return Ok(()),
        Some(n) => n,
    };
    if run_number <= 0 || run_number > MAX_RUN_NUMBER {
        let n = i64_to_string(run_number);
        return Err(bot_err(cat3(label, ".run_number out of bounds: ", n.as_str())));
    }
    let url = match &run.run_url {
        Some(u) => Some(u.as_str()),
        None => None,
    };
    if let Some(run_id) = run_id_from_url(url) {
        if run_number == run_id {
            return Err(bot_err(cat(label, ".run_number must be workflow run number, not run id")));
        }
    }
    Ok(())
}

fn validate_k6(k6: &Option<K6Metrics>, label: &str) -> (r: Result<(), BotError>)
    ensures
        fails_as(r, k6_failure(*k6, label@)),
{
    let k6 = match k6 {
        None => return Err(bot_err(cat(label, " required"))),
        Some(k) => k,
    };
    let p99 = match k6.p99_ms {
        None => return Err(bot_err(cat(label, ".p99_ms required"))),
        Some(p) => p,
    };
    if p99.is_nan() || p99.is_le_zero() || p99.is_gt_bound(MAX_P99_MS_BITS) {
        return Err(bot_err(cat(label, ".p99_ms out of bounds")));
    }
    if let Some(e) = k6.error_rate {
        if !e.is_in_unit() {
            return Err(bot_err(cat(label, ".error_rate out of bounds")));
        }
    }
    Ok(())
}

fn validate_run(run: &BenchmarkRun, index: usize) -> (r: Result<(), BotError>)
    ensures
        fails_as(r, proxy_run_failure(*run, index as nat)),
{
    let label = run_label_string(index);
    let label = label.as_str();
    let sha_label = cat(label, ".sha");
    require_string(&run.sha, sha_label.as_str())?;
    let short_label = cat(label, ".short_sha");
    require_string(&run.short_sha, short_label.as_str())?;
    validate_status(&run.status, label)?;
    if let Some(pr) = run.pr_number {
        if pr <= 0 {
            return Err(bot_err(cat(label, ".pr_number must be positive")));
        }
    }
    validate_run_number(run, label)?;
    let k6_label = cat(label, ".k6");
    validate_k6(&run.k6, k6_label.as_str())?;
    Ok(())
}

impl MemorySuiteRunFields for BenchmarkRun {
    open spec fn spec_sha(&self) -> Option<Seq<char>> {
        opt_view(self.sha)
    }

    open spec fn spec_run_number(&self) -> Option<i64> {
        self.run_number
    }

    open spec fn spec_run_url(&self) -> Option<Seq<char>> {
        opt_view(self.run_url)
    }

    fn sha(&self) -> (r: Option<&str>) {
        match &self.sha {
            Some(s) => Some(s.as_str()),
            None => None,
        }
    }

    fn run_number(&self) -> (r: Option<i64>) {
        self.run_number
    }

    fn run_url(&self) -> (r: Option<&str>) {
        match &self.run_url {
            Some(s) => Some(s.as_str()),
            None => None,
        }
    }
}

/// Run `i` has a pull request number that an earlier run already has.
pub open spec fn pr_seen_before(runs: Seq<BenchmarkRun>, i: int) -> bool {
    runs[i].pr_number is Some && exists|j: int|
        0 <= j < i && #[trigger] runs[j].pr_number == runs[i].pr_number
}

/// The first failing proxy run at or after `i`: its own checks, then a
/// repeated SHA, then a repeated pull request number.
pub open spec fn proxy_runs_failure(runs: Seq<BenchmarkRun>, i: int) -> Option<Seq<char>>
    decreases runs.len() - i,
{
    if i < 0 || i >= runs.len() {
        None
    } else if proxy_run_failure(runs[i], i as nat) is Some {
        proxy_run_failure(runs[i], i as nat)
    } else if sha_seen_before(runs, i) {
        Some("duplicate sha: "@ + runs[i].spec_sha().unwrap())
    } else if pr_seen_before(runs, i) {
        Some("duplicate pr_number: "@ + decimal_int(runs[i].pr_number.unwrap() as int))
    } else {
        proxy_runs_failure(runs, i + 1)
    }
}

/// The first reason to reject a proxy benchmark history.
pub open spec fn proxy_payload_failure(payload: BenchmarkData) -> Option<Seq<char>> {
    if payload.schema_version != Some(1i64) {
        Some("schema_version must be 1"@)
    } else if !(payload.baseline_sha matches Some(b) && b@.len() > 0) {
        Some("baseline_sha required"@)
    } else {
        match payload.runs {
            None => Some("runs must be an array"@),
            Some(rs) => if rs@.len() > MAX_RUNS {
                Some("runs exceeds max 365"@)
            } else {
                proxy_runs_failure(rs@, 0)
            },
        }
    }
}

/// What every run of an accepted proxy history carries: a SHA, a short SHA,
/// a known status, a positive pull request number when it has one, and a k6
/// p99 in `(0, 500]` ms (NaN refused) with an error rate in `[0, 1]` when
/// given.
pub open spec fn proxy_run_accepted(run: BenchmarkRun) -> bool {
    &&& run.sha matches Some(s) && s@.len() > 0
    &&& run.short_sha matches Some(s) && s@.len() > 0
    &&& run.status matches Some(st) && (st@ == "pass"@ || st@ == "regression"@ || st@ == "fail"@
        || st@ == "unknown"@)
    &&& (run.pr_number matches Some(p) ==> p > 0)
    &&& run.k6 matches Some(k) && k.p99_ms matches Some(p) && crate::float::gt_zero(p.0)
        && crate::float::le_bound(p.0, MAX_P99_MS_BITS)
    &&& (run.k6 matches Some(k) && k.error_rate matches Some(e) ==> in_unit(e.0))
}

proof fn lemma_proxy_runs_accepted(runs: Seq<BenchmarkRun>, i: int)
    requires
        0 <= i,
        proxy_runs_failure(runs, i) is None,
    ensures
        forall|b: int|
            i <= b < runs.len() ==> proxy_run_failure(#[trigger] runs[b], b as nat) is None
                && !sha_seen_before(runs, b) && !pr_seen_before(runs, b),
    decreases runs.len() - i,
{
    if i < runs.len() {
        lemma_proxy_runs_accepted(runs, i + 1);
    }
}

/// An accepted proxy history has schema 1, a baseline SHA and at most 365
/// runs; every run passes the run checks, and no two runs share a SHA or a
/// pull request number.
pub proof fn lemma_accepted_proxy_history(payload: BenchmarkData)
    ensures
        proxy_payload_failure(payload) is None ==> {
            &&& payload.schema_version == Some(1i64)
            &&& payload.baseline_sha matches Some(b) && b@.len() > 0
            &&& payload.runs matches Some(rs) && {
                &&& rs@.len() <= 365
                &&& forall|a: int| 0 <= a < rs@.len() ==> proxy_run_accepted(#[trigger] rs@[a])
                &&& forall|a: int, b: int|
                    0 <= a < b < rs@.len() ==> (#[trigger] rs@[a].pr_number is Some
                        ==> rs@[a].pr_number != #[trigger] rs@[b].pr_number)
                &&& forall|a: int, b: int|
                    0 <= a < b < rs@.len() ==> (#[trigger] rs@[a].sha matches Some(x)
                        && #[trigger] rs@[b].sha matches Some(y) && x@ != y@)
            }
        },
{
    reveal_strlit("pass");
    reveal_strlit("regression");
    reveal_strlit("fail");
    reveal_strlit("unknown");
    if proxy_payload_failure(payload) is None {
        let rs = payload.runs.unwrap()@;
        lemma_proxy_runs_accepted(rs, 0);
        assert forall|a: int| 0 <= a < rs.len() implies proxy_run_accepted(#[trigger] rs[a]) by {
            assert(proxy_run_failure(rs[a], a as nat) is None);
        }
        assert forall|a: int, b: int| 0 <= a < b < rs.len() implies (#[trigger] rs[a].pr_number is Some
            ==> rs[a].pr_number != #[trigger] rs[b].pr_number) by {
            assert(!pr_seen_before(rs, b));
        }
        assert forall|a: int, b: int| 0 <= a < b < rs.len() implies (#[trigger] rs[a].sha matches Some(x)
            && #[trigger] rs[b].sha matches Some(y) && x@ != y@) by {
            assert(proxy_run_failure(rs[a], a as nat) is None);
            assert(proxy_run_failure(rs[b], b as nat) is None);
            assert(!sha_seen_before(rs, b));
            assert(rs[a].spec_sha() == opt_view(rs[a].sha));
        }
    }
}

fn sha_repeats(runs: &Vec<BenchmarkRun>, i: usize, sha: &str) -> (r: bool)
    requires
        i < runs@.len(),
        runs@[i as int].spec_sha() == Some(sha@),
    ensures
        r == sha_seen_before(runs@, i as int),
{
    let mut j: usize = 0;
    while j < i
        invariant
            i < runs@.len(),
            j <= i,
            runs@[i as int].spec_sha() == Some(sha@),
            forall|k: int| 0 <= k < j ==> #[trigger] runs@[k].spec_sha() != Some(sha@),
        decreases i - j,
    {
        if let Some(other) = &runs[j].sha {
            if eq_str(other.as_str(), sha) {
                assert(runs@[j as int].spec_sha() == runs@[i as int].spec_sha());
                return true;
            }
        }
        j = j + 1;
    }
    false
}

fn pr_repeats(runs: &Vec<BenchmarkRun>, i: usize, pr: i64) -> (r: bool)
    requires
        i < runs@.len(),
        runs@[i as int].pr_number == Some(pr),
    ensures
        r == pr_seen_before(runs@, i as int),
{
    let mut j: usize = 0;
    while j < i
        invariant
            i < runs@.len(),
            j <= i,
            runs@[i as int].pr_number == Some(pr),
            forall|k: int| 0 <= k < j ==> #[trigger] runs@[k].pr_number != Some(pr),
        decreases i - j,
    {
        if runs[j].pr_number == Some(pr) {
            return true;
        }
        j = j + 1;
    }
    false
}

/// A proxy history is accepted when it has schema 1, a baseline SHA, at most
/// 365 runs that each pass the run checks, and no SHA or pull request number
/// twice.
pub fn validate_payload(payload: &BenchmarkData) -> (r: Result<(), BotError>)
    ensures
        fails_as(r, proxy_payload_failure(*payload)),
        r is Ok ==> (payload.runs matches Some(rs) && (forall|a: int, b: int|
            0 <= a < b < rs@.len() ==> (#[trigger] rs@[a].pr_number is Some ==> rs@[a].pr_number
                != #[trigger] rs@[b].pr_number))),
{
    proof {
        lemma_accepted_proxy_history(*payload);
    }
    if payload.schema_version != Some(1i64) {
        return Err(bot_err(String::from_str("schema_version must be 1")));
    }
    let baseline_ok = match &payload.baseline_sha {
        Some(b) => !b.as_str().is_empty(),
        None => false,
    };
    if !baseline_ok {
        return Err(bot_err(String::from_str("baseline_sha required")));
    }
    let runs = match &payload.runs {
        None => return Err(bot_err(String::from_str("runs must be an array"))),
        Some(rs) => rs,
    };
    if runs.len() > MAX_RUNS {
        return Err(bot_err(String::from_str("runs exceeds max 365")));
    }
    let n: usize = runs.len();
    let mut i: usize = 0;
    while i < n
        invariant
            n == runs@.len(),
            i <= n,
            proxy_payload_failure(*payload) == proxy_runs_failure(runs@, 0),
            proxy_runs_failure(runs@, 0) == proxy_runs_failure(runs@, i as int),
        decreases n - i,
    {
        validate_run(&runs[i], i)?;
        if let Some(sha) = &runs[i].sha {
            if sha_repeats(runs, i, sha.as_str()) {
                return Err(bot_err(cat("duplicate sha: ", sha.as_str())));
            }
        }
        if let Some(pr) = runs[i].pr_number {
            if pr_repeats(runs, i, pr) {
                let p = i64_to_string(pr);
                return Err(bot_err(cat("duplicate pr_number: ", p.as_str())));
            }
        }
        i = i + 1;
    }
    Ok(())
}

/// Binds `runs[0]` of a proxy artifact to the verified workflow run.
pub fn cross_check_artifact_run(
    payload: &BenchmarkData,
    workflow: &WorkflowRun,
    run_id: i64,
    expected_run_number: i64,
) -> (r: Result<(), BotError>)
    ensures
        fails_as(
            r,
            latest_run_binding_failure(
                vec_seq(payload.runs),
                *workflow,
                run_id,
                expected_run_number,
                ""@,
            ),
        ),
        r is Ok ==> {
            &&& payload.runs is Some && payload.runs.unwrap()@.len() > 0
            &&& (payload.runs.unwrap()@[0].sha matches Some(s) && (workflow.head_sha matches Some(h)
                && crate::text::unicode_lowercase(s@) == crate::text::unicode_lowercase(h@)))
            &&& payload.runs.unwrap()@[0].run_number == Some(expected_run_number)
        },
{
    check_latest_run_binding(payload.runs.as_ref(), workflow, run_id, expected_run_number, "")
}

pub fn published_sha_exists(data: &BenchmarkData, head_sha: &str) -> (r: bool)
    ensures
        r == history_has_sha(vec_seq(data.runs), head_sha@),
{
    memory_suite_published_sha_exists(data.runs.as_ref(), head_sha)
}

pub fn max_published_run_number(data: &BenchmarkData) -> (r: Option<i64>)
    ensures
        r == match vec_seq(data.runs) {
            Some(rs) => max_run_number(rs, rs.len() as int),
            None => None,
        },
{
    memory_suite_max_published_run_number(data.runs.as_ref())
}

} // verus!
