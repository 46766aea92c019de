//! Decisions behind the command-line entry points: the repository lock,
//! required settings, the shared sticky comment and the commit status.

use vstd::prelude::*;

use crate::config::resolve_harness_repo;
use crate::error::{bot_err, fails_as, BotError};
use crate::model::{BenchmarkData, BenchmarkRun, GateCheck, GateResult};
use crate::sanitize::{COMMENT_MARKER, COMMENT_MARKER_HNSW};
use crate::sections::{first_proxy_run, opt_str, opt_text};
use crate::text::{
    byte_len, cat, chars_of, contains, contains_chars, eq_str, str_byte_len, trim, trim_chars,
};

verus! {

pub const STATUS_CONTEXT: &'static str = "ibex-harness/benchmarks";

/// The harness repository to act on, as `resolve_harness_repo` decides.
pub fn locked_repo(repo: &str, override_enabled: bool) -> (r: Result<String, BotError>)
    ensures
        r matches Ok(s) ==> s@ == repo@,
        r is Ok <==> (override_enabled || repo@ == crate::config::EXPECTED_HARNESS_REPO@),
        r matches Err(e) ==> e@ == crate::config::repo_lock_message(),
{
    match resolve_harness_repo(repo, override_enabled) {
        Ok(s) => Ok(String::from_str(s)),
        Err(m) => Err(bot_err(m)),
    }
}

/// A setting is present when it is set and not blank.
pub open spec fn setting_present(value: Option<Seq<char>>) -> bool {
    value matches Some(v) && trim(v).len() > 0
}

fn nonblank(v: &str) -> (r: bool)
    ensures
        r == (trim(v@).len() > 0),
{
    let chars = chars_of(v);
    trim_chars(chars.as_slice()).len() > 0
}

/// The value of a required setting, or `missing {key}`.
pub fn require_env_value(key: &str, value: Option<&str>) -> (r: Result<String, BotError>)
    ensures
        match value {
            Some(v) => if trim(v@).len() > 0 {
                r matches Ok(s) && s@ == v@
            } else {
                r matches Err(e) && e@ == "missing "@ + key@
            },
            None => r matches Err(e) && e@ == "missing "@ + key@,
        },
{
    match value {
        Some(v) => if nonblank(v) {
            Ok(String::from_str(v))
        } else {
            Err(bot_err(cat("missing ", key)))
        },
        None => Err(bot_err(cat("missing ", key))),
    }
}

/// Whether an optional setting is set and not blank.
pub fn env_nonempty(value: Option<&str>) -> (r: bool)
    ensures
        r == setting_present(opt_str(value)),
{
    match value {
        Some(v) => nonblank(v),
        None => false,
    }
}

/// Comments are posted as the GitHub App when all three of its settings are
/// present; otherwise with the workflow token.
pub fn has_app_credentials(
    app_id: Option<&str>,
    private_key: Option<&str>,
    installation_id: Option<&str>,
) -> (r: bool)
    ensures
        r == (setting_present(opt_str(app_id)) && setting_present(opt_str(private_key))
            && setting_present(opt_str(installation_id))),
{
    env_nonempty(app_id) && env_nonempty(private_key) && env_nonempty(installation_id)
}

/// The result assumed when none could be read: no status, no checks.
pub fn empty_gate_result() -> (r: GateResult)
    ensures
        r.status is None,
        r.regression_pct is None,
        r.checks matches Some(c) && c@.len() == 0,
{
    GateResult { status: None, regression_pct: None, checks: Some(Vec::new()) }
}

// ---------------------------------------------------------------------------
// The sticky comment
// ---------------------------------------------------------------------------
/// A comment on the pull request, as listed by the API.
pub struct IssueComment {
    pub id: Option<i64>,
    pub body: Option<String>,
}

pub open spec fn has_marker(c: IssueComment, marker: Seq<char>) -> bool {
    c.body matches Some(b) && contains(b@, marker)
}

pub fn comment_has_marker(comment: &IssueComment, marker: &str) -> (r: bool)
    ensures
        r == has_marker(*comment, marker@),
{
    match &comment.body {
        Some(b) => {
            let bv = chars_of(b.as_str());
            let mv = chars_of(marker);
            contains_chars(bv.as_slice(), mv.as_slice())
        },
        None => false,
    }
}

/// Index of the first comment from `i` on that carries `marker`.
pub open spec fn first_marked(comments: Seq<IssueComment>, marker: Seq<char>, i: int) -> Option<int>
    decreases comments.len() - i,
{
    if i < 0 || i >= comments.len() {
        None
    } else if has_marker(comments[i], marker) {
        Some(i)
    } else {
        first_marked(comments, marker, i + 1)
    }
}

fn find_marked(comments: &Vec<IssueComment>, marker: &str) -> (r: Option<usize>)
    ensures
        r matches Some(k) ==> first_marked(comments@, marker@, 0) == Some(k as int),
        r is None ==> first_marked(comments@, marker@, 0) is None,
{
    let mut i: usize = 0;
    while i < comments.len()
        invariant
            i <= comments@.len(),
            first_marked(comments@, marker@, 0) == first_marked(comments@, marker@, i as int),
        decreases comments.len() - i,
    {
        if comment_has_marker(&comments[i], marker) {
            return Some(i);
        }
        i = i + 1;
    }
    None
}

/// The sticky comment: the first with the shared marker, else the first with
/// the HNSW marker.
pub open spec fn sticky_index(comments: Seq<IssueComment>) -> Option<int> {
    match first_marked(comments, COMMENT_MARKER@, 0) {
        Some(i) => Some(i),
        None => first_marked(comments, COMMENT_MARKER_HNSW@, 0),
    }
}

fn find_sticky(comments: &Vec<IssueComment>) -> (r: Option<usize>)
    ensures
        r matches Some(k) ==> k < comments@.len() && sticky_index(comments@) == Some(k as int),
        r is None ==> sticky_index(comments@) is None,
{
    proof {
        lemma_first_marked_bound(comments@, COMMENT_MARKER@, 0);
        lemma_first_marked_bound(comments@, COMMENT_MARKER_HNSW@, 0);
    }
    match find_marked(comments, COMMENT_MARKER) {
        Some(i) => Some(i),
        None => find_marked(comments, COMMENT_MARKER_HNSW),
    }
}

proof fn lemma_first_marked_bound(comments: Seq<IssueComment>, marker: Seq<char>, i: int)
    requires
        0 <= i,
    ensures
        first_marked(comments, marker, i) matches Some(k) ==> i <= k < comments.len(),
    decreases comments.len() - i,
{
    if i < comments.len() && !has_marker(comments[i], marker) {
        lemma_first_marked_bound(comments, marker, i + 1);
    }
}

proof fn lemma_first_marked_is_first(comments: Seq<IssueComment>, marker: Seq<char>, i: int)
    requires
        0 <= i,
    ensures
        first_marked(comments, marker, i) matches Some(k) ==> i <= k < comments.len() && (
        comments[k].body matches Some(b) && contains(b@, marker)) && forall|j: int|
            i <= j < k ==> !(#[trigger] comments[j].body matches Some(b) && contains(b@, marker)),
        first_marked(comments, marker, i) is None ==> forall|j: int|
            i <= j < comments.len() ==> !(#[trigger] comments[j].body matches Some(b) && contains(
                b@,
                marker,
            )),
    decreases comments.len() - i,
{
    if i < comments.len() && !has_marker(comments[i], marker) {
        lemma_first_marked_is_first(comments, marker, i + 1);
    }
}

/// The sticky comment is the first comment that carries the shared marker;
/// only when none does is it the first that carries the old HNSW marker; and
/// when no comment carries either, there is none.
pub proof fn lemma_sticky_is_first_marked(comments: Seq<IssueComment>)
    ensures
        sticky_index(comments) matches Some(k) ==> 0 <= k < comments.len() && (
        comments[k].body matches Some(b) && (contains(b@, COMMENT_MARKER@) || contains(
            b@,
            COMMENT_MARKER_HNSW@,
        ))) && forall|j: int|
            0 <= j < k ==> !(#[trigger] comments[j].body matches Some(b) && contains(
                b@,
                COMMENT_MARKER@,
            )),
        sticky_index(comments) is None ==> forall|j: int|
            0 <= j < comments.len() ==> !(#[trigger] comments[j].body matches Some(b) && (contains(
                b@,
                COMMENT_MARKER@,
            ) || contains(b@, COMMENT_MARKER_HNSW@))),
{
    lemma_first_marked_is_first(comments, COMMENT_MARKER@, 0);
    lemma_first_marked_is_first(comments, COMMENT_MARKER_HNSW@, 0);
}

/// The body of the current sticky comment, empty when there is none.
pub open spec fn sticky_body(comments: Seq<IssueComment>) -> Seq<char> {
    match sticky_index(comments) {
        Some(i) => match comments[i].body {
            Some(b) => b@,
            None => Seq::empty(),
        },
        None => Seq::empty(),
    }
}

pub fn existing_sticky_body(comments: &Vec<IssueComment>) -> (r: String)
    ensures
        r@ == sticky_body(comments@),
{
    match find_sticky(comments) {
        Some(i) => match &comments[i].body {
            Some(b) => b.clone(),
            None => String::new(),
        },
        None => String::new(),
    }
}

pub open spec fn with_marker(body: Seq<char>, marker: Seq<char>) -> Seq<char> {
    if contains(body, marker) {
        body
    } else {
        marker + "\n"@ + body
    }
}

/// The body, with `marker` on a first line of its own when it lacks it.
pub fn ensure_comment_marker(body: &str, marker: &str) -> (r: String)
    ensures
        r@ == with_marker(body@, marker@),
        contains(r@, marker@),
{
    let bv = chars_of(body);
    let mv = chars_of(marker);
    if contains_chars(bv.as_slice(), mv.as_slice()) {
        String::from_str(body)
    } else {
        let mut out = String::from_str(marker);
        out.append("\n");
        out.append(body);
        proof {
            assert((marker@ + "\n"@ + body@).subrange(0, marker@.len() as int) =~= marker@);
            assert(crate::text::occurs_at(out@, marker@, 0));
        }
        out
    }
}

/// What to do with the sticky comment.
pub enum CommentAction {
    /// Edit the existing sticky comment.
    Update { comment_id: i64, body: String },
    /// Post a new comment.
    Post { body: String },
}

/// Updates the sticky comment when there is one (it must have an id), else
/// posts a new comment; the body carries `marker` either way.
pub fn sticky_comment_action(comments: &Vec<IssueComment>, body: &str, marker: &str) -> (r: Result<
    CommentAction,
    BotError,
>)
    ensures
        match sticky_index(comments@) {
            Some(i) => match comments@[i].id {
                Some(id) => r matches Ok(CommentAction::Update { comment_id, body: b }) && comment_id
                    == id && b@ == with_marker(body@, marker@),
                None => r matches Err(e) && e@ == "comment id missing"@,
            },
            None => r matches Ok(CommentAction::Post { body: b }) && b@ == with_marker(
                body@,
                marker@,
            ),
        },
{
    let full = ensure_comment_marker(body, marker);
    match find_sticky(comments) {
        Some(i) => match comments[i].id {
            Some(id) => Ok(CommentAction::Update { comment_id: id, body: full }),
            None => Err(bot_err(String::from_str("comment id missing"))),
        },
        None => Ok(CommentAction::Post { body: full }),
    }
}

// ---------------------------------------------------------------------------
// Commit status
// ---------------------------------------------------------------------------
/// The run's SHA when it has at least seven bytes.
pub open spec fn commit_sha(run: BenchmarkRun) -> Option<Seq<char>> {
    match run.sha {
        Some(s) => if byte_len(s@) >= 7 {
            Some(s@)
        } else {
            None
        },
        None => None,
    }
}

pub fn resolve_commit_sha(run: &BenchmarkRun) -> (r: Option<String>)
    ensures
        opt_text(r) == commit_sha(*run),
{
    match &run.sha {
        Some(s) => if str_byte_len(s.as_str()) >= 7 {
            Some(s.clone())
        } else {
            None
        },
        None => None,
    }
}

/// Every gate check passed (or there are no checks).
pub open spec fn gates_ok(gate: GateResult) -> bool {
    match gate.checks {
        None => true,
        Some(cs) => forall|i: int| 0 <= i < cs@.len() ==> #[trigger] cs@[i].ok == Some(true),
    }
}

/// The commit status state and description for a run status.
pub open spec fn commit_status_spec(status: Seq<char>, gate: GateResult) -> (Seq<char>, Seq<char>) {
    let ok = gates_ok(gate);
    if status == "pass"@ && ok {
        ("success"@, "Benchmark gates passed"@)
    } else if status == "regression"@ {
        ("failure"@, "Performance regression vs baseline"@)
    } else if status == "fail"@ || !ok {
        ("failure"@, "Benchmark gate checks failed"@)
    } else {
        ("error"@, "Benchmark status unknown"@)
    }
}

/// A commit is marked successful only when the run passed and every gate
/// check passed; a failing check or a failing or regressed run marks it as a
/// failure.
pub proof fn lemma_commit_status_success_needs_every_gate(status: Seq<char>, gate: GateResult)
    ensures
        commit_status_spec(status, gate).0 == "success"@ <==> status == "pass"@ && (gate.checks matches Some(
            cs,
        ) ==> forall|i: int| 0 <= i < cs@.len() ==> #[trigger] cs@[i].ok == Some(true)),
        (gate.checks matches Some(cs) && exists|i: int| 0 <= i < cs@.len() && #[trigger] cs@[i].ok != Some(
            true,
        )) ==> commit_status_spec(status, gate).0 == "failure"@,
        (status == "fail"@ || status == "regression"@) ==> commit_status_spec(status, gate).0
            == "failure"@,
{
    reveal_strlit("success");
    reveal_strlit("failure");
    reveal_strlit("error");
    reveal_strlit("pass");
    reveal_strlit("fail");
    reveal_strlit("regression");
    assert("success"@[0] != "failure"@[0] && "success"@[0] != "error"@[0]);
    assert("pass"@[0] != "fail"@[0] && "pass"@[0] != "regression"@[0]);
}

fn all_gates_ok(gate: &GateResult) -> (r: bool)
    ensures
        r == gates_ok(*gate),
{
    match &gate.checks {
        None => true,
        Some(cs) => {
            let mut i: usize = 0;
            while i < cs.len()
                invariant
                    i <= cs@.len(),
                    gate.checks matches Some(c) && c@ == cs@,
                    forall|k: int| 0 <= k < i ==> #[trigger] cs@[k].ok == Some(true),
                decreases cs.len() - i,
            {
                if cs[i].ok != Some(true) {
                    return false;
                }
                i = i + 1;
            }
            true
        },
    }
}

pub fn commit_status_for(status: &str, gate: &GateResult) -> (r: (&'static str, &'static str))
    ensures
        (r.0@, r.1@) == commit_status_spec(status@, *gate),
{
    let ok = all_gates_ok(gate);
    if eq_str(status, "pass") && ok {
        ("success", "Benchmark gates passed")
    } else if eq_str(status, "regression") {
        ("failure", "Performance regression vs baseline")
    } else if eq_str(status, "fail") || !ok {
        ("failure", "Benchmark gate checks failed")
    } else {
        ("error", "Benchmark status unknown")
    }
}

/// The commit status to post for a proxy comment: on the first run's SHA,
/// from its status (`unknown` when absent) and the threshold checks.
pub struct CommitStatusPlan {
    pub sha: String,
    pub state: &'static str,
    pub description: &'static str,
}

pub open spec fn commit_status_plan_spec(data: BenchmarkData, gate: GateResult) -> Option<
    (Seq<char>, Seq<char>, Seq<char>),
> {
    match first_proxy_run(data) {
        None => None,
        Some(run) => match commit_sha(run) {
            None => None,
            Some(sha) => {
                let status = match run.status {
                    Some(s) => s@,
                    None => "unknown"@,
                };
                let (state, description) = commit_status_spec(status, gate);
                Some((sha, state, description))
            },
        },
    }
}

pub fn plan_commit_status(data: &BenchmarkData, gate: &GateResult) -> (r: Option<CommitStatusPlan>)
    ensures
        match commit_status_plan_spec(*data, *gate) {
            Some((sha, state, description)) => r matches Some(p) && p.sha@ == sha && p.state@
                == state && p.description@ == description,
            None => r is None,
        },
{
    let run = match &data.runs {
        Some(rs) => if rs.len() > 0 {
            &rs[0]
        } else {
            return None;
        },
        None => return None,
    };
    let sha = match resolve_commit_sha(run) {
        Some(s) => s,
        None => return None,
    };
    let status: &str = match &run.status {
        Some(s) => s.as_str(),
        None => "unknown",
    };
    let (state, description) = commit_status_for(status, gate);
    Some(CommitStatusPlan { sha, state, description })
}

} // verus!
