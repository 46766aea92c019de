//! Re-verification of a dispatched benchmark run against the Actions API record.

use vstd::prelude::*;

use crate::config::{
    EXPECTED_HNSW_WORKFLOW_NAME, EXPECTED_HNSW_WORKFLOW_PATH, EXPECTED_WORKFLOW_NAME,
    EXPECTED_WORKFLOW_PATH,
};
use crate::error::{bot_err, fails_as, BotError};
use crate::model::{DispatchPayload, WorkflowRun};
use crate::text::{
    cat, chars_of, opt_eq, parse_i64, parse_i64_spec, string_of, to_lowercase, trim, trim_chars,
    unicode_lowercase, eq_str,
};

verus! {

pub const EXPECTED_BRANCH: &'static str = "main";
pub const EXPECTED_CONCLUSION: &'static str = "success";

pub open spec fn is_lower_hex_char(c: char) -> bool {
    ('0' <= c && c <= '9') || ('a' <= c && c <= 'f')
}

/// Matches `^[0-9a-f]{7,40}$`.
pub open spec fn hex_sha(s: Seq<char>) -> bool {
    7 <= s.len() <= 40 && forall|i: int| 0 <= i < s.len() ==> is_lower_hex_char(#[trigger] s[i])
}

pub fn is_hex_sha_chars(v: &[char]) -> (r: bool)
    ensures
        r == hex_sha(v@),
{
    if v.len() < 7 || v.len() > 40 {
        return false;
    }
    let mut k: usize = 0;
    while k < v.len()
        invariant
            k <= v@.len(),
            forall|i: int| 0 <= i < k ==> is_lower_hex_char(#[trigger] v@[i]),
        decreases v.len() - k,
    {
        let c = v[k];
        if !(('0' <= c && c <= '9') || ('a' <= c && c <= 'f')) {
            return false;
        }
        k = k + 1;
    }
    true
}

/// Whether `value` is 7 to 40 lowercase hexadecimal digits.
pub fn is_hex_sha(value: &str) -> (r: bool)
    ensures
        r == hex_sha(value@),
{
    let v = chars_of(value);
    is_hex_sha_chars(v.as_slice())
}

/// The cleaned form of a SHA argument: trimmed, then lower-cased.
pub open spec fn cleaned_sha(value: Seq<char>) -> Seq<char> {
    unicode_lowercase(trim(value))
}

/// A dispatched head SHA, trimmed and lower-cased; it must then be 7 to 40
/// lowercase hexadecimal digits.
pub fn require_sha(value: &str) -> (r: Result<String, BotError>)
    ensures
        r matches Ok(s) ==> s@ == cleaned_sha(value@),
        r is Ok <==> hex_sha(cleaned_sha(value@)),
        r matches Err(e) ==> e@ == "head_sha must be hexadecimal"@,
{
    let v = chars_of(value);
    let trimmed = string_of(trim_chars(v.as_slice()).as_slice());
    let cleaned = to_lowercase(trimmed.as_str());
    if !is_hex_sha(cleaned.as_str()) {
        return Err(bot_err(String::from_str("head_sha must be hexadecimal")));
    }
    Ok(cleaned)
}

pub open spec fn opt_is(value: Option<String>, expected: Seq<char>) -> bool {
    value matches Some(v) && v@ == expected
}

/// The first metadata check that `run` fails for a workflow with the given
/// name and path.
pub open spec fn workflow_failure(run: WorkflowRun, name: Seq<char>, path: Seq<char>) -> Option<
    Seq<char>,
> {
    if !opt_is(run.conclusion, EXPECTED_CONCLUSION@) {
        Some("run conclusion must be "@ + EXPECTED_CONCLUSION@)
    } else if !opt_is(run.head_branch, EXPECTED_BRANCH@) {
        Some("run head_branch must be "@ + EXPECTED_BRANCH@)
    } else if !opt_is(run.name, name) {
        Some("workflow name must be "@ + name)
    } else if !opt_is(run.path, path) {
        Some("workflow path must be "@ + path)
    } else {
        None
    }
}

fn check_workflow_run(run: &WorkflowRun, name: &str, path: &str) -> (r: Result<(), BotError>)
    ensures
        fails_as(r, workflow_failure(*run, name@, path@)),
{
    if !opt_eq(&run.conclusion, EXPECTED_CONCLUSION) {
        return Err(bot_err(cat("run conclusion must be ", EXPECTED_CONCLUSION)));
    }
    if !opt_eq(&run.head_branch, EXPECTED_BRANCH) {
        return Err(bot_err(cat("run head_branch must be ", EXPECTED_BRANCH)));
    }
    if !opt_eq(&run.name, name) {
        return Err(bot_err(cat("workflow name must be ", name)));
    }
    if !opt_eq(&run.path, path) {
        return Err(bot_err(cat("workflow path must be ", path)));
    }
    Ok(())
}

/// A proxy benchmark run is accepted only when it succeeded on `main` and was
/// produced by the `Benchmarks` workflow at `.github/workflows/benchmark.yml`.
pub fn verify_workflow_run(run: &WorkflowRun) -> (r: Result<(), BotError>)
    ensures
        fails_as(r, workflow_failure(*run, EXPECTED_WORKFLOW_NAME@, EXPECTED_WORKFLOW_PATH@)),
        r is Ok <==> opt_is(run.conclusion, "success"@) && opt_is(run.head_branch, "main"@)
            && opt_is(run.name, EXPECTED_WORKFLOW_NAME@) && opt_is(
            run.path,
            EXPECTED_WORKFLOW_PATH@,
        ),
{
    check_workflow_run(run, EXPECTED_WORKFLOW_NAME, EXPECTED_WORKFLOW_PATH)
}

/// A memory benchmark run is accepted only when it succeeded on `main` and was
/// produced by `Memory Benchmarks` at `.github/workflows/memory-benchmark.yml`.
pub fn verify_hnsw_workflow_run(run: &WorkflowRun) -> (r: Result<(), BotError>)
    ensures
        fails_as(
            r,
            workflow_failure(*run, EXPECTED_HNSW_WORKFLOW_NAME@, EXPECTED_HNSW_WORKFLOW_PATH@),
        ),
        r is Ok <==> opt_is(run.conclusion, "success"@) && opt_is(run.head_branch, "main"@)
            && opt_is(run.name, EXPECTED_HNSW_WORKFLOW_NAME@) && opt_is(
            run.path,
            EXPECTED_HNSW_WORKFLOW_PATH@,
        ),
{
    check_workflow_run(run, EXPECTED_HNSW_WORKFLOW_NAME, EXPECTED_HNSW_WORKFLOW_PATH)
}

/// The first reason to reject the Actions API record `run` for `payload`.
pub open spec fn dispatch_failure(
    run: WorkflowRun,
    payload: DispatchPayload,
    name: Seq<char>,
    path: Seq<char>,
) -> Option<Seq<char>> {
    let cleaned = cleaned_sha(payload.head_sha@);
    if !hex_sha(cleaned) {
        Some("head_sha must be hexadecimal"@)
    } else if workflow_failure(run, name, path) is Some {
        workflow_failure(run, name, path)
    } else if !(run.head_sha matches Some(h) && unicode_lowercase(h@) == cleaned) {
        Some("head_sha mismatch with Actions API"@)
    } else if run.run_number != Some(payload.run_number) {
        Some("run_number mismatch with Actions API"@)
    } else {
        None
    }
}

/// A dispatch is accepted only for the run it names: the run succeeded on
/// `main` in the expected workflow, was built from the payload's commit (SHA
/// compared trimmed and without case) and carries the payload's run number.
pub proof fn lemma_accepted_dispatch_is_that_run(
    run: WorkflowRun,
    payload: DispatchPayload,
    name: Seq<char>,
    path: Seq<char>,
)
    ensures
        dispatch_failure(run, payload, name, path) is None ==> {
            &&& run.conclusion matches Some(c) && c@ == "success"@
            &&& run.head_branch matches Some(b) && b@ == "main"@
            &&& run.name matches Some(n) && n@ == name
            &&& run.path matches Some(p) && p@ == path
            &&& run.head_sha matches Some(h) && unicode_lowercase(h@) == unicode_lowercase(
                trim(payload.head_sha@),
            )
            &&& run.run_number == Some(payload.run_number)
        },
{
    reveal_strlit("success");
    reveal_strlit("main");
}

fn check_dispatched_run(
    run: &WorkflowRun,
    payload: &DispatchPayload,
    name: &str,
    path: &str,
) -> (r: Result<(), BotError>)
    ensures
        fails_as(r, dispatch_failure(*run, *payload, name@, path@)),
        r is Ok ==> (run.head_sha matches Some(h) && unicode_lowercase(h@) == cleaned_sha(
            payload.head_sha@,
        ) && run.run_number == Some(payload.run_number)),
{
    proof {
        lemma_accepted_dispatch_is_that_run(*run, *payload, name@, path@);
    }
    let head_sha = require_sha(payload.head_sha.as_str())?;
    check_workflow_run(run, name, path)?;
    let matches = match &run.head_sha {
        Some(h) => {
            let lower = to_lowercase(h.as_str());
            eq_str(lower.as_str(), head_sha.as_str())
        },
        None => false,
    };
    if !matches {
        return Err(bot_err(String::from_str("head_sha mismatch with Actions API")));
    }
    let same_number = match run.run_number {
        Some(n) => n == payload.run_number,
        None => false,
    };
    if !same_number {
        return Err(bot_err(String::from_str("run_number mismatch with Actions API")));
    }
    Ok(())
}

/// The decision of `verify_dispatch` once the run has been fetched: the
/// payload's SHA is well formed, the run passes `verify_workflow_run`, and its
/// head SHA and run number are those of the payload.
pub fn verify_dispatched_run(run: &WorkflowRun, payload: &DispatchPayload) -> (r: Result<
    (),
    BotError,
>)
    ensures
        fails_as(
            r,
            dispatch_failure(*run, *payload, EXPECTED_WORKFLOW_NAME@, EXPECTED_WORKFLOW_PATH@),
        ),
        r is Ok ==> (run.head_sha matches Some(h) && unicode_lowercase(h@) == cleaned_sha(
            payload.head_sha@,
        ) && run.run_number == Some(payload.run_number)),
{
    check_dispatched_run(run, payload, EXPECTED_WORKFLOW_NAME, EXPECTED_WORKFLOW_PATH)
}

/// As `verify_dispatched_run`, for the memory benchmark workflow.
pub fn verify_hnsw_dispatched_run(run: &WorkflowRun, payload: &DispatchPayload) -> (r: Result<
    (),
    BotError,
>)
    ensures
        fails_as(
            r,
            dispatch_failure(
                *run,
                *payload,
                EXPECTED_HNSW_WORKFLOW_NAME@,
                EXPECTED_HNSW_WORKFLOW_PATH@,
            ),
        ),
        r is Ok ==> (run.head_sha matches Some(h) && unicode_lowercase(h@) == cleaned_sha(
            payload.head_sha@,
        ) && run.run_number == Some(payload.run_number)),
{
    check_dispatched_run(run, payload, EXPECTED_HNSW_WORKFLOW_NAME, EXPECTED_HNSW_WORKFLOW_PATH)
}

/// A member of the dispatch payload object, as JSON gave it.
#[derive(Clone, Debug)]
pub enum JsonField {
    Missing,
    Integer(i64),
    Text(String),
    Other,
}

/// What a payload member is, as a plain value: `None` when missing, `Ok(n)`
/// for a JSON integer, `Err(Some(t))` for a JSON string, `Err(None)` for any
/// other value.
pub type FieldView = Option<Result<i64, Option<Seq<char>>>>;

pub open spec fn field_view(item: JsonField) -> FieldView {
    match item {
        JsonField::Missing => None,
        JsonField::Integer(n) => Some(Ok(n)),
        JsonField::Text(t) => Some(Err(Some(t@))),
        JsonField::Other => Some(Err(None)),
    }
}

/// A payload member read as an integer: a JSON integer, or a string that
/// parses as one.
pub open spec fn field_integer(item: FieldView, field: Seq<char>) -> Result<i64, Seq<char>> {
    match item {
        None => Err(field + " missing"@),
        Some(Ok(n)) => Ok(n),
        Some(Err(Some(t))) => match parse_i64_spec(t) {
            Some(n) => Ok(n),
            None => Err(field + " must be an integer"@),
        },
        Some(Err(None)) => Err(field + " must be an integer"@),
    }
}

pub open spec fn i64_field_result(item: JsonField, field: Seq<char>) -> Result<i64, Seq<char>> {
    field_integer(field_view(item), field)
}

/// The dispatch payload built from its members `run_id`, `run_number` and
/// `head_sha` (checked in that order; `head_sha` must be a JSON string):
/// `(run_id, run_number, head_sha)`, or the first error message.
pub open spec fn payload_result(run_id: FieldView, run_number: FieldView, head_sha: FieldView) -> Result<
    (i64, i64, Seq<char>),
    Seq<char>,
> {
    match (field_integer(run_id, "run_id"@), field_integer(run_number, "run_number"@)) {
        (Err(m), _) => Err(m),
        (Ok(_), Err(m)) => Err(m),
        (Ok(a), Ok(b)) => match head_sha {
            Some(Err(Some(h))) => Ok((a, b, h)),
            _ => Err("head_sha missing"@),
        },
    }
}

/// A dispatch payload is built only from integer members: each of
/// `run_id` and `run_number` was a JSON integer or a string holding that
/// integer in decimal, and `head_sha` was a JSON string.
pub proof fn lemma_payload_from_integer_members(run_id: FieldView, run_number: FieldView, head_sha: FieldView)
    ensures
        payload_result(run_id, run_number, head_sha) matches Ok((a, b, h)) ==> {
            &&& (run_id == Some(Ok::<i64, Option<Seq<char>>>(a)) || (run_id matches Some(Err(Some(t)))
                && parse_i64_spec(t) == Some(a)))
            &&& (run_number == Some(Ok::<i64, Option<Seq<char>>>(b)) || (run_number matches Some(
                Err(Some(t)),
            ) && parse_i64_spec(t) == Some(b)))
            &&& head_sha == Some(Err::<i64, Option<Seq<char>>>(Some(h)))
        },
{
}

/// What `serde_json` reads from a dispatch payload text: its members
/// `run_id`, `run_number` and `head_sha`, each as a [`FieldView`], or the
/// parse error's message.
pub uninterp spec fn dispatch_json_fields(raw: Seq<char>) -> Result<(FieldView, FieldView, FieldView), Seq<char>>;

pub open spec fn dispatch_view(r: Result<(JsonField, JsonField, JsonField), String>) -> Result<
    (FieldView, FieldView, FieldView),
    Seq<char>,
> {
    match r {
        Ok((a, b, c)) => Ok((field_view(a), field_view(b), field_view(c))),
        Err(m) => Err(m@),
    }
}

/// Reads the payload text with `serde_json::from_str` into a `Value` and
/// takes its members `run_id`, `run_number` and `head_sha` with `get`,
/// `as_i64` and `as_str`; on a parse error, the error's `to_string`.
#[verifier::external_body]
fn dispatch_json(raw: &str) -> (r: Result<(JsonField, JsonField, JsonField), String>)
    ensures
        dispatch_view(r) == dispatch_json_fields(raw@),
{
    let value: serde_json::Value = serde_json::from_str(raw).map_err(|err| err.to_string())?;
    let member = |name: &str| match value.get(name) {
        None => JsonField::Missing,
        Some(item) => match (item.as_i64(), item.as_str()) {
            (Some(n), _) => JsonField::Integer(n),
            (None, Some(t)) => JsonField::Text(t.to_string()),
            (None, None) => JsonField::Other,
        },
    };
    Ok((member("run_id"), member("run_number"), member("head_sha")))
}

/// Parses the `client_payload` of a dispatch: a JSON object whose `run_id`
/// and `run_number` are integers (or decimal strings) and whose `head_sha`
/// is a string.
pub fn parse_payload_json(raw: &str) -> (r: Result<DispatchPayload, BotError>)
    ensures
        match dispatch_json_fields(raw@) {
            Err(m) => r matches Err(e) && e@ == "invalid dispatch payload: "@ + m,
            Ok((id, num, sha)) => match payload_result(id, num, sha) {
                Ok((a, b, h)) => r matches Ok(p) && p.run_id == a && p.run_number == b
                    && p.head_sha@ == h,
                Err(m) => r matches Err(e) && e@ == m,
            },
        },
{
    match dispatch_json(raw) {
        Err(m) => Err(bot_err(cat("invalid dispatch payload: ", m.as_str()))),
        Ok((run_id, run_number, head_sha)) => {
            let sha = match head_sha {
                JsonField::Text(t) => Some(t),
                _ => None,
            };
            payload_from_fields(&run_id, &run_number, sha)
        },
    }
}

/// A payload integer given either as a JSON integer or as a decimal string.
pub fn parse_i64_field(item: &JsonField, field: &str) -> (r: Result<i64, BotError>)
    ensures
        match (r, i64_field_result(*item, field@)) {
            (Ok(a), Ok(b)) => a == b,
            (Err(e), Err(m)) => e@ == m,
            _ => false,
        },
{
    match item {
        JsonField::Missing => Err(bot_err(cat(field, " missing"))),
        JsonField::Integer(n) => Ok(*n),
        JsonField::Text(t) => match parse_i64(t.as_str()) {
            Some(n) => Ok(n),
            None => Err(bot_err(cat(field, " must be an integer"))),
        },
        JsonField::Other => Err(bot_err(cat(field, " must be an integer"))),
    }
}

/// The dispatch payload built from the members `run_id`, `run_number` and
/// `head_sha` (checked in that order).
pub fn payload_from_fields(run_id: &JsonField, run_number: &JsonField, head_sha: Option<String>) -> (r:
    Result<DispatchPayload, BotError>)
    ensures
        match (i64_field_result(*run_id, "run_id"@), i64_field_result(*run_number, "run_number"@)) {
            (Err(m), _) => r matches Err(e) && e@ == m,
            (Ok(_), Err(m)) => r matches Err(e) && e@ == m,
            (Ok(a), Ok(b)) => match head_sha {
                None => r matches Err(e) && e@ == "head_sha missing"@,
                Some(h) => r matches Ok(p) && p.run_id == a && p.run_number == b && p.head_sha
                    == h,
            },
        },
{
    let id = parse_i64_field(run_id, "run_id")?;
    let number = parse_i64_field(run_number, "run_number")?;
    match head_sha {
        None => Err(bot_err(String::from_str("head_sha missing"))),
        Some(h) => Ok(DispatchPayload { run_id: id, head_sha: h, run_number: number }),
    }
}

} // verus!
