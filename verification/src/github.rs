//! The GitHub REST API as the bot uses it: request paths and bodies, and the
//! decisions taken on what the API answers. Sending requests is left to the
//! caller.

use vstd::prelude::*;

use crate::error::{bot_err, fails_as, BotError};
use crate::text::{cat, chars_of, contains, contains_chars, eq_str, find_chars, find_from, i64_to_string, decimal_int, slice_chars, string_of};

verus! {

pub const API_BASE: &'static str = "https://api.github.com";

pub const API_VERSION: &'static str = "2022-11-28";

pub const USER_AGENT_VALUE: &'static str = "ibex-benchmark-bot";

/// Name of the workflow artifact that holds the proxy benchmark files.
pub const BENCHMARK_ARTIFACT_NAME: &'static str = "benchmark-data";

/// Name of the workflow artifact that holds the HNSW benchmark file.
pub const HNSW_ARTIFACT_NAME: &'static str = "hnsw-benchmark-data";

/// Name of the workflow artifact that holds the write-pipeline benchmark file.
pub const WRITE_PIPELINE_ARTIFACT_NAME: &'static str = "write-pipeline-benchmark-data";

pub fn github_json_accept() -> (r: &'static str)
    ensures
        r@ == "application/vnd.github+json"@,
{
    "application/vnd.github+json"
}

pub fn github_raw_accept() -> (r: &'static str)
    ensures
        r@ == "application/vnd.github.raw+json"@,
{
    "application/vnd.github.raw+json"
}

#[derive(Clone, Copy, Debug)]
pub struct RepoRef<'a> {
    pub owner: &'a str,
    pub repo: &'a str,
}

pub struct RepoPathRef<'a> {
    pub repo: RepoRef<'a>,
    pub path: &'a str,
    pub git_ref: &'a str,
}

pub struct CreateBranch<'a> {
    pub repo: RepoRef<'a>,
    pub branch: &'a str,
    pub sha: &'a str,
}

pub struct OpenPullRequest<'a> {
    pub repo: RepoRef<'a>,
    pub branch: &'a str,
    pub title: &'a str,
    pub body: &'a str,
}

pub struct IssueRef<'a> {
    pub repo: RepoRef<'a>,
    pub number: i64,
}

pub struct IssueCommentUpdate<'a> {
    pub repo: RepoRef<'a>,
    pub comment_id: i64,
    pub body: &'a str,
}

pub struct CommitStatus<'a> {
    pub repo: RepoRef<'a>,
    pub sha: &'a str,
    pub state: &'a str,
    pub description: &'a str,
    pub context: &'a str,
}

pub struct LabeledPrSearch<'a> {
    pub repo: RepoRef<'a>,
    pub label: &'a str,
    pub head_sha: &'a str,
}

pub struct PutFileRequest<'a> {
    pub path: &'a str,
    pub branch: &'a str,
    pub bytes: &'a [u8],
    pub message: &'a str,
    pub file_sha: Option<&'a str>,
}

/// The API requests the bot makes, each naming what its path needs.
pub enum Endpoint<'a> {
    /// `GET` a workflow run.
    WorkflowRun { run_id: i64 },
    /// `GET` a branch ref (does it exist).
    BranchRef { branch: &'a str },
    /// `GET` the artifacts of a workflow run.
    RunArtifacts { run_id: i64 },
    /// `GET` an artifact's zip.
    ArtifactZip { artifact_id: i64 },
    /// `POST` a new ref.
    GitRefs,
    /// `GET` a file's contents at a ref.
    Contents { path: &'a str, git_ref: &'a str },
    /// `PUT` a file's contents.
    PutContents { path: &'a str },
    /// `GET` open issues with a label.
    LabeledIssues { label: &'a str },
    /// `GET` the `main` branch ref.
    MainRef,
    /// `POST` a pull request.
    Pulls,
    /// `PATCH` a pull request.
    Pull { number: i64 },
    /// `GET` open pull requests from a branch of the owner.
    OpenPullsFrom { branch: &'a str },
    /// `POST` labels onto an issue.
    IssueLabels { number: i64 },
    /// `GET` or `POST` an issue's comments.
    IssueComments { number: i64 },
    /// `PATCH` an issue comment.
    IssueComment { comment_id: i64 },
    /// `POST` a commit status.
    Statuses { sha: &'a str },
}

impl<'a> RepoRef<'a> {
    pub fn new(owner: &'a str, repo: &'a str) -> (r: Self)
        ensures
            r.owner == owner,
            r.repo == repo,
    {
        RepoRef { owner, repo }
    }

    pub open spec fn base_path_spec(&self) -> Seq<char> {
        "/repos/"@ + self.owner@ + "/"@ + self.repo@
    }

    /// `/repos/{owner}/{repo}`.
    pub fn base_path(&self) -> (r: String)
        ensures
            r@ == self.base_path_spec(),
    {
        let mut out = String::from_str("/repos/");
        out.append(self.owner);
        out.append("/");
        out.append(self.repo);
        out
    }
}

/// The path of an endpoint under the repository.
pub open spec fn endpoint_path_spec(repo: RepoRef, endpoint: Endpoint) -> Seq<char> {
    let base = repo.base_path_spec();
    match endpoint {
        Endpoint::WorkflowRun { run_id } => base + "/actions/runs/"@ + decimal_int(run_id as int),
        Endpoint::BranchRef { branch } => base + "/git/ref/heads/"@ + branch@,
        Endpoint::RunArtifacts { run_id } => base + "/actions/runs/"@ + decimal_int(run_id as int)
            + "/artifacts"@,
        Endpoint::ArtifactZip { artifact_id } => base + "/actions/artifacts/"@ + decimal_int(
            artifact_id as int,
        ) + "/zip"@,
        Endpoint::GitRefs => base + "/git/refs"@,
        Endpoint::Contents { path, git_ref } => base + "/contents/"@ + path@ + "?ref="@ + git_ref@,
        Endpoint::PutContents { path } => base + "/contents/"@ + path@,
        Endpoint::LabeledIssues { label } => base + "/issues?state=open&labels="@ + label@,
        Endpoint::MainRef => base + "/git/ref/heads/main"@,
        Endpoint::Pulls => base + "/pulls"@,
        Endpoint::Pull { number } => base + "/pulls/"@ + decimal_int(number as int),
        Endpoint::OpenPullsFrom { branch } => base + "/pulls?state=open&head="@ + repo.owner@ + ":"@
            + branch@,
        Endpoint::IssueLabels { number } => base + "/issues/"@ + decimal_int(number as int)
            + "/labels"@,
        Endpoint::IssueComments { number } => base + "/issues/"@ + decimal_int(number as int)
            + "/comments"@,
        Endpoint::IssueComment { comment_id } => base + "/issues/comments/"@ + decimal_int(
            comment_id as int,
        ),
        Endpoint::Statuses { sha } => base + "/statuses/"@ + sha@,
    }
}

/// The request path of an endpoint of the repository.
pub fn endpoint_path(repo: &RepoRef, endpoint: &Endpoint) -> (r: String)
    ensures
        r@ == endpoint_path_spec(*repo, *endpoint),
{
    let mut out = repo.base_path();
    match endpoint {
        Endpoint::WorkflowRun { run_id } => {
            out.append("/actions/runs/");
            out.append(i64_to_string(*run_id).as_str());
        },
        Endpoint::BranchRef { branch } => {
            out.append("/git/ref/heads/");
            out.append(branch);
        },
        Endpoint::RunArtifacts { run_id } => {
            out.append("/actions/runs/");
            out.append(i64_to_string(*run_id).as_str());
            out.append("/artifacts");
        },
        Endpoint::ArtifactZip { artifact_id } => {
            out.append("/actions/artifacts/");
            out.append(i64_to_string(*artifact_id).as_str());
            out.append("/zip");
        },
        Endpoint::GitRefs => {
            out.append("/git/refs");
        },
        Endpoint::Contents { path, git_ref } => {
            out.append("/contents/");
            out.append(path);
            out.append("?ref=");
            out.append(git_ref);
        },
        Endpoint::PutContents { path } => {
            out.append("/contents/");
            out.append(path);
        },
        Endpoint::LabeledIssues { label } => {
            out.append("/issues?state=open&labels=");
            out.append(label);
        },
        Endpoint::MainRef => {
            out.append("/git/ref/heads/main");
        },
        Endpoint::Pulls => {
            out.append("/pulls");
        },
        Endpoint::Pull { number } => {
            out.append("/pulls/");
            out.append(i64_to_string(*number).as_str());
        },
        Endpoint::OpenPullsFrom { branch } => {
            out.append("/pulls?state=open&head=");
            out.append(repo.owner);
            out.append(":");
            out.append(branch);
        },
        Endpoint::IssueLabels { number } => {
            out.append("/issues/");
            out.append(i64_to_string(*number).as_str());
            out.append("/labels");
        },
        Endpoint::IssueComments { number } => {
            out.append("/issues/");
            out.append(i64_to_string(*number).as_str());
            out.append("/comments");
        },
        Endpoint::IssueComment { comment_id } => {
            out.append("/issues/comments/");
            out.append(i64_to_string(*comment_id).as_str());
        },
        Endpoint::Statuses { sha } => {
            out.append("/statuses/");
            out.append(sha);
        },
    }
    out
}

/// The path that reads a file's contents at a ref.
pub fn contents_path(repo: &RepoRef, path: &str, git_ref: &str) -> (r: String)
    ensures
        r@ == endpoint_path_spec(*repo, Endpoint::Contents { path, git_ref }),
{
    endpoint_path(repo, &Endpoint::Contents { path, git_ref })
}

/// The full ref name of a new branch.
pub fn branch_ref_name(branch: &str) -> (r: String)
    ensures
        r@ == "refs/heads/"@ + branch@,
{
    cat("refs/heads/", branch)
}

/// Splits `owner/repo` at its first `/`.
pub open spec fn split_repo_spec(full: Seq<char>) -> Result<(Seq<char>, Seq<char>), Seq<char>> {
    match find_from(full, seq!['/'], 0) {
        None => Err("invalid repo: "@ + full),
        Some(k) => Ok((full.subrange(0, k), full.subrange(k + 1, full.len() as int))),
    }
}

pub fn split_repo(full_name: &str) -> (r: Result<(String, String), BotError>)
    ensures
        match split_repo_spec(full_name@) {
            Ok((o, n)) => r matches Ok((a, b)) && a@ == o && b@ == n,
            Err(m) => r matches Err(e) && e@ == m,
        },
{
    let v = chars_of(full_name);
    let slash: Vec<char> = vec!['/'];
    assert(slash@ =~= seq!['/']);
    match find_chars(v.as_slice(), slash.as_slice(), 0) {
        None => Err(bot_err(cat("invalid repo: ", full_name))),
        Some(k) => {
            proof {
                crate::text::lemma_find_from_sound(v@, slash@, 0);
            }
            let vlen: usize = v.len();
            let owner = string_of(slice_chars(v.as_slice(), 0, k).as_slice());
            let repo = string_of(slice_chars(v.as_slice(), k + 1, vlen).as_slice());
            Ok((owner, repo))
        },
    }
}

// ---------------------------------------------------------------------------
// Answers
// ---------------------------------------------------------------------------
/// What a lookup answered: the thing is missing (404), present (2xx), or the
/// request failed.
#[derive(Clone, Copy, Debug, PartialEq, Eq, Structural)]
pub enum LookupOutcome {
    Missing,
    Present,
    Failed,
}

pub open spec fn is_success(code: u16) -> bool {
    200 <= code <= 299
}

pub open spec fn lookup_outcome(code: u16) -> LookupOutcome {
    if code == 404 {
        LookupOutcome::Missing
    } else if is_success(code) {
        LookupOutcome::Present
    } else {
        LookupOutcome::Failed
    }
}

/// Classifies the status of a lookup (a ref, a file's contents).
pub fn classify_lookup(code: u16) -> (r: LookupOutcome)
    ensures
        r == lookup_outcome(code),
{
    if code == 404 {
        LookupOutcome::Missing
    } else if 200 <= code && code <= 299 {
        LookupOutcome::Present
    } else {
        LookupOutcome::Failed
    }
}

/// An artifact of a workflow run, as listed by the API.
pub struct ArtifactSummary {
    pub name: Option<String>,
    pub id: Option<i64>,
}

pub open spec fn is_named_artifact(a: ArtifactSummary, name: Seq<char>) -> bool {
    a.name matches Some(n) && n@ == name
}

/// The first artifact named `name` among `items[i..]`.
pub open spec fn first_named_artifact(items: Seq<ArtifactSummary>, name: Seq<char>, i: int) -> Option<
    int,
>
    decreases items.len() - i,
{
    if i < 0 || i >= items.len() {
        None
    } else if is_named_artifact(items[i], name) {
        Some(i)
    } else {
        first_named_artifact(items, name, i + 1)
    }
}

/// The id of the run's artifact named `name`, or why there is none.
pub open spec fn named_artifact_id(artifacts: Option<Seq<ArtifactSummary>>, name: Seq<char>) -> Result<
    i64,
    Seq<char>,
> {
    match artifacts {
        None => Err("artifacts list missing"@),
        Some(items) => match first_named_artifact(items, name, 0) {
            None => Err(name + " artifact not found"@),
            Some(i) => match items[i].id {
                Some(id) => Ok(id),
                None => Err("artifact id missing"@),
            },
        },
    }
}

/// Picks the artifact named `name` out of a run's artifact list.
pub fn find_artifact_id(artifacts: Option<&Vec<ArtifactSummary>>, name: &str) -> (r: Result<
    i64,
    BotError,
>)
    ensures
        match named_artifact_id(
            match artifacts {
                Some(v) => Some(v@),
                None => None,
            },
            name@,
        ) {
            Ok(id) => r matches Ok(x) && x == id,
            Err(m) => r matches Err(e) && e@ == m,
        },
{
    let items = match artifacts {
        None => return Err(bot_err(String::from_str("artifacts list missing"))),
        Some(items) => items,
    };
    let mut i: usize = 0;
    while i < items.len()
        invariant
            i <= items@.len(),
            artifacts == Some(items),
            first_named_artifact(items@, name@, 0) == first_named_artifact(items@, name@, i as int),
        decreases items.len() - i,
    {
        let matches_name = match &items[i].name {
            Some(n) => eq_str(n.as_str(), name),
            None => false,
        };
        if matches_name {
            return match items[i].id {
                Some(id) => Ok(id),
                None => Err(bot_err(String::from_str("artifact id missing"))),
            };
        }
        i = i + 1;
    }
    Err(bot_err(cat(name, " artifact not found")))
}

/// The first pull request whose body mentions `head_sha`.
pub open spec fn first_body_with(bodies: Seq<Option<String>>, needle: Seq<char>, i: int) -> Option<int>
    decreases bodies.len() - i,
{
    if i < 0 || i >= bodies.len() {
        None
    } else if bodies[i] matches Some(b) && contains(b@, needle) {
        Some(i)
    } else {
        first_body_with(bodies, needle, i + 1)
    }
}

/// Among open labelled pull requests (given by their bodies), the first that
/// mentions the head SHA.
pub fn find_pr_mentioning(bodies: &Vec<Option<String>>, head_sha: &str) -> (r: Option<usize>)
    ensures
        match first_body_with(bodies@, head_sha@, 0) {
            Some(i) => r == Some(i as usize),
            None => r is None,
        },
{
    let needle = chars_of(head_sha);
    let mut i: usize = 0;
    while i < bodies.len()
        invariant
            i <= bodies@.len(),
            needle@ == head_sha@,
            first_body_with(bodies@, head_sha@, 0) == first_body_with(bodies@, head_sha@, i as int),
        decreases bodies.len() - i,
    {
        let hit = match &bodies[i] {
            Some(b) => {
                let bv = chars_of(b.as_str());
                contains_chars(bv.as_slice(), needle.as_slice())
            },
            None => false,
        };
        if hit {
            return Some(i);
        }
        i = i + 1;
    }
    None
}

// ---------------------------------------------------------------------------
// Contents
// ---------------------------------------------------------------------------
/// What `base64::engine::general_purpose::STANDARD.decode` gives for a text:
/// the bytes, or the error's message.
pub uninterp spec fn base64_standard_decode(text: Seq<char>) -> Result<Seq<u8>, Seq<char>>;

/// What `STANDARD.encode` gives for some bytes.
pub uninterp spec fn base64_standard_encode(bytes: Seq<u8>) -> Seq<char>;

pub open spec fn decode_view(r: Result<Vec<u8>, String>) -> Result<Seq<u8>, Seq<char>> {
    match r {
        Ok(v) => Ok(v@),
        Err(e) => Err(e@),
    }
}

/// `base64::Engine::decode` with the standard alphabet and padding; the error
/// is kept as its `Display` text. The result is named by
/// `base64_standard_decode`.
#[verifier::external_body]
fn base64_decode(text: &str) -> (r: Result<Vec<u8>, String>)
    ensures
        decode_view(r) == base64_standard_decode(text@),
{
    match base64::Engine::decode(&base64::engine::general_purpose::STANDARD, text) {
        Ok(bytes) => Ok(bytes),
        Err(err) => Err(err.to_string()),
    }
}

/// `base64::Engine::encode` with the standard alphabet and padding. The
/// result is named by `base64_standard_encode`. The engine panics when the
/// encoded length overflows `usize`, which the bound on the input excludes.
#[verifier::external_body]
fn base64_encode(bytes: &[u8]) -> (r: String)
    requires
        bytes@.len() <= usize::MAX / 2,
    ensures
        r@ == base64_standard_encode(bytes@),
{
    base64::Engine::encode(&base64::engine::general_purpose::STANDARD, bytes)
}

/// `s` without its `\n` characters.
pub open spec fn without_newlines(s: Seq<char>) -> Seq<char> {
    s.filter(|c: char| c != '\n')
}

/// How the contents API answered for a file.
pub enum FileContents {
    /// The answer carries no inline content: read the raw file instead.
    FetchRaw,
    /// The decoded content.
    Bytes(Vec<u8>),
}

/// The decision on a contents answer with the given `encoding` and `content`
/// members: raw fetch, the decoded bytes, or a decode failure.
pub open spec fn contents_decision(encoding: Option<Seq<char>>, content: Option<Seq<char>>) -> Result<
    Option<Seq<u8>>,
    Seq<char>,
> {
    let enc = match encoding {
        Some(e) => e,
        None => "base64"@,
    };
    if enc == "none"@ || !(content matches Some(c) && c.len() > 0) {
        Ok(None)
    } else {
        match base64_standard_decode(without_newlines(content.unwrap())) {
            Ok(bytes) => Ok(Some(bytes)),
            Err(e) => Err("contents base64 decode failed: "@ + e),
        }
    }
}

pub fn decode_contents(encoding: Option<&str>, content: Option<&str>) -> (r: Result<
    FileContents,
    BotError,
>)
    ensures
        match contents_decision(
            match encoding {
                Some(e) => Some(e@),
                None => None,
            },
            match content {
                Some(c) => Some(c@),
                None => None,
            },
        ) {
            Ok(None) => r matches Ok(FileContents::FetchRaw),
            Ok(Some(b)) => r matches Ok(FileContents::Bytes(v)) && v@ == b,
            Err(m) => r matches Err(e) && e@ == m,
        },
{
    let enc: &str = match encoding {
        Some(e) => e,
        None => "base64",
    };
    let text = match content {
        Some(c) => if c.is_empty() {
            return Ok(FileContents::FetchRaw);
        } else {
            c
        },
        None => return Ok(FileContents::FetchRaw),
    };
    if eq_str(enc, "none") {
        return Ok(FileContents::FetchRaw);
    }
    let v = chars_of(text);
    let mut cleaned: Vec<char> = Vec::new();
    let mut i: usize = 0;
    while i < v.len()
        invariant
            i <= v@.len(),
            cleaned@ == without_newlines(v@.subrange(0, i as int)),
        decreases v.len() - i,
    {
        proof {
            v@.subrange(0, i as int).lemma_filter_push(v@[i as int], |c: char| c != '\n');
            assert(v@.subrange(0, i + 1) =~= v@.subrange(0, i as int).push(v@[i as int]));
        }
        if v[i] != '\n' {
            cleaned.push(v[i]);
        }
        i = i + 1;
    }
    assert(v@.subrange(0, v@.len() as int) =~= v@);
    let cleaned_text = string_of(cleaned.as_slice());
    match base64_decode(cleaned_text.as_str()) {
        Ok(bytes) => Ok(FileContents::Bytes(bytes)),
        Err(e) => Err(bot_err(cat("contents base64 decode failed: ", e.as_str()))),
    }
}

/// The body of a contents `PUT`: commit message, encoded content, branch,
/// and the replaced file's SHA when there is one.
pub struct PutFileBody {
    pub message: String,
    pub content: String,
    pub branch: String,
    pub sha: Option<String>,
}

pub fn put_file_body(req: &PutFileRequest) -> (r: PutFileBody)
    requires
        req.bytes@.len() <= usize::MAX / 2,
    ensures
        r.message@ == req.message@,
        r.content@ == base64_standard_encode(req.bytes@),
        r.branch@ == req.branch@,
        match req.file_sha {
            Some(s) => r.sha matches Some(x) && x@ == s@,
            None => r.sha is None,
        },
{
    PutFileBody {
        message: String::from_str(req.message),
        content: base64_encode(req.bytes),
        branch: String::from_str(req.branch),
        sha: match req.file_sha {
            Some(s) => Some(String::from_str(s)),
            None => None,
        },
    }
}

/// The issue and expiry times of an app JWT issued at `now` (seconds): one
/// minute back for clock drift, ten minutes ahead.
pub fn app_jwt_window(now: u64) -> (r: (u64, u64))
    requires
        now <= u64::MAX - 600,
    ensures
        r.0 == (if now >= 60 {
            now - 60
        } else {
            0
        }),
        r.1 == now + 600,
{
    (now.saturating_sub(60), now + 600)
}

/// What `jsonwebtoken::encode` gives for an RS256 token with claims `iat`,
/// `exp` and `iss`, signed with the RSA key `pem` (`EncodingKey::from_rsa_pem`);
/// `None` when the key is refused or signing fails.
pub uninterp spec fn rs256_app_jwt(iat: u64, exp: u64, iss: Seq<char>, pem: Seq<char>) -> Option<Seq<char>>;

/// Signs an app JWT with `jsonwebtoken`: `EncodingKey::from_rsa_pem`, then
/// `encode` with an RS256 header and the claims `iat`, `exp`, `iss` as a JSON
/// object. RS256 signing is deterministic, so the token is named by its
/// inputs. The error text is `jsonwebtoken`'s, behind a fixed prefix; it is
/// not stated.
#[verifier::external_body]
fn sign_app_jwt(iat: u64, exp: u64, iss: &str, private_key_pem: &str) -> (r: Result<String, String>)
    ensures
        match r {
            Ok(t) => rs256_app_jwt(iat, exp, iss@, private_key_pem@) == Some(t@),
            Err(_) => rs256_app_jwt(iat, exp, iss@, private_key_pem@) is None,
        },
{
    let key = jsonwebtoken::EncodingKey::from_rsa_pem(private_key_pem.as_bytes())
        .map_err(|err| format!("invalid app private key: {err}"))?;
    let mut claims = serde_json::Map::new();
    claims.insert(String::from("iat"), serde_json::Value::from(iat));
    claims.insert(String::from("exp"), serde_json::Value::from(exp));
    claims.insert(String::from("iss"), serde_json::Value::from(iss));
    let header = jsonwebtoken::Header::new(jsonwebtoken::Algorithm::RS256);
    jsonwebtoken::encode(&header, &claims, &key).map_err(|err| format!("jwt encode failed: {err}"))
}

/// When an app JWT made at `now` is issued: a minute back for clock drift.
pub open spec fn jwt_issued_at(now: u64) -> u64 {
    if now >= 60 {
        (now - 60) as u64
    } else {
        0
    }
}

/// The app JWT for `app_id`, issued at `now` (seconds since the epoch) and
/// valid for ten minutes, signed with the App's private key.
pub fn create_app_jwt(app_id: &str, private_key_pem: &str, now: u64) -> (r: Result<String, BotError>)
    requires
        now <= u64::MAX - 600,
    ensures
        match rs256_app_jwt(jwt_issued_at(now), (now + 600) as u64, app_id@, private_key_pem@) {
            Some(t) => r matches Ok(x) && x@ == t,
            None => r is Err,
        },
{
    let (iat, exp) = app_jwt_window(now);
    match sign_app_jwt(iat, exp, app_id, private_key_pem) {
        Ok(token) => Ok(token),
        Err(message) => Err(bot_err(message)),
    }
}

/// The URL that exchanges an app JWT for an installation token.
pub fn installation_token_url(installation_id: &str) -> (r: String)
    ensures
        r@ == "https://api.github.com/app/installations/"@ + installation_id@ + "/access_tokens"@,
{
    let mut out = String::from_str("https://api.github.com/app/installations/");
    out.append(installation_id);
    out.append("/access_tokens");
    out
}

} // verus!
