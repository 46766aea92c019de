//! Fixed names of the harness repository, its workflows and published files.

use vstd::prelude::*;

use crate::text::{chars_of, trim, trim_chars, string_of, eq_str};

verus! {

pub const EXPECTED_HARNESS_REPO: &'static str = "Rick1330/ibex-harness";
pub const EXPECTED_WORKFLOW_NAME: &'static str = "Benchmarks";
pub const EXPECTED_WORKFLOW_PATH: &'static str = ".github/workflows/benchmark.yml";
pub const EXPECTED_HNSW_WORKFLOW_NAME: &'static str = "Memory Benchmarks";
pub const EXPECTED_HNSW_WORKFLOW_PATH: &'static str = ".github/workflows/memory-benchmark.yml";
pub const BENCHMARK_DATA_PATH: &'static str = "web/public/benchmarks/benchmark-data.json";
pub const BADGE_PATH: &'static str = "web/public/benchmarks/badge.svg";
pub const HNSW_BENCHMARK_DATA_PATH: &'static str = "web/public/benchmarks/hnsw-benchmark-data.json";
pub const RANKING_QUALITY_BENCHMARK_DATA_PATH: &'static str =
    "web/public/benchmarks/ranking-quality-benchmark-data.json";
pub const WRITE_PIPELINE_BENCHMARK_DATA_PATH: &'static str =
    "web/public/benchmarks/write-pipeline-benchmark-data.json";
pub const EXTRACTION_QUALITY_BENCHMARK_DATA_PATH: &'static str =
    "web/public/benchmarks/extraction-quality-benchmark-data.json";
pub const BENCHMARK_DATA_LABEL: &'static str = "benchmark-data";
pub const HNSW_BENCHMARK_DATA_LABEL: &'static str = "hnsw-benchmark-data";
pub const RANKING_QUALITY_BENCHMARK_DATA_LABEL: &'static str = "ranking-quality-benchmark-data";
pub const WRITE_PIPELINE_BENCHMARK_DATA_LABEL: &'static str = "write-pipeline-benchmark-data";
pub const EXTRACTION_QUALITY_BENCHMARK_DATA_LABEL: &'static str = "extraction-quality-benchmark-data";
/// Shared branch for all suite data publishes — one open PR at a time.
pub const DATA_PR_BRANCH: &'static str = "chore/bench-data-publish";
/// Environment variable that lifts the harness repository lock.
pub const HARNESS_REPO_OVERRIDE_VAR: &'static str = "ALLOW_HARNESS_REPO_OVERRIDE";

pub open spec fn repo_lock_message() -> Seq<char> {
    "harness repo must be "@ + EXPECTED_HARNESS_REPO@
        + " (set ALLOW_HARNESS_REPO_OVERRIDE=true to override)"@
}

/// The override values that lift the lock once trimmed.
pub open spec fn override_value_truthy(v: Seq<char>) -> bool {
    v == "1"@ || v == "true"@ || v == "TRUE"@ || v == "yes"@ || v == "YES"@
}

/// Whether the value of `ALLOW_HARNESS_REPO_OVERRIDE` (if set) lifts the lock.
pub fn harness_repo_override_enabled(value: Option<&str>) -> (r: bool)
    ensures
        r == (value matches Some(v) && override_value_truthy(trim(v@))),
{
    match value {
        None => false,
        Some(v) => {
            let chars = chars_of(v);
            let trimmed = string_of(trim_chars(chars.as_slice()).as_slice());
            let t = trimmed.as_str();
            eq_str(t, "1") || eq_str(t, "true") || eq_str(t, "TRUE") || eq_str(t, "yes") || eq_str(
                t,
                "YES",
            )
        },
    }
}

/// The harness repository to act on: `requested`, which must be the expected
/// repository unless the override is enabled.
pub fn resolve_harness_repo<'a>(requested: &'a str, override_enabled: bool) -> (r: Result<
    &'a str,
    String,
>)
    ensures
        r matches Ok(s) ==> s@ == requested@,
        r is Ok <==> (override_enabled || requested@ == EXPECTED_HARNESS_REPO@),
        r matches Err(m) ==> m@ == repo_lock_message(),
{
    if override_enabled {
        return Ok(requested);
    }
    if !eq_str(requested, EXPECTED_HARNESS_REPO) {
        let mut msg = String::from_str("harness repo must be ");
        msg.append(EXPECTED_HARNESS_REPO);
        msg.append(" (set ALLOW_HARNESS_REPO_OVERRIDE=true to override)");
        return Err(msg);
    }
    Ok(requested)
}

} // verus!
