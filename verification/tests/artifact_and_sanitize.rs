use std::io::Write;

use ibex_benchmark_bot::artifact::{
    extract_artifact_zip, extract_hnsw_artifact_zip, extract_write_pipeline_artifact_zip,
    file_name_of, reject_unsafe_zip_path,
    validate_badge_svg,
};
use ibex_benchmark_bot::hnsw_validate::check_suite_json_size;
use ibex_benchmark_bot::sanitize::{
    escape_cell, escape_markdown_inline, sanitize_branch, sanitize_gate_name, sanitize_sha,
    status_emoji,
};

fn zip_of(entries: &[(&str, &[u8])]) -> Vec<u8> {
    let mut writer = zip::ZipWriter::new(std::io::Cursor::new(Vec::new()));
    for (name, bytes) in entries {
        writer
            .start_file(name.to_string(), zip::write::SimpleFileOptions::default())
            .unwrap();
        writer.write_all(bytes).unwrap();
    }
    writer.finish().unwrap().into_inner()
}

#[test]
fn rejects_script_in_badge() {
    assert!(validate_badge_svg(br#"<svg><script>alert(1)</script></svg>"#).is_err());
}

#[test]
fn accepts_minimal_badge() {
    assert!(validate_badge_svg(br#"<svg xmlns="http://www.w3.org/2000/svg"></svg>"#).is_ok());
}

#[test]
fn badge_failures_name_their_cause() {
    let upper = validate_badge_svg(b"<SVG onLoad=\"x()\"></SVG>").unwrap_err();
    assert_eq!(upper.message(), "badge.svg contains forbidden pattern: onload=");
    let not_svg = validate_badge_svg(b"<html></html>").unwrap_err();
    assert_eq!(not_svg.message(), "badge.svg must contain svg root");
    let bad_utf8 = validate_badge_svg(&[0x3c, 0xff, 0xfe]).unwrap_err();
    assert_eq!(bad_utf8.message(), "badge.svg must be utf-8");
    let big = vec![b' '; 64 * 1024 + 1];
    assert_eq!(validate_badge_svg(&big).unwrap_err().message(), "badge.svg exceeds 64 KiB");
    let link = validate_badge_svg(b"<svg><a xlink:href=\"https://x\"/></svg>").unwrap_err();
    assert_eq!(link.message(), "badge.svg contains forbidden pattern: xlink:href=\"http");
}

#[test]
fn zip_paths_with_root_or_parent_are_refused() {
    assert!(reject_unsafe_zip_path("/etc/passwd").is_err());
    assert!(reject_unsafe_zip_path("a/../b").is_err());
    assert!(reject_unsafe_zip_path("..").is_err());
    assert!(reject_unsafe_zip_path("dir/badge.svg").is_ok());
    assert!(reject_unsafe_zip_path("a/..b/c").is_ok());
}

#[test]
fn file_names_follow_path_components() {
    let name = |p: &str| file_name_of(p).into_iter().collect::<String>();
    assert_eq!(name("out/benchmark-data.json"), "benchmark-data.json");
    assert_eq!(name("badge.svg/."), "badge.svg");
    assert_eq!(name("dir/"), "dir");
    assert_eq!(name("a/.."), "");
    assert_eq!(name("./"), "");
}

#[test]
fn extracts_json_and_badge_from_artifact() {
    let zip = zip_of(&[
        ("nested/benchmark-data.json", b"{\"schema_version\":1}"),
        ("README.txt", b"ignored"),
        ("badge.svg", b"<svg></svg>"),
    ]);
    let extracted = extract_artifact_zip(&zip).expect("extract");
    assert_eq!(extracted.json_bytes, b"{\"schema_version\":1}".to_vec());
    assert_eq!(extracted.badge_bytes, b"<svg></svg>".to_vec());
}

#[test]
fn artifact_without_badge_is_refused() {
    let zip = zip_of(&[("benchmark-data.json", b"{}")]);
    assert_eq!(extract_artifact_zip(&zip).err().unwrap().message(), "badge.svg not in artifact");
    let zip = zip_of(&[("badge.svg", b"<svg/>")]);
    assert_eq!(
        extract_artifact_zip(&zip).err().unwrap().message(),
        "benchmark-data.json not in artifact"
    );
}

#[test]
fn artifact_limits_are_enforced() {
    let names: Vec<String> = (0..33).map(|i| format!("f{i}.txt")).collect();
    let entries: Vec<(&str, &[u8])> = names.iter().map(|n| (n.as_str(), &b"x"[..])).collect();
    let zip = zip_of(&entries);
    assert_eq!(extract_artifact_zip(&zip).err().unwrap().message(), "artifact zip exceeds 32 entries");
    let huge = vec![0u8; 10 * 1024 * 1024 + 1];
    assert_eq!(
        extract_artifact_zip(&huge).err().unwrap().message(),
        "artifact zip exceeds 10485760 bytes"
    );
    let not_zip = extract_artifact_zip(b"not a zip").err().unwrap();
    assert!(not_zip.message().starts_with("zip open failed: "));
}

#[test]
fn extracts_hnsw_json() {
    let zip = zip_of(&[("hnsw-benchmark-data.json", b"{\"runs\":[]}"), ("badge.svg", b"<svg/>")]);
    let extracted = extract_hnsw_artifact_zip(&zip).expect("extract");
    assert_eq!(extracted.json_bytes, b"{\"runs\":[]}".to_vec());
    let zip = zip_of(&[("benchmark-data.json", b"{}")]);
    assert_eq!(
        extract_hnsw_artifact_zip(&zip).err().unwrap().message(),
        "hnsw-benchmark-data.json not in artifact"
    );
}

#[test]
fn strips_control_chars_from_cells() {
    let value = escape_cell(Some("hello\u{0007}world"));
    assert!(!value.contains('\u{0007}'));
}

#[test]
fn rejects_phishing_gate_name() {
    let value = sanitize_gate_name(Some("[click](https://evil.example)"));
    assert_eq!(value, "invalid");
}

#[test]
fn gate_names_are_escaped_or_defaulted() {
    assert_eq!(sanitize_gate_name(None), "—");
    assert_eq!(sanitize_gate_name(Some("   ")), "—");
    assert_eq!(sanitize_gate_name(Some(" p99 (ms) ")), "p99 (ms)");
}

#[test]
fn cells_escape_markdown() {
    assert_eq!(escape_cell(None), "—");
    assert_eq!(escape_cell(Some("a|b")), "a\\|b");
    assert_eq!(escape_cell(Some("[x]<y>")), "`[`x`]``<`y`>`");
    assert_eq!(escape_cell(Some("tab\tkept")), "tab\tkept");
    let chars: Vec<char> = "a\nb\rc`".chars().collect();
    assert_eq!(escape_markdown_inline(&chars).into_iter().collect::<String>(), "a b c```");
}

#[test]
fn shas_are_sanitized() {
    assert_eq!(sanitize_sha(None), "unknown");
    assert_eq!(sanitize_sha(Some(" abcdef1 ")), "abcdef1");
    assert_eq!(sanitize_sha(Some("ABCDEF1")), "invalid");
    assert_eq!(sanitize_sha(Some("abc12")), "invalid");
    assert_eq!(sanitize_branch("feature/x-1"), "feature/x-1");
    assert_eq!(sanitize_branch("bad branch"), "unknown");
}

#[test]
fn status_emojis() {
    assert_eq!(status_emoji("pass"), "✅");
    assert_eq!(status_emoji("regression"), "⚠️");
    assert_eq!(status_emoji("fail"), "❌");
    assert_eq!(status_emoji("other"), "❔");
}

#[test]
fn write_pipeline_artifact_keeps_its_json_only() {
    let zip = zip_of(&[
        ("write-pipeline-benchmark-data.json", b"{\"runs\":[]}"),
        ("hnsw-benchmark-data.json", b"{}"),
    ]);
    assert_eq!(extract_write_pipeline_artifact_zip(&zip).expect("extract"), b"{\"runs\":[]}".to_vec());
    let other = zip_of(&[("hnsw-benchmark-data.json", b"{}")]);
    assert_eq!(
        extract_write_pipeline_artifact_zip(&other).unwrap_err().message(),
        "write-pipeline-benchmark-data.json not in artifact"
    );
}

#[test]
fn suite_json_is_limited_to_two_mebibytes() {
    assert!(check_suite_json_size(&vec![b' '; 2_097_152]).is_ok());
    assert_eq!(
        check_suite_json_size(&vec![b' '; 2_097_153]).unwrap_err().message(),
        "json exceeds 2097152 bytes"
    );
}
