//! Workflow artifacts: zip extraction limits, entry path checks and the
//! badge SVG screen.
//!
//! Entry paths inside an archive use `/` as separator and are read with the
//! Unix meaning of `std::path::Path`.

use vstd::prelude::*;

use crate::error::{bot_err, fails_as, BotError};
use crate::text::{ascii_lower, ascii_lower_chars, cat, chars_of, contains, contains_chars};

verus! {

pub const MAX_ZIP_BYTES: usize = 10485760;

pub const MAX_ENTRIES: usize = 32;

pub const MAX_UNCOMPRESSED: u64 = 20971520;

pub const MAX_BADGE_BYTES: usize = 65536;

pub const JSON_NAME: &'static str = "benchmark-data.json";

pub const BADGE_NAME: &'static str = "badge.svg";

pub const HNSW_JSON_NAME: &'static str = "hnsw-benchmark-data.json";
pub const WRITE_PIPELINE_JSON_NAME: &'static str = "write-pipeline-benchmark-data.json";

// ---------------------------------------------------------------------------
// Entry paths
// ---------------------------------------------------------------------------
/// End of the `/`-separated segment that starts at `i`.
pub open spec fn segment_end(s: Seq<char>, i: int) -> int
    decreases s.len() - i,
{
    if i < 0 || i >= s.len() {
        s.len() as int
    } else if s[i] == '/' {
        i
    } else {
        segment_end(s, i + 1)
    }
}

/// Some segment starting at or after segment start `i` is `..`.
pub open spec fn parent_segment_from(s: Seq<char>, i: int) -> bool
    decreases s.len() + 1 - i,
{
    if i < 0 || i > s.len() {
        false
    } else {
        let e = segment_end(s, i);
        proof {
            lemma_segment_end(s, i);
        }
        s.subrange(i, e) == ".."@ || (e < s.len() && parent_segment_from(s, e + 1))
    }
}

/// A path is refused when it is absolute or has a `..` component.
pub open spec fn unsafe_zip_path(s: Seq<char>) -> bool {
    (s.len() > 0 && s[0] == '/') || parent_segment_from(s, 0)
}

pub proof fn lemma_segment_end(s: Seq<char>, i: int)
    requires
        0 <= i <= s.len(),
    ensures
        i <= segment_end(s, i) <= s.len(),
        forall|k: int| i <= k < segment_end(s, i) ==> s[k] != '/',
        segment_end(s, i) < s.len() ==> s[segment_end(s, i)] == '/',
    decreases s.len() - i,
{
    if i < s.len() && s[i] != '/' {
        lemma_segment_end(s, i + 1);
    }
}

fn segment_end_at(v: &[char], i: usize) -> (e: usize)
    requires
        i <= v@.len(),
    ensures
        e == segment_end(v@, i as int),
        i <= e <= v@.len(),
{
    proof {
        lemma_segment_end(v@, i as int);
    }
    let mut e: usize = i;
    while e < v.len() && v[e] != '/'
        invariant
            i <= e <= v@.len(),
            segment_end(v@, e as int) == segment_end(v@, i as int),
        decreases v.len() - e,
    {
        e = e + 1;
    }
    e
}

fn is_dot_dot(v: &[char], i: usize, e: usize) -> (r: bool)
    requires
        i <= e <= v@.len(),
    ensures
        r == (v@.subrange(i as int, e as int) == ".."@),
{
    proof {
        reveal_strlit("..");
    }
    let r = e - i == 2 && v[i] == '.' && v[i + 1] == '.';
    proof {
        let sub = v@.subrange(i as int, e as int);
        assert(".."@.len() == 2 && ".."@[0] == '.' && ".."@[1] == '.');
        if r {
            assert(sub =~= ".."@);
        } else if e - i == 2 {
            assert(sub[0] == v@[i as int]);
            assert(sub[1] == v@[i + 1]);
        }
    }
    r
}

fn has_parent_segment(v: &[char]) -> (r: bool)
    ensures
        r == parent_segment_from(v@, 0),
{
    let mut i: usize = 0;
    while i <= v.len()
        invariant
            i <= v@.len() + 1,
            parent_segment_from(v@, 0) == parent_segment_from(v@, i as int),
        decreases v@.len() + 1 - i,
    {
        let e = segment_end_at(v, i);
        if is_dot_dot(v, i, e) {
            return true;
        }
        if e >= v.len() {
            return false;
        }
        i = e + 1;
    }
    false
}

/// Refuses an entry path with a root or parent-directory component.
pub fn reject_unsafe_zip_path(path: &str) -> (r: Result<(), BotError>)
    ensures
        fails_as(
            r,
            if unsafe_zip_path(path@) {
                Some("zip entry path not allowed"@)
            } else {
                None
            },
        ),
{
    let v = chars_of(path);
    let refused = (v.len() > 0 && v[0] == '/') || has_parent_segment(v.as_slice());
    if refused {
        Err(bot_err(String::from_str("zip entry path not allowed")))
    } else {
        Ok(())
    }
}

/// Start of the segment that ends at `end`.
pub open spec fn segment_start(s: Seq<char>, end: int) -> int
    decreases end,
{
    if end <= 0 {
        0
    } else if s[end - 1] == '/' {
        end
    } else {
        segment_start(s, end - 1)
    }
}

pub proof fn lemma_segment_start(s: Seq<char>, end: int)
    requires
        0 <= end <= s.len(),
    ensures
        0 <= segment_start(s, end) <= end,
        end > 0 && s[end - 1] != '/' ==> segment_start(s, end) < end,
        forall|k: int| segment_start(s, end) <= k < end ==> s[k] != '/',
        segment_start(s, end) > 0 ==> s[segment_start(s, end) - 1] == '/',
    decreases end,
{
    if end > 0 && s[end - 1] != '/' {
        lemma_segment_start(s, end - 1);
    }
}

/// `Path::file_name` over the first `end` characters: the last component
/// when it is a normal one (`.` components are skipped, `..` gives none).
pub open spec fn file_name_before(s: Seq<char>, end: int) -> Option<Seq<char>>
    decreases end,
{
    if end <= 0 || end > s.len() {
        None
    } else if s[end - 1] == '/' {
        file_name_before(s, end - 1)
    } else {
        let start = segment_start(s, end);
        let seg = s.subrange(start, end);
        if seg == "."@ {
            proof {
                lemma_segment_start(s, end);
            }
            file_name_before(s, start)
        } else if seg == ".."@ {
            None
        } else {
            Some(seg)
        }
    }
}

/// The entry's file name, empty when its path has none.
pub open spec fn entry_file_name(s: Seq<char>) -> Seq<char> {
    match file_name_before(s, s.len() as int) {
        Some(f) => f,
        None => Seq::empty(),
    }
}

fn is_single_dot(v: &[char], i: usize, e: usize) -> (r: bool)
    requires
        i <= e <= v@.len(),
    ensures
        r == (v@.subrange(i as int, e as int) == "."@),
{
    proof {
        reveal_strlit(".");
    }
    let r = e - i == 1 && v[i] == '.';
    proof {
        let sub = v@.subrange(i as int, e as int);
        assert("."@.len() == 1 && "."@[0] == '.');
        if r {
            assert(sub =~= "."@);
        } else if e - i == 1 {
            assert(sub[0] == v@[i as int]);
        }
    }
    r
}

/// The file name of an entry path (`Path::file_name`, or empty).
pub fn file_name_of(path: &str) -> (r: Vec<char>)
    ensures
        r@ == entry_file_name(path@),
{
    let v = chars_of(path);
    let mut end: usize = v.len();
    loop
        invariant
            v@ == path@,
            end <= v@.len(),
            file_name_before(v@, v@.len() as int) == file_name_before(v@, end as int),
        decreases end,
    {
        if end == 0 {
            return Vec::new();
        }
        if v[end - 1] == '/' {
            end = end - 1;
        } else {
            let mut start: usize = end - 1;
            while start > 0 && v[start - 1] != '/'
                invariant
                    start < end <= v@.len(),
                    segment_start(v@, end as int) == segment_start(v@, start as int),
                    forall|k: int| start <= k < end ==> v@[k] != '/',
                decreases start,
            {
                start = start - 1;
            }
            proof {
                lemma_segment_start(v@, end as int);
                if start > 0 {
                    assert(segment_start(v@, start as int) == start);
                }
            }
            if is_single_dot(v.as_slice(), start, end) {
                end = start;
            } else if is_dot_dot(v.as_slice(), start, end) {
                return Vec::new();
            } else {
                let mut out: Vec<char> = Vec::new();
                let mut k: usize = start;
                while k < end
                    invariant
                        start <= k <= end <= v@.len(),
                        out@ == v@.subrange(start as int, k as int),
                    decreases end - k,
                {
                    out.push(v[k]);
                    k = k + 1;
                    assert(out@ == v@.subrange(start as int, k as int));
                }
                return out;
            }
        }
    }
}

// ---------------------------------------------------------------------------
// Badge
// ---------------------------------------------------------------------------
/// Patterns that must not occur in a badge, compared after ASCII lower-casing.
pub open spec fn badge_needles() -> Seq<Seq<char>> {
    seq![
        "<script"@,
        "onload="@,
        "onerror="@,
        "onclick="@,
        "javascript:"@,
        "<foreignobject"@,
        "xlink:href=\"http"@,
        "href=\"http"@,
    ]
}

/// The first forbidden pattern, from index `i` on, that occurs in `lower`.
pub open spec fn first_needle_from(lower: Seq<char>, i: int) -> Option<Seq<char>>
    decreases badge_needles().len() - i,
{
    if i < 0 || i >= badge_needles().len() {
        None
    } else if contains(lower, badge_needles()[i]) {
        Some(badge_needles()[i])
    } else {
        first_needle_from(lower, i + 1)
    }
}

/// Why a badge is refused: too large, not UTF-8, a forbidden pattern, or no
/// `<svg` element.
pub open spec fn badge_failure(bytes: Seq<u8>) -> Option<Seq<char>> {
    if bytes.len() > MAX_BADGE_BYTES {
        Some("badge.svg exceeds 64 KiB"@)
    } else if !vstd::utf8::valid_utf8(bytes) {
        Some("badge.svg must be utf-8"@)
    } else {
        let lower = ascii_lower(vstd::utf8::decode_utf8(bytes));
        match first_needle_from(lower, 0) {
            Some(n) => Some("badge.svg contains forbidden pattern: "@ + n),
            None => if !contains(lower, "<svg"@) {
                Some("badge.svg must contain svg root"@)
            } else {
                None
            },
        }
    }
}

proof fn lemma_no_needle_from(lower: Seq<char>, i: int)
    requires
        0 <= i,
        first_needle_from(lower, i) is None,
    ensures
        forall|k: int| i <= k < badge_needles().len() ==> !contains(lower, #[trigger] badge_needles()[k]),
    decreases badge_needles().len() - i,
{
    if i < badge_needles().len() {
        lemma_no_needle_from(lower, i + 1);
    }
}

/// An accepted badge is at most 64 KiB of UTF-8 text that, ignoring ASCII
/// case, has an `<svg` root and no script, event handler, `javascript:` URL,
/// foreign object or outside link.
pub proof fn lemma_accepted_badge_is_inert(bytes: Seq<u8>)
    ensures
        badge_failure(bytes) is None ==> {
            let lower = ascii_lower(vstd::utf8::decode_utf8(bytes));
            &&& bytes.len() <= 65536
            &&& vstd::utf8::valid_utf8(bytes)
            &&& contains(lower, "<svg"@)
            &&& !contains(lower, "<script"@)
            &&& !contains(lower, "onload="@)
            &&& !contains(lower, "onerror="@)
            &&& !contains(lower, "onclick="@)
            &&& !contains(lower, "javascript:"@)
            &&& !contains(lower, "<foreignobject"@)
            &&& !contains(lower, "href=\"http"@)
        },
{
    if badge_failure(bytes) is None {
        let lower = ascii_lower(vstd::utf8::decode_utf8(bytes));
        lemma_no_needle_from(lower, 0);
        assert(!contains(lower, badge_needles()[0]));
        assert(!contains(lower, badge_needles()[1]));
        assert(!contains(lower, badge_needles()[2]));
        assert(!contains(lower, badge_needles()[3]));
        assert(!contains(lower, badge_needles()[4]));
        assert(!contains(lower, badge_needles()[5]));
        assert(!contains(lower, badge_needles()[7]));
    }
}

/// `std::str::from_utf8`: the text the bytes encode, when they are valid
/// UTF-8.
#[verifier::external_body]
fn utf8_text(bytes: &[u8]) -> (r: Option<&str>)
    ensures
        r is Some <==> vstd::utf8::valid_utf8(bytes@),
        r matches Some(t) ==> t@ == vstd::utf8::decode_utf8(bytes@),
{
    std::str::from_utf8(bytes).ok()
}

/// Screens a badge SVG before it is published.
pub fn validate_badge_svg(bytes: &[u8]) -> (r: Result<(), BotError>)
    ensures
        fails_as(r, badge_failure(bytes@)),
{
    if bytes.len() > MAX_BADGE_BYTES {
        return Err(bot_err(String::from_str("badge.svg exceeds 64 KiB")));
    }
    let text = match utf8_text(bytes) {
        Some(t) => t,
        None => return Err(bot_err(String::from_str("badge.svg must be utf-8"))),
    };
    let chars = chars_of(text);
    let lower = ascii_lower_chars(chars.as_slice());
    let needles: Vec<&str> = vec![
        "<script",
        "onload=",
        "onerror=",
        "onclick=",
        "javascript:",
        "<foreignobject",
        "xlink:href=\"http",
        "href=\"http",
    ];
    assert(needles@.len() == badge_needles().len());
    assert(forall|k: int| 0 <= k < needles@.len() ==> #[trigger] needles@[k]@ == badge_needles()[k]);
    let mut i: usize = 0;
    while i < needles.len()
        invariant
            i <= needles@.len(),
            needles@.len() == badge_needles().len(),
            forall|k: int| 0 <= k < needles@.len() ==> #[trigger] needles@[k]@ == badge_needles()[k],
            bytes@.len() <= MAX_BADGE_BYTES,
            vstd::utf8::valid_utf8(bytes@),
            lower@ == ascii_lower(vstd::utf8::decode_utf8(bytes@)),
            first_needle_from(lower@, 0) == first_needle_from(lower@, i as int),
        decreases needles.len() - i,
    {
        let needle = needles[i];
        let nv = chars_of(needle);
        if contains_chars(lower.as_slice(), nv.as_slice()) {
            return Err(bot_err(cat("badge.svg contains forbidden pattern: ", needle)));
        }
        i = i + 1;
    }
    let root = chars_of("<svg");
    if !contains_chars(lower.as_slice(), root.as_slice()) {
        return Err(bot_err(String::from_str("badge.svg must contain svg root")));
    }
    Ok(())
}

// ---------------------------------------------------------------------------
// Zip archives
// ---------------------------------------------------------------------------
/// What `zip::ZipArchive::new` followed by `len` gives for an archive: the
/// number of entries, or the open error's message.
pub uninterp spec fn zip_entry_count(archive: Seq<u8>) -> Result<usize, Seq<char>>;

/// What `ZipArchive::by_index` gives for entry `index`: its enclosed name
/// (`ZipFile::enclosed_name`) and declared uncompressed size, or the error's
/// message.
pub uninterp spec fn zip_entry_meta(archive: Seq<u8>, index: usize) -> Result<
    (Option<Seq<char>>, u64),
    Seq<char>,
>;

/// What reading at most `limit` bytes of entry `index` gives: the bytes, or
/// the error's message.
pub uninterp spec fn zip_entry_read(archive: Seq<u8>, index: usize, limit: u64) -> Result<
    Seq<u8>,
    Seq<char>,
>;

pub open spec fn meta_view(r: Result<(Option<String>, u64), String>) -> Result<
    (Option<Seq<char>>, u64),
    Seq<char>,
> {
    match r {
        Ok((name, size)) => Ok((opt_string_view(name), size)),
        Err(e) => Err(e@),
    }
}

pub open spec fn opt_string_view(o: Option<String>) -> Option<Seq<char>> {
    match o {
        Some(s) => Some(s@),
        None => None,
    }
}

pub open spec fn bytes_result_view(r: Result<Vec<u8>, String>) -> Result<Seq<u8>, Seq<char>> {
    match r {
        Ok(v) => Ok(v@),
        Err(e) => Err(e@),
    }
}

pub open spec fn count_view(r: Result<usize, String>) -> Result<usize, Seq<char>> {
    match r {
        Ok(n) => Ok(n),
        Err(e) => Err(e@),
    }
}

/// Opens the archive held in `bytes` with `zip::ZipArchive::new` and returns
/// `ZipArchive::len`, or the error's `Display` text. The result is named by
/// `zip_entry_count`; nothing more is stated of it.
#[verifier::external_body]
fn zip_open_len(bytes: &[u8]) -> (r: Result<usize, String>)
    ensures
        count_view(r) == zip_entry_count(bytes@),
{
    match zip::ZipArchive::new(std::io::Cursor::new(bytes)) {
        Ok(archive) => Ok(archive.len()),
        Err(err) => Err(err.to_string()),
    }
}

/// Opens the archive and reads entry `index` with `ZipArchive::by_index`,
/// returning `ZipFile::enclosed_name` (as text) and `ZipFile::size`, or the
/// error's `Display` text. The result is named by `zip_entry_meta`.
#[verifier::external_body]
fn zip_entry_info(bytes: &[u8], index: usize) -> (r: Result<(Option<String>, u64), String>)
    ensures
        meta_view(r) == zip_entry_meta(bytes@, index),
{
    let mut archive = match zip::ZipArchive::new(std::io::Cursor::new(bytes)) {
        Ok(archive) => archive,
        Err(err) => return Err(err.to_string()),
    };
    let entry = match archive.by_index(index) {
        Ok(entry) => entry,
        Err(err) => return Err(err.to_string()),
    };
    let name = match entry.enclosed_name() {
        Some(path) => Some(path.to_string_lossy().into_owned()),
        None => None,
    };
    Ok((name, entry.size()))
}

/// Opens the archive and reads the decompressed content of entry `index`
/// through `Read::take(limit)`, or returns the error's `Display` text. The
/// result is named by `zip_entry_read`; `take` yields at most `limit` bytes.
#[verifier::external_body]
fn zip_entry_bytes(bytes: &[u8], index: usize, limit: u64) -> (r: Result<Vec<u8>, String>)
    ensures
        bytes_result_view(r) == zip_entry_read(bytes@, index, limit),
        r matches Ok(v) ==> v@.len() <= limit,
{
    let mut archive = match zip::ZipArchive::new(std::io::Cursor::new(bytes)) {
        Ok(archive) => archive,
        Err(err) => return Err(err.to_string()),
    };
    let entry = match archive.by_index(index) {
        Ok(entry) => entry,
        Err(err) => return Err(err.to_string()),
    };
    let mut out = Vec::new();
    let read = std::io::Read::read_to_end(&mut std::io::Read::take(entry, limit), &mut out);
    match read {
        Ok(_) => Ok(out),
        Err(err) => Err(err.to_string()),
    }
}

/// The files kept from a benchmark artifact.
pub struct ExtractedArtifact {
    pub json_bytes: Vec<u8>,
    pub badge_bytes: Vec<u8>,
}

/// The file kept from an HNSW benchmark artifact.
pub struct ExtractedHnswArtifact {
    pub json_bytes: Vec<u8>,
}

pub open spec fn sat_add(a: u64, b: u64) -> u64 {
    if a + b > u64::MAX {
        u64::MAX
    } else {
        (a + b) as u64
    }
}

/// The common checks on entry `i`: it can be read, has an enclosed name and
/// no root or parent component. Gives its file name.
pub open spec fn entry_name_result(archive: Seq<u8>, i: int) -> Result<(Seq<char>, u64), Seq<char>> {
    match zip_entry_meta(archive, i as usize) {
        Err(e) => Err("zip entry read failed: "@ + e),
        Ok((None, _)) => Err("zip entry has unsafe path"@),
        Ok((Some(name), size)) => if unsafe_zip_path(name) {
            Err("zip entry path not allowed"@)
        } else {
            Ok((entry_file_name(name), size))
        },
    }
}

/// Scanning entries `i..n` of a benchmark artifact, having kept `json` and
/// `badge` so far and counted `total` declared bytes of kept entries.
pub open spec fn artifact_scan(
    archive: Seq<u8>,
    i: int,
    n: int,
    json: Option<Seq<u8>>,
    badge: Option<Seq<u8>>,
    total: u64,
) -> Result<(Seq<u8>, Seq<u8>), Seq<char>>
    decreases n - i,
{
    if i >= n {
        match json {
            None => Err("benchmark-data.json not in artifact"@),
            Some(j) => match badge {
                None => Err("badge.svg not in artifact"@),
                Some(b) => Ok((j, b)),
            },
        }
    } else {
        match entry_name_result(archive, i) {
            Err(m) => Err(m),
            Ok((f, size)) => if f != JSON_NAME@ && f != BADGE_NAME@ {
                artifact_scan(archive, i + 1, n, json, badge, total)
            } else if sat_add(total, size) > MAX_UNCOMPRESSED {
                Err("artifact zip uncompressed size exceeds 20971520 bytes"@)
            } else {
                match zip_entry_read(archive, i as usize, u64::MAX) {
                    Err(e) => Err("zip extract failed: "@ + e),
                    Ok(c) => if f == JSON_NAME@ {
                        artifact_scan(archive, i + 1, n, Some(c), badge, sat_add(total, size))
                    } else {
                        artifact_scan(archive, i + 1, n, json, Some(c), sat_add(total, size))
                    },
                }
            },
        }
    }
}

/// What extracting a benchmark artifact gives: the JSON and badge contents,
/// or the first error.
pub open spec fn artifact_result(archive: Seq<u8>) -> Result<(Seq<u8>, Seq<u8>), Seq<char>> {
    if archive.len() > MAX_ZIP_BYTES {
        Err("artifact zip exceeds 10485760 bytes"@)
    } else {
        match zip_entry_count(archive) {
            Err(e) => Err("zip open failed: "@ + e),
            Ok(n) => if n > MAX_ENTRIES {
                Err("artifact zip exceeds 32 entries"@)
            } else {
                artifact_scan(archive, 0, n as int, None, None, 0)
            },
        }
    }
}

/// Entry `k` of the archive is a safe file named `name`, and reading it gives
/// `content`.
pub open spec fn entry_gives(archive: Seq<u8>, k: int, name: Seq<char>, content: Seq<u8>) -> bool {
    &&& zip_entry_meta(archive, k as usize) matches Ok((Some(path), _)) && !unsafe_zip_path(path)
        && entry_file_name(path) == name
    &&& zip_entry_read(archive, k as usize, u64::MAX) == Ok::<Seq<u8>, Seq<char>>(content)
}

proof fn lemma_artifact_scan_ok(
    archive: Seq<u8>,
    i: int,
    n: int,
    json: Option<Seq<u8>>,
    badge: Option<Seq<u8>>,
    total: u64,
    j: Seq<u8>,
    b: Seq<u8>,
)
    requires
        0 <= i,
        artifact_scan(archive, i, n, json, badge, total) == Ok::<(Seq<u8>, Seq<u8>), Seq<char>>((j, b)),
    ensures
        forall|k: int|
            i <= k < n ==> (#[trigger] zip_entry_meta(archive, k as usize) matches Ok((Some(path), _))
                && !unsafe_zip_path(path)),
        json == Some(j) || exists|k: int| i <= k < n && #[trigger] entry_gives(archive, k, JSON_NAME@, j),
        badge == Some(b) || exists|k: int| i <= k < n && #[trigger] entry_gives(archive, k, BADGE_NAME@, b),
    decreases n - i,
{
    if i < n {
        match entry_name_result(archive, i) {
            Err(_) => {},
            Ok((f, size)) => {
                if f != JSON_NAME@ && f != BADGE_NAME@ {
                    lemma_artifact_scan_ok(archive, i + 1, n, json, badge, total, j, b);
                } else if sat_add(total, size) <= MAX_UNCOMPRESSED {
                    if let Ok(c) = zip_entry_read(archive, i as usize, u64::MAX) {
                        if f == JSON_NAME@ {
                            lemma_artifact_scan_ok(archive, i + 1, n, Some(c), badge, sat_add(total, size), j, b);
                            if Some(c) == Some(j) {
                                assert(entry_gives(archive, i, JSON_NAME@, j));
                            }
                        } else {
                            lemma_artifact_scan_ok(archive, i + 1, n, json, Some(c), sat_add(total, size), j, b);
                            if Some(c) == Some(b) {
                                assert(entry_gives(archive, i, BADGE_NAME@, b));
                            }
                        }
                    }
                }
            },
        }
    }
}

/// An extracted benchmark artifact is a zip of at most 10 MiB with at most
/// 32 entries, all at safe paths, and its JSON and badge are the contents of
/// its `benchmark-data.json` and `badge.svg` entries.
pub proof fn lemma_extracted_artifact_from_safe_entries(archive: Seq<u8>)
    ensures
        artifact_result(archive) matches Ok((j, b)) ==> {
            &&& archive.len() <= MAX_ZIP_BYTES
            &&& zip_entry_count(archive) matches Ok(n) && n <= MAX_ENTRIES && (forall|k: int|
                0 <= k < n ==> (#[trigger] zip_entry_meta(archive, k as usize) matches Ok((Some(path), _))
                    && !unsafe_zip_path(path))) && (exists|k: int| 0 <= k < n && #[trigger] entry_gives(
                archive,
                k,
                JSON_NAME@,
                j,
            )) && (exists|k: int| 0 <= k < n && #[trigger] entry_gives(archive, k, BADGE_NAME@, b))
        },
{
    if let Ok((j, b)) = artifact_result(archive) {
        let n = zip_entry_count(archive)->Ok_0;
        lemma_artifact_scan_ok(archive, 0, n as int, None, None, 0, j, b);
    }
}

pub open spec fn opt_bytes(o: Option<Vec<u8>>) -> Option<Seq<u8>> {
    match o {
        Some(v) => Some(v@),
        None => None,
    }
}

fn entry_name_checked(bytes: &[u8], i: usize) -> (r: Result<(Vec<char>, u64), BotError>)
    ensures
        match entry_name_result(bytes@, i as int) {
            Ok((f, size)) => r matches Ok((v, s)) && v@ == f && s == size,
            Err(m) => r matches Err(e) && e@ == m,
        },
{
    let (name, size) = match zip_entry_info(bytes, i) {
        Err(e) => return Err(bot_err(cat("zip entry read failed: ", e.as_str()))),
        Ok(m) => m,
    };
    let name = match name {
        None => return Err(bot_err(String::from_str("zip entry has unsafe path"))),
        Some(n) => n,
    };
    reject_unsafe_zip_path(name.as_str())?;
    Ok((file_name_of(name.as_str()), size))
}

/// Reads `benchmark-data.json` and `badge.svg` out of a workflow artifact
/// zip, within the size and entry limits.
pub fn extract_artifact_zip(bytes: &[u8]) -> (r: Result<ExtractedArtifact, BotError>)
    ensures
        match artifact_result(bytes@) {
            Ok((j, b)) => r matches Ok(a) && a.json_bytes@ == j && a.badge_bytes@ == b,
            Err(m) => r matches Err(e) && e@ == m,
        },
{
    if bytes.len() > MAX_ZIP_BYTES {
        return Err(bot_err(String::from_str("artifact zip exceeds 10485760 bytes")));
    }
    let n = match zip_open_len(bytes) {
        Err(e) => return Err(bot_err(cat("zip open failed: ", e.as_str()))),
        Ok(n) => n,
    };
    if n > MAX_ENTRIES {
        return Err(bot_err(String::from_str("artifact zip exceeds 32 entries")));
    }
    let json_name = chars_of(JSON_NAME);
    let badge_name = chars_of(BADGE_NAME);
    let mut json: Option<Vec<u8>> = None;
    let mut badge: Option<Vec<u8>> = None;
    let mut total: u64 = 0;
    let mut i: usize = 0;
    while i < n
        invariant
            i <= n,
            json_name@ == JSON_NAME@,
            badge_name@ == BADGE_NAME@,
            artifact_result(bytes@) == artifact_scan(bytes@, i as int, n as int, opt_bytes(json), opt_bytes(badge), total),
        decreases n - i,
    {
        let (file_name, size) = entry_name_checked(bytes, i)?;
        let is_json = crate::text::eq_chars(file_name.as_slice(), json_name.as_slice());
        let is_badge = crate::text::eq_chars(file_name.as_slice(), badge_name.as_slice());
        if is_json || is_badge {
            total = total.saturating_add(size);
            if total > MAX_UNCOMPRESSED {
                return Err(bot_err(String::from_str("artifact zip uncompressed size exceeds 20971520 bytes")));
            }
            let content = match zip_entry_bytes(bytes, i, u64::MAX) {
                Err(e) => return Err(bot_err(cat("zip extract failed: ", e.as_str()))),
                Ok(c) => c,
            };
            if is_json {
                json = Some(content);
            } else {
                badge = Some(content);
            }
        }
        i = i + 1;
    }
    let json_bytes = match json {
        None => return Err(bot_err(String::from_str("benchmark-data.json not in artifact"))),
        Some(j) => j,
    };
    let badge_bytes = match badge {
        None => return Err(bot_err(String::from_str("badge.svg not in artifact"))),
        Some(b) => b,
    };
    Ok(ExtractedArtifact { json_bytes, badge_bytes })
}

/// Scanning entries `i..n` of a single-JSON suite artifact for the file
/// `name`, having kept `json` so far and read `total` bytes of kept entries.
pub open spec fn suite_artifact_scan(
    archive: Seq<u8>,
    name: Seq<char>,
    i: int,
    n: int,
    json: Option<Seq<u8>>,
    total: u64,
) -> Result<Seq<u8>, Seq<char>>
    decreases n - i,
{
    if i >= n {
        match json {
            None => Err(name + " not in artifact"@),
            Some(j) => Ok(j),
        }
    } else {
        match entry_name_result(archive, i) {
            Err(m) => Err(m),
            Ok((f, _)) => if f != name {
                suite_artifact_scan(archive, name, i + 1, n, json, total)
            } else {
                match zip_entry_read(archive, i as usize, (MAX_UNCOMPRESSED - total + 1) as u64) {
                    Err(e) => Err("zip extract failed: "@ + e),
                    Ok(c) => if total + c.len() > MAX_UNCOMPRESSED {
                        Err("artifact zip uncompressed size exceeds 20971520 bytes"@)
                    } else {
                        suite_artifact_scan(archive, name, i + 1, n, Some(c), (total + c.len()) as u64)
                    },
                }
            },
        }
    }
}

/// What extracting the JSON file `name` from a suite artifact gives: its
/// content, or the first error.
pub open spec fn suite_artifact_result(archive: Seq<u8>, name: Seq<char>) -> Result<Seq<u8>, Seq<char>> {
    if archive.len() > MAX_ZIP_BYTES {
        Err("artifact zip exceeds 10485760 bytes"@)
    } else {
        match zip_entry_count(archive) {
            Err(e) => Err("zip open failed: "@ + e),
            Ok(n) => if n > MAX_ENTRIES {
                Err("artifact zip exceeds 32 entries"@)
            } else {
                suite_artifact_scan(archive, name, 0, n as int, None, 0)
            },
        }
    }
}

proof fn lemma_suite_scan_ok(
    archive: Seq<u8>,
    name: Seq<char>,
    i: int,
    n: int,
    json: Option<Seq<u8>>,
    total: u64,
    j: Seq<u8>,
)
    requires
        0 <= i,
        suite_artifact_scan(archive, name, i, n, json, total) == Ok::<Seq<u8>, Seq<char>>(j),
    ensures
        forall|k: int|
            i <= k < n ==> (#[trigger] zip_entry_meta(archive, k as usize) matches Ok((Some(path), _))
                && !unsafe_zip_path(path)),
        json == Some(j) || exists|k: int|
            i <= k < n && (#[trigger] zip_entry_meta(archive, k as usize) matches Ok((Some(path), _))
                && entry_file_name(path) == name) && zip_entry_read(
                archive,
                k as usize,
                (MAX_UNCOMPRESSED - total + 1) as u64,
            ) is Ok,
    decreases n - i,
{
    if i < n {
        match entry_name_result(archive, i) {
            Err(_) => {},
            Ok((f, _)) => {
                if f != name {
                    lemma_suite_scan_ok(archive, name, i + 1, n, json, total, j);
                } else if let Ok(c) = zip_entry_read(archive, i as usize, (MAX_UNCOMPRESSED - total + 1) as u64) {
                    if total + c.len() <= MAX_UNCOMPRESSED {
                        lemma_suite_scan_ok(archive, name, i + 1, n, Some(c), (total + c.len()) as u64, j);
                    }
                }
            },
        }
    }
}

/// An extracted suite artifact is a zip of at most 10 MiB with at most 32
/// entries, all at safe paths, one of which is the suite's JSON file.
pub proof fn lemma_extracted_suite_artifact_from_safe_entries(archive: Seq<u8>, name: Seq<char>)
    ensures
        suite_artifact_result(archive, name) is Ok ==> {
            &&& archive.len() <= MAX_ZIP_BYTES
            &&& zip_entry_count(archive) matches Ok(n) && n <= MAX_ENTRIES && (forall|k: int|
                0 <= k < n ==> (#[trigger] zip_entry_meta(archive, k as usize) matches Ok((Some(path), _))
                    && !unsafe_zip_path(path))) && (exists|k: int|
                0 <= k < n && (#[trigger] zip_entry_meta(archive, k as usize) matches Ok((Some(path), _))
                    && entry_file_name(path) == name))
        },
{
    if let Ok(j) = suite_artifact_result(archive, name) {
        let n = zip_entry_count(archive)->Ok_0;
        lemma_suite_scan_ok(archive, name, 0, n as int, None, 0, j);
    }
}

/// What extracting an HNSW artifact gives.
pub open spec fn hnsw_artifact_result(archive: Seq<u8>) -> Result<Seq<u8>, Seq<char>> {
    suite_artifact_result(archive, HNSW_JSON_NAME@)
}

/// Reads the JSON file `json_name` out of a suite's workflow artifact zip,
/// counting the bytes actually decompressed against the limit.
fn extract_suite_json_zip(bytes: &[u8], json_name: &str) -> (r: Result<Vec<u8>, BotError>)
    ensures
        match suite_artifact_result(bytes@, json_name@) {
            Ok(j) => r matches Ok(a) && a@ == j,
            Err(m) => r matches Err(e) && e@ == m,
        },
{
    if bytes.len() > MAX_ZIP_BYTES {
        return Err(bot_err(String::from_str("artifact zip exceeds 10485760 bytes")));
    }
    let n = match zip_open_len(bytes) {
        Err(e) => return Err(bot_err(cat("zip open failed: ", e.as_str()))),
        Ok(n) => n,
    };
    if n > MAX_ENTRIES {
        return Err(bot_err(String::from_str("artifact zip exceeds 32 entries")));
    }
    let name = chars_of(json_name);
    let mut json: Option<Vec<u8>> = None;
    let mut total: u64 = 0;
    let mut i: usize = 0;
    while i < n
        invariant
            i <= n,
            total <= MAX_UNCOMPRESSED,
            name@ == json_name@,
            suite_artifact_result(bytes@, json_name@) == suite_artifact_scan(
                bytes@,
                json_name@,
                i as int,
                n as int,
                opt_bytes(json),
                total,
            ),
        decreases n - i,
    {
        let (file_name, _size) = entry_name_checked(bytes, i)?;
        if crate::text::eq_chars(file_name.as_slice(), name.as_slice()) {
            let limit: u64 = MAX_UNCOMPRESSED - total + 1;
            let content = match zip_entry_bytes(bytes, i, limit) {
                Err(e) => return Err(bot_err(cat("zip extract failed: ", e.as_str()))),
                Ok(c) => c,
            };
            let read: u64 = content.len() as u64;
            if read > MAX_UNCOMPRESSED - total {
                return Err(bot_err(String::from_str("artifact zip uncompressed size exceeds 20971520 bytes")));
            }
            total = total + read;
            json = Some(content);
        }
        i = i + 1;
    }
    match json {
        None => Err(bot_err(cat(json_name, " not in artifact"))),
        Some(j) => Ok(j),
    }
}

/// Reads `hnsw-benchmark-data.json` out of a workflow artifact zip, counting
/// the bytes actually decompressed against the limit.
pub fn extract_hnsw_artifact_zip(bytes: &[u8]) -> (r: Result<ExtractedHnswArtifact, BotError>)
    ensures
        match hnsw_artifact_result(bytes@) {
            Ok(j) => r matches Ok(a) && a.json_bytes@ == j,
            Err(m) => r matches Err(e) && e@ == m,
        },
{
    let json_bytes = extract_suite_json_zip(bytes, HNSW_JSON_NAME)?;
    Ok(ExtractedHnswArtifact { json_bytes })
}

/// Reads `write-pipeline-benchmark-data.json` out of a workflow artifact
/// zip, under the same limits.
pub fn extract_write_pipeline_artifact_zip(bytes: &[u8]) -> (r: Result<Vec<u8>, BotError>)
    ensures
        match suite_artifact_result(bytes@, WRITE_PIPELINE_JSON_NAME@) {
            Ok(j) => r matches Ok(a) && a@ == j,
            Err(m) => r matches Err(e) && e@ == m,
        },
{
    extract_suite_json_zip(bytes, WRITE_PIPELINE_JSON_NAME)
}

} // verus!
