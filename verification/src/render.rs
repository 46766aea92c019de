//! The shared sticky PR comment: suite metadata lines, the verdict header,
//! the suite matrix and the marked sections that each suite owns.

use vstd::prelude::*;

use crate::markdown::{join, join_lines, markdown_table_raw, markdown_table_spec, views};
use crate::sanitize::{
    status_emoji, status_emoji_spec, COMMENT_MARKER, COMMENT_MARKER_HNSW, ENV_SECTION_END,
    ENV_SECTION_START, HNSW_SECTION_END, HNSW_SECTION_START, PROXY_SECTION_END,
    PROXY_SECTION_START, SUITE_META_PREFIX,
};
use crate::text::{
    ascii_upper, chars_of, ends_with, ends_with_chars, eq_str, find_chars, find_from,
    is_control, is_control_char, occurs_at, slice_chars, starts_with, starts_with_chars, string_of, to_uppercase,
    trim, trim_chars, unicode_uppercase,
};

verus! {

/// A suite's line in the comment: id, display name, primary figure, delta
/// against the baseline, and status.
pub type MetaView = (Seq<char>, Seq<char>, Seq<char>, Seq<char>, Seq<char>);

#[derive(Debug)]
pub struct SuiteMeta {
    pub id: String,
    pub name: String,
    pub primary: String,
    pub delta: String,
    pub status: String,
}

impl View for SuiteMeta {
    type V = MetaView;

    open spec fn view(&self) -> MetaView {
        (self.id@, self.name@, self.primary@, self.delta@, self.status@)
    }
}

pub open spec fn meta_views(v: Seq<SuiteMeta>) -> Seq<MetaView> {
    v.map_values(|m: SuiteMeta| m@)
}

impl SuiteMeta {
    pub fn duplicate(&self) -> (r: SuiteMeta)
        ensures
            r@ == self@,
    {
        SuiteMeta {
            id: self.id.clone(),
            name: self.name.clone(),
            primary: self.primary.clone(),
            delta: self.delta.clone(),
            status: self.status.clone(),
        }
    }
}

// ---------------------------------------------------------------------------
// Statuses and ordering
// ---------------------------------------------------------------------------
pub open spec fn normalized_status(raw: Seq<char>) -> Seq<char> {
    if raw == "pass"@ {
        "pass"@
    } else if raw == "fail"@ {
        "fail"@
    } else if raw == "warn"@ {
        "warn"@
    } else if raw == "regression"@ {
        "regression"@
    } else {
        "unknown"@
    }
}

/// Every status shown is one of the five the comment knows, and a known
/// status is shown as itself.
pub proof fn lemma_normalized_status_known(raw: Seq<char>)
    ensures
        ({
            let n = normalized_status(raw);
            n == "pass"@ || n == "fail"@ || n == "warn"@ || n == "regression"@ || n == "unknown"@
        }),
        (raw == "pass"@ || raw == "fail"@ || raw == "warn"@ || raw == "regression"@ || raw == "unknown"@)
            ==> normalized_status(raw) == raw,
{
}

/// Maps a raw status onto the five statuses the comment knows.
pub fn normalize_status(raw: &str) -> (r: &'static str)
    ensures
        r@ == normalized_status(raw@),
{
    if eq_str(raw, "pass") {
        "pass"
    } else if eq_str(raw, "fail") {
        "fail"
    } else if eq_str(raw, "warn") {
        "warn"
    } else if eq_str(raw, "regression") {
        "regression"
    } else {
        "unknown"
    }
}

/// Suites are listed proxy first, then HNSW, then the rest.
pub open spec fn suite_key(id: Seq<char>) -> u8 {
    if id == "proxy"@ {
        0
    } else if id == "hnsw"@ {
        1
    } else {
        9
    }
}

pub fn suite_sort_key(id: &str) -> (r: u8)
    ensures
        r == suite_key(id@),
{
    if eq_str(id, "proxy") {
        0
    } else if eq_str(id, "hnsw") {
        1
    } else {
        9
    }
}

/// `details` is opened for suites that need attention.
pub open spec fn details_open(status: Seq<char>) -> Seq<char> {
    if status == "fail"@ || status == "regression"@ || status == "warn"@ {
        " open"@
    } else {
        ""@
    }
}

pub fn details_open_attr(status: &str) -> (r: &'static str)
    ensures
        r@ == details_open(status@),
{
    if eq_str(status, "fail") || eq_str(status, "regression") || eq_str(status, "warn") {
        " open"
    } else {
        ""
    }
}

/// The metas with sort key `k`, in their order.
pub open spec fn with_key(metas: Seq<MetaView>, k: u8) -> Seq<MetaView> {
    metas.filter(|m: MetaView| suite_key(m.0) == k)
}

/// A stable sort by `suite_key`: proxy, then HNSW, then the others.
pub open spec fn sorted_by_key(metas: Seq<MetaView>) -> Seq<MetaView> {
    with_key(metas, 0) + with_key(metas, 1) + with_key(metas, 9)
}

/// Suite order lists the proxy suite first, then HNSW, then the others: the
/// keys never go down along the sorted list, every sorted meta is one of the
/// given metas, and every given meta is listed.
pub proof fn lemma_sorted_by_key_orders_suites(metas: Seq<MetaView>)
    ensures
        forall|a: int, b: int|
            0 <= a < b < sorted_by_key(metas).len() ==> suite_key(#[trigger] sorted_by_key(metas)[a].0)
                <= suite_key(#[trigger] sorted_by_key(metas)[b].0),
        forall|a: int| 0 <= a < sorted_by_key(metas).len() ==> metas.contains(#[trigger] sorted_by_key(metas)[a]),
        forall|i: int| 0 <= i < metas.len() ==> sorted_by_key(metas).contains(#[trigger] metas[i]),
{
    let p0 = |m: MetaView| suite_key(m.0) == 0;
    let p1 = |m: MetaView| suite_key(m.0) == 1;
    let p9 = |m: MetaView| suite_key(m.0) == 9;
    let s0 = with_key(metas, 0);
    let s1 = with_key(metas, 1);
    let s9 = with_key(metas, 9);
    let all = sorted_by_key(metas);
    assert(all == s0 + s1 + s9);
    assert forall|a: int| 0 <= a < all.len() implies metas.contains(#[trigger] all[a]) && (a < s0.len()
        ==> suite_key(all[a].0) == 0) && (s0.len() <= a < s0.len() + s1.len() ==> suite_key(all[a].0)
        == 1) && (s0.len() + s1.len() <= a ==> suite_key(all[a].0) == 9) by {
        if a < s0.len() {
            metas.lemma_filter_pred(p0, a);
            metas.lemma_filter_contains_rev(p0, all[a]);
            assert(s0.contains(all[a]));
        } else if a < s0.len() + s1.len() {
            metas.lemma_filter_pred(p1, a - s0.len());
            assert(s1.contains(all[a]));
            metas.lemma_filter_contains_rev(p1, all[a]);
        } else {
            metas.lemma_filter_pred(p9, a - s0.len() - s1.len());
            assert(s9.contains(all[a]));
            metas.lemma_filter_contains_rev(p9, all[a]);
        }
    }
    assert forall|i: int| 0 <= i < metas.len() implies all.contains(#[trigger] metas[i]) by {
        let m = metas[i];
        if suite_key(m.0) == 0 {
            metas.lemma_filter_contains(p0, i);
            let k = choose|k: int| 0 <= k < s0.len() && s0[k] == m;
            assert(all[k] == m);
        } else if suite_key(m.0) == 1 {
            metas.lemma_filter_contains(p1, i);
            let k = choose|k: int| 0 <= k < s1.len() && s1[k] == m;
            assert(all[s0.len() + k] == m);
        } else {
            metas.lemma_filter_contains(p9, i);
            let k = choose|k: int| 0 <= k < s9.len() && s9[k] == m;
            assert(all[s0.len() + s1.len() + k] == m);
        }
    }
}

fn metas_with_key(metas: &Vec<SuiteMeta>, k: u8, out: &mut Vec<SuiteMeta>)
    ensures
        meta_views(final(out)@) == meta_views(old(out)@) + with_key(meta_views(metas@), k),
{
    let ghost start = meta_views(out@);
    let mut i: usize = 0;
    while i < metas.len()
        invariant
            i <= metas@.len(),
            meta_views(out@) == start + with_key(meta_views(metas@.subrange(0, i as int)), k),
        decreases metas.len() - i,
    {
        let ghost prefix = meta_views(metas@.subrange(0, i as int));
        let ghost next = meta_views(metas@.subrange(0, i + 1));
        assert(next == prefix.push(metas@[i as int]@));
        proof {
            prefix.lemma_filter_push(metas@[i as int]@, |m: MetaView| suite_key(m.0) == k);
        }
        if suite_sort_key(metas[i].id.as_str()) == k {
            let ghost before = out@;
            out.push(metas[i].duplicate());
            assert(meta_views(out@) =~= meta_views(before).push(metas@[i as int]@));
            assert(meta_views(out@) =~= start + with_key(next, k));
        } else {
            assert(meta_views(out@) =~= start + with_key(next, k));
        }
        i = i + 1;
    }
    assert(metas@.subrange(0, metas@.len() as int) =~= metas@);
}

/// The metas in suite order (a stable sort by `suite_sort_key`).
pub fn sort_metas(metas: &Vec<SuiteMeta>) -> (r: Vec<SuiteMeta>)
    ensures
        meta_views(r@) == sorted_by_key(meta_views(metas@)),
{
    let mut out: Vec<SuiteMeta> = Vec::new();
    metas_with_key(metas, 0, &mut out);
    metas_with_key(metas, 1, &mut out);
    metas_with_key(metas, 9, &mut out);
    assert(meta_views(Seq::<SuiteMeta>::empty()) =~= Seq::<MetaView>::empty());
    assert(meta_views(out@) =~= sorted_by_key(meta_views(metas@)));
    out
}

// ---------------------------------------------------------------------------
// Encoding and parsing suite metadata
// ---------------------------------------------------------------------------
/// Control characters dropped and `|` turned into `/`.
pub open spec fn scrub_chars(s: Seq<char>) -> Seq<char>
    decreases s.len(),
{
    if s.len() == 0 {
        s
    } else {
        let rest = scrub_chars(s.drop_last());
        let c = s.last();
        if is_control_char(c) {
            rest
        } else if c == '|' {
            rest.push('/')
        } else {
            rest.push(c)
        }
    }
}

/// A field as it is written into a meta line.
pub open spec fn scrub(s: Seq<char>) -> Seq<char> {
    trim(scrub_chars(s))
}

pub fn scrub_meta(value: &str) -> (r: String)
    ensures
        r@ == scrub(value@),
{
    let v = chars_of(value);
    let mut out: Vec<char> = Vec::new();
    let mut k: usize = 0;
    while k < v.len()
        invariant
            k <= v@.len(),
            out@ == scrub_chars(v@.subrange(0, k as int)),
        decreases v.len() - k,
    {
        let c = v[k];
        assert(v@.subrange(0, k + 1).drop_last() == v@.subrange(0, k as int));
        if !is_control(c) {
            if c == '|' {
                out.push('/');
            } else {
                out.push(c);
            }
        }
        k = k + 1;
    }
    assert(v@.subrange(0, v@.len() as int) == v@);
    string_of(trim_chars(out.as_slice()).as_slice())
}

pub open spec fn meta_suffix() -> Seq<char> {
    " -->"@
}

/// The hidden line that carries a suite's metadata.
pub open spec fn encoded_meta(m: MetaView) -> Seq<char> {
    SUITE_META_PREFIX@ + scrub(m.0) + "|"@ + scrub(m.1) + "|"@ + scrub(m.2) + "|"@ + scrub(m.3)
        + "|"@ + scrub(m.4) + meta_suffix()
}

pub fn encode_suite_meta(meta: &SuiteMeta) -> (r: String)
    ensures
        r@ == encoded_meta(meta@),
{
    let mut out = String::from_str(SUITE_META_PREFIX);
    out.append(scrub_meta(meta.id.as_str()).as_str());
    out.append("|");
    out.append(scrub_meta(meta.name.as_str()).as_str());
    out.append("|");
    out.append(scrub_meta(meta.primary.as_str()).as_str());
    out.append("|");
    out.append(scrub_meta(meta.delta.as_str()).as_str());
    out.append("|");
    out.append(scrub_meta(meta.status.as_str()).as_str());
    out.append(" -->");
    out
}

/// Index of the first `\n` at or after `i`, or the length.
pub open spec fn line_end(s: Seq<char>, i: int) -> int
    decreases s.len() - i,
{
    if i < 0 || i >= s.len() {
        s.len() as int
    } else if s[i] == '\n' {
        i
    } else {
        line_end(s, i + 1)
    }
}

pub proof fn lemma_line_end(s: Seq<char>, i: int)
    requires
        0 <= i <= s.len(),
    ensures
        i <= line_end(s, i) <= s.len(),
        line_end(s, i) < s.len() ==> s[line_end(s, i)] == '\n',
    decreases s.len() - i,
{
    if i < s.len() && s[i] != '\n' {
        lemma_line_end(s, i + 1);
    }
}

/// `str::lines` from index `i`: pieces between `\n`, a `\r` before a `\n`
/// dropped, no empty piece after a final `\n`.
pub open spec fn lines_from(s: Seq<char>, i: int) -> Seq<Seq<char>>
    decreases s.len() + 1 - i,
{
    if i < 0 || i >= s.len() {
        Seq::empty()
    } else {
        let e = line_end(s, i);
        proof {
            lemma_line_end(s, i);
        }
        let raw = s.subrange(i, e);
        let line = if e < s.len() && raw.len() > 0 && raw.last() == '\r' {
            raw.drop_last()
        } else {
            raw
        };
        seq![line] + lines_from(s, e + 1)
    }
}

/// `splitn(n, '|')`.
pub open spec fn splitn_bar(s: Seq<char>, n: nat) -> Seq<Seq<char>>
    decreases n,
{
    if n <= 1 {
        seq![s]
    } else {
        match find_from(s, seq!['|'], 0) {
            None => seq![s],
            Some(k) => seq![s.subrange(0, k)] + splitn_bar(s.subrange(k + 1, s.len() as int), (n - 1) as nat),
        }
    }
}

/// The meta a comment line carries, if it is a well-formed meta line.
pub open spec fn parse_meta_line(line: Seq<char>) -> Option<MetaView> {
    let t = trim(line);
    let p = SUITE_META_PREFIX@;
    if !starts_with(t, p) {
        None
    } else {
        let rest = t.subrange(p.len() as int, t.len() as int);
        if !ends_with(rest, meta_suffix()) {
            None
        } else {
            let body = rest.subrange(0, rest.len() - meta_suffix().len());
            let parts = splitn_bar(body, 5);
            if parts.len() != 5 {
                None
            } else {
                Some((parts[0], parts[1], parts[2], parts[3], normalized_status(parts[4])))
            }
        }
    }
}

/// The metas of the given lines, in order.
pub open spec fn metas_of_lines(lines: Seq<Seq<char>>) -> Seq<MetaView>
    decreases lines.len(),
{
    if lines.len() == 0 {
        Seq::empty()
    } else {
        let before = metas_of_lines(lines.drop_last());
        match parse_meta_line(lines.last()) {
            Some(m) => before.push(m),
            None => before,
        }
    }
}

/// Consecutive metas with the same id reduced to the first of them.
pub open spec fn dedup_ids(ms: Seq<MetaView>) -> Seq<MetaView>
    decreases ms.len(),
{
    if ms.len() <= 1 {
        ms
    } else {
        let d = dedup_ids(ms.drop_last());
        if ms.last().0 == ms[ms.len() - 2].0 {
            d
        } else {
            d.push(ms.last())
        }
    }
}

/// The suite metas found in a comment body: in suite order, one per run of
/// equal ids.
pub open spec fn suite_metas(body: Seq<char>) -> Seq<MetaView> {
    dedup_ids(sorted_by_key(metas_of_lines(lines_from(body, 0))))
}

pub open spec fn char_views(v: Seq<Vec<char>>) -> Seq<Seq<char>> {
    v.map_values(|p: Vec<char>| p@)
}

fn split_bar5(body: &[char]) -> (r: Vec<Vec<char>>)
    ensures
        char_views(r@) == splitn_bar(body@, 5),
{
    let bar: Vec<char> = vec!['|'];
    let mut parts: Vec<Vec<char>> = Vec::new();
    let mut rest: Vec<char> = slice_chars(body, 0, body.len());
    let mut n: usize = 5;
    assert(bar@ =~= seq!['|']);
    assert(rest@ =~= body@);
    assert(char_views(parts@) =~= Seq::<Seq<char>>::empty());
    assert(char_views(parts@) + splitn_bar(rest@, 5) =~= splitn_bar(body@, 5));
    while n > 1
        invariant
            1 <= n <= 5,
            bar@ == seq!['|'],
            char_views(parts@) + splitn_bar(rest@, n as nat) == splitn_bar(body@, 5),
        decreases n,
    {
        match find_chars(rest.as_slice(), bar.as_slice(), 0) {
            None => {
                assert(splitn_bar(rest@, n as nat) == splitn_bar(rest@, 1));
                n = 1;
            },
            Some(k) => {
                proof {
                    crate::text::lemma_find_from_sound(rest@, bar@, 0);
                    assert(find_from(rest@, bar@, 0) == Some(k as int));
                    assert(k + 1 <= rest@.len());
                }
                let rlen: usize = rest.len();
                let head = slice_chars(rest.as_slice(), 0, k);
                let tail = slice_chars(rest.as_slice(), k + 1, rlen);
                let ghost old_parts = parts@;
                parts.push(head);
                assert(char_views(parts@) =~= char_views(old_parts).push(head@));
                assert(char_views(parts@) + splitn_bar(tail@, (n - 1) as nat) =~= char_views(old_parts) + splitn_bar(rest@, n as nat));
                rest = tail;
                n = n - 1;
            },
        }
    }
    let ghost old_parts = parts@;
    parts.push(rest);
    assert(char_views(parts@) =~= char_views(old_parts).push(rest@));
    parts
}

fn meta_of_line(line: &[char]) -> (r: Option<SuiteMeta>)
    ensures
        match parse_meta_line(line@) {
            Some(m) => r matches Some(x) && x@ == m,
            None => r is None,
        },
{
    let t = trim_chars(line);
    let prefix = chars_of(SUITE_META_PREFIX);
    if !starts_with_chars(t.as_slice(), prefix.as_slice()) {
        return None;
    }
    let tlen: usize = t.len();
    let rest = slice_chars(t.as_slice(), prefix.len(), tlen);
    let suffix = chars_of(" -->");
    if !ends_with_chars(rest.as_slice(), suffix.as_slice()) {
        return None;
    }
    let body = slice_chars(rest.as_slice(), 0, rest.len() - suffix.len());
    let parts = split_bar5(body.as_slice());
    if parts.len() != 5 {
        return None;
    }
    proof {
        assert(char_views(parts@)[4] == parts@[4]@);
    }
    let status = normalize_status(string_of(parts[4].as_slice()).as_str());
    Some(SuiteMeta {
        id: string_of(parts[0].as_slice()),
        name: string_of(parts[1].as_slice()),
        primary: string_of(parts[2].as_slice()),
        delta: string_of(parts[3].as_slice()),
        status: String::from_str(status),
    })
}

fn dedup_metas(sorted: &Vec<SuiteMeta>) -> (r: Vec<SuiteMeta>)
    ensures
        meta_views(r@) == dedup_ids(meta_views(sorted@)),
{
    let mut out: Vec<SuiteMeta> = Vec::new();
    let mut i: usize = 0;
    while i < sorted.len()
        invariant
            i <= sorted@.len(),
            meta_views(out@) == dedup_ids(meta_views(sorted@.subrange(0, i as int))),
        decreases sorted.len() - i,
    {
        let ghost prefix = meta_views(sorted@.subrange(0, i as int));
        let ghost next = meta_views(sorted@.subrange(0, i + 1));
        assert(next.drop_last() =~= prefix);
        assert(next.last() == sorted@[i as int]@);
        if i > 0 {
            assert(next[next.len() - 2] == sorted@[i - 1]@);
        }
        let keep = i == 0 || !eq_str(sorted[i].id.as_str(), sorted[i - 1].id.as_str());
        if keep {
            let ghost before = out@;
            out.push(sorted[i].duplicate());
            assert(meta_views(out@) =~= meta_views(before).push(sorted@[i as int]@));
            if i == 0 {
                assert(prefix.len() == 0);
                assert(dedup_ids(prefix) =~= Seq::<MetaView>::empty());
                assert(next.len() == 1);
            }
        }
        i = i + 1;
    }
    assert(sorted@.subrange(0, sorted@.len() as int) =~= sorted@);
    out
}

/// Reads the suite metas out of a comment body.
pub fn parse_suite_metas(body: &str) -> (r: Vec<SuiteMeta>)
    ensures
        meta_views(r@) == suite_metas(body@),
{
    let s = chars_of(body);
    let nl: Vec<char> = vec!['\n'];
    let n: usize = s.len();
    let mut found: Vec<SuiteMeta> = Vec::new();
    let ghost mut done: Seq<Seq<char>> = Seq::empty();
    let mut i: usize = 0;
    assert(nl@ =~= seq!['\n']);
    while i < n
        invariant
            n == s@.len(),
            s@ == body@,
            i <= n,
            nl@ == seq!['\n'],
            lines_from(s@, 0) == done + lines_from(s@, i as int),
            meta_views(found@) == metas_of_lines(done),
        decreases n - i,
    {
        let e: usize = match find_chars(s.as_slice(), nl.as_slice(), i) {
            Some(k) => k,
            None => n,
        };
        proof {
            lemma_line_end(s@, i as int);
            crate::text::lemma_find_from_sound(s@, nl@, i as int);
            assert forall|k: int| i <= k < e implies s@[k] != '\n' by {
                assert(!crate::text::occurs_at(s@, nl@, k));
                if s@[k] == '\n' {
                    assert(s@.subrange(k, k + 1) =~= nl@);
                }
            }
            if e < n {
                assert(crate::text::occurs_at(s@, nl@, e as int));
                assert(s@.subrange(e as int, e + 1)[0] == s@[e as int]);
            }
            lemma_line_end_first(s@, i as int, e as int);
        }
        let raw = slice_chars(s.as_slice(), i, e);
        let line = if e < n && raw.len() > 0 && raw[raw.len() - 1] == '\r' {
            slice_chars(raw.as_slice(), 0, raw.len() - 1)
        } else {
            raw
        };
        proof {
            assert(lines_from(s@, i as int) == seq![line@] + lines_from(s@, e + 1));
            assert(done + lines_from(s@, i as int) =~= done.push(line@) + lines_from(s@, e + 1));
            assert(done.push(line@).drop_last() =~= done);
        }
        match meta_of_line(line.as_slice()) {
            Some(m) => {
                let ghost before = found@;
                found.push(m);
                assert(meta_views(found@) =~= meta_views(before).push(m@));
            },
            None => {},
        }
        proof {
            done = done.push(line@);
        }
        if e >= n {
            i = n;
        } else {
            i = e + 1;
        }
    }
    assert(done =~= lines_from(s@, 0));
    let sorted = sort_metas(&found);
    dedup_metas(&sorted)
}

/// The first `\n` at or after `i` is at `e` exactly when `e` is `line_end`.
pub proof fn lemma_line_end_first(s: Seq<char>, i: int, e: int)
    requires
        0 <= i <= e <= s.len(),
        forall|k: int| i <= k < e ==> s[k] != '\n',
        e < s.len() ==> s[e] == '\n',
    ensures
        e == line_end(s, i),
    decreases e - i,
{
    if i < e {
        lemma_line_end_first(s, i + 1, e);
    }
}

// ---------------------------------------------------------------------------
// Header: verdict and suite matrix
// ---------------------------------------------------------------------------
pub const DOCS_BASE: &'static str = "https://docs.ibexharness.com/benchmarks";

pub open spec fn some_status(metas: Seq<MetaView>, status: Seq<char>) -> bool {
    exists|i: int| 0 <= i < metas.len() && #[trigger] metas[i].4 == status
}

pub open spec fn all_pass(metas: Seq<MetaView>) -> bool {
    forall|i: int| 0 <= i < metas.len() ==> #[trigger] metas[i].4 == "pass"@
}

/// The first meta with the given id.
pub open spec fn first_with_id(metas: Seq<MetaView>, id: Seq<char>) -> Option<MetaView>
    decreases metas.len(),
{
    if metas.len() == 0 {
        None
    } else if metas[0].0 == id {
        Some(metas[0])
    } else {
        first_with_id(metas.drop_first(), id)
    }
}

/// The comment's title and one-line summary.
pub open spec fn verdict(metas: Seq<MetaView>) -> (Seq<char>, Seq<char>) {
    if metas.len() == 0 {
        ("IBEX benchmarks"@, "Waiting for suite results."@)
    } else if some_status(metas, "fail"@) {
        (
            "❌ Benchmarks failed"@,
            "At least one suite failed its SLA gates. Expand the failing deep dive before merging."@,
        )
    } else if some_status(metas, "regression"@) {
        (
            "⚠️ Benchmarks regressed"@,
            "A suite crossed the regression threshold. Review the delta before merging."@,
        )
    } else if some_status(metas, "warn"@) {
        (
            "⚠️ Benchmarks warning"@,
            "At least one suite reported a warning. Expand the deep dive before merging."@,
        )
    } else if all_pass(metas) {
        let tldr = match first_with_id(metas, "proxy"@) {
            Some(m) => if m.3 != "—"@ && m.3 != "n/a"@ {
                "All collected suites passed. Proxy P99 vs baseline: "@ + m.3 + "."@
            } else {
                "All collected suites passed."@
            },
            None => "All collected suites passed."@,
        };
        ("✅ All benchmarks passed"@, tldr)
    } else {
        ("IBEX benchmarks"@, "Suite results updated; status is incomplete or unknown."@)
    }
}

/// The verdict title names the worst status among the suites: any failing
/// suite makes it "failed", whatever the others say; otherwise any regressed
/// suite makes it "regressed"; otherwise any warning makes it "warning"; a
/// comment whose suites all passed says so; no suites, no verdict yet.
pub proof fn lemma_verdict_names_worst_status(metas: Seq<MetaView>)
    ensures
        (exists|i: int| 0 <= i < metas.len() && #[trigger] metas[i].4 == "fail"@) ==> verdict(metas).0
            == "❌ Benchmarks failed"@,
        (forall|i: int| 0 <= i < metas.len() ==> #[trigger] metas[i].4 != "fail"@) && (exists|i: int|
            0 <= i < metas.len() && #[trigger] metas[i].4 == "regression"@) ==> verdict(metas).0
            == "⚠️ Benchmarks regressed"@,
        (forall|i: int| 0 <= i < metas.len() ==> #[trigger] metas[i].4 != "fail"@ && metas[i].4
            != "regression"@) && (exists|i: int| 0 <= i < metas.len() && #[trigger] metas[i].4
            == "warn"@) ==> verdict(metas).0 == "⚠️ Benchmarks warning"@,
        metas.len() > 0 && (forall|i: int| 0 <= i < metas.len() ==> #[trigger] metas[i].4 == "pass"@)
            ==> verdict(metas).0 == "✅ All benchmarks passed"@,
        metas.len() == 0 ==> verdict(metas).0 == "IBEX benchmarks"@,
{
    reveal_strlit("fail");
    reveal_strlit("regression");
    reveal_strlit("warn");
    reveal_strlit("pass");
    if metas.len() > 0 && (forall|i: int| 0 <= i < metas.len() ==> #[trigger] metas[i].4 == "pass"@) {
        assert("pass"@[0] != "fail"@[0] && "pass"@[0] != "regression"@[0] && "pass"@[0] != "warn"@[0]);
        assert(!some_status(metas, "fail"@));
        assert(!some_status(metas, "regression"@));
        assert(!some_status(metas, "warn"@));
    }
}

fn has_status(metas: &Vec<SuiteMeta>, status: &str) -> (r: bool)
    ensures
        r == some_status(meta_views(metas@), status@),
{
    let mut i: usize = 0;
    while i < metas.len()
        invariant
            i <= metas@.len(),
            forall|k: int| 0 <= k < i ==> metas@[k]@.4 != status@,
        decreases metas.len() - i,
    {
        if eq_str(metas[i].status.as_str(), status) {
            assert(meta_views(metas@)[i as int].4 == status@);
            return true;
        }
        i = i + 1;
    }
    assert forall|k: int| 0 <= k < meta_views(metas@).len() implies #[trigger] meta_views(
        metas@,
    )[k].4 != status@ by {
        assert(meta_views(metas@)[k] == metas@[k]@);
    }
    false
}

fn every_pass(metas: &Vec<SuiteMeta>) -> (r: bool)
    ensures
        r == all_pass(meta_views(metas@)),
{
    let mut i: usize = 0;
    while i < metas.len()
        invariant
            i <= metas@.len(),
            forall|k: int| 0 <= k < i ==> metas@[k]@.4 == "pass"@,
        decreases metas.len() - i,
    {
        if !eq_str(metas[i].status.as_str(), "pass") {
            assert(meta_views(metas@)[i as int].4 != "pass"@);
            return false;
        }
        i = i + 1;
    }
    assert forall|k: int| 0 <= k < meta_views(metas@).len() implies #[trigger] meta_views(
        metas@,
    )[k].4 == "pass"@ by {
        assert(meta_views(metas@)[k] == metas@[k]@);
    }
    true
}

fn find_meta(metas: &Vec<SuiteMeta>, id: &str) -> (r: Option<usize>)
    ensures
        match first_with_id(meta_views(metas@), id@) {
            Some(m) => r matches Some(i) && i < metas@.len() && metas@[i as int]@ == m,
            None => r is None,
        },
{
    let mut i: usize = 0;
    assert(meta_views(metas@).subrange(0, metas@.len() as int) =~= meta_views(metas@));
    while i < metas.len()
        invariant
            i <= metas@.len(),
            first_with_id(meta_views(metas@), id@) == first_with_id(
                meta_views(metas@).subrange(i as int, metas@.len() as int),
                id@,
            ),
        decreases metas.len() - i,
    {
        let ghost rest = meta_views(metas@).subrange(i as int, metas@.len() as int);
        assert(rest[0] == metas@[i as int]@);
        if eq_str(metas[i].id.as_str(), id) {
            return Some(i);
        }
        assert(rest.drop_first() =~= meta_views(metas@).subrange(i + 1, metas@.len() as int));
        i = i + 1;
    }
    None
}

/// Chooses the comment title and summary from the suite statuses.
pub fn global_verdict(metas: &Vec<SuiteMeta>) -> (r: (String, String))
    ensures
        (r.0@, r.1@) == verdict(meta_views(metas@)),
        (exists|i: int| 0 <= i < metas@.len() && #[trigger] metas@[i].status@ == "fail"@) ==> r.0@
            == "❌ Benchmarks failed"@,
{
    proof {
        lemma_verdict_names_worst_status(meta_views(metas@));
        if exists|i: int| 0 <= i < metas@.len() && #[trigger] metas@[i].status@ == "fail"@ {
            let i = choose|i: int| 0 <= i < metas@.len() && #[trigger] metas@[i].status@ == "fail"@;
            assert(meta_views(metas@)[i].4 == "fail"@);
        }
    }
    if metas.len() == 0 {
        return (String::from_str("IBEX benchmarks"), String::from_str("Waiting for suite results."));
    }
    if has_status(metas, "fail") {
        return (
            String::from_str("❌ Benchmarks failed"),
            String::from_str(
                "At least one suite failed its SLA gates. Expand the failing deep dive before merging.",
            ),
        );
    }
    if has_status(metas, "regression") {
        return (
            String::from_str("⚠️ Benchmarks regressed"),
            String::from_str(
                "A suite crossed the regression threshold. Review the delta before merging.",
            ),
        );
    }
    if has_status(metas, "warn") {
        return (
            String::from_str("⚠️ Benchmarks warning"),
            String::from_str(
                "At least one suite reported a warning. Expand the deep dive before merging.",
            ),
        );
    }
    if every_pass(metas) {
        let tldr = match find_meta(metas, "proxy") {
            Some(i) => {
                let delta = metas[i].delta.as_str();
                if !eq_str(delta, "—") && !eq_str(delta, "n/a") {
                    let mut t = String::from_str("All collected suites passed. Proxy P99 vs baseline: ");
                    t.append(delta);
                    t.append(".");
                    t
                } else {
                    String::from_str("All collected suites passed.")
                }
            },
            None => String::from_str("All collected suites passed."),
        };
        return (String::from_str("✅ All benchmarks passed"), tldr);
    }
    (
        String::from_str("IBEX benchmarks"),
        String::from_str("Suite results updated; status is incomplete or unknown."),
    )
}

/// The matrix row of a suite.
pub open spec fn matrix_row(m: MetaView) -> Seq<Seq<char>> {
    seq![
        "**"@ + m.1 + "**"@,
        m.2,
        m.3,
        status_emoji_spec(m.4) + " "@ + unicode_uppercase(m.4),
    ]
}

pub open spec fn matrix_headers() -> Seq<Seq<char>> {
    seq!["Suite"@, "Primary SLA"@, "vs Baseline"@, "Status"@]
}

/// The suite matrix: one row per suite, in suite order.
pub open spec fn suite_matrix(metas: Seq<MetaView>) -> Seq<char> {
    markdown_table_spec(
        matrix_headers(),
        sorted_by_key(metas).map_values(|m: MetaView| matrix_row(m)),
        false,
    )
}

pub fn render_suite_matrix(metas: &Vec<SuiteMeta>) -> (r: String)
    ensures
        r@ == suite_matrix(meta_views(metas@)),
{
    let ordered = sort_metas(metas);
    let mut rows: Vec<Vec<String>> = Vec::new();
    let mut i: usize = 0;
    while i < ordered.len()
        invariant
            i <= ordered@.len(),
            rows@.len() == i,
            forall|k: int| 0 <= k < i ==> views(#[trigger] rows@[k]@) == matrix_row(ordered@[k]@),
        decreases ordered.len() - i,
    {
        let m = &ordered[i];
        let mut name = String::from_str("**");
        name.append(m.name.as_str());
        name.append("**");
        let mut status = String::from_str(status_emoji(m.status.as_str()));
        status.append(" ");
        status.append(to_uppercase(m.status.as_str()).as_str());
        let row: Vec<String> = vec![name, m.primary.clone(), m.delta.clone(), status];
        assert(views(row@) =~= matrix_row(ordered@[i as int]@));
        rows.push(row);
        i = i + 1;
    }
    let headers: Vec<&str> = vec!["Suite", "Primary SLA", "vs Baseline", "Status"];
    assert(crate::markdown::str_views(headers@) =~= matrix_headers());
    assert(crate::markdown::rows_view(rows@) =~= sorted_by_key(meta_views(metas@)).map_values(
        |m: MetaView| matrix_row(m),
    )) by {
        assert forall|k: int| 0 <= k < rows@.len() implies #[trigger] crate::markdown::rows_view(
            rows@,
        )[k] == sorted_by_key(meta_views(metas@)).map_values(|m: MetaView| matrix_row(m))[k] by {
            assert(meta_views(ordered@)[k] == ordered@[k]@);
        }
    }
    markdown_table_raw(&headers, &rows)
}

pub open spec fn dashboard_link() -> Seq<char> {
    "<p align=\"right\"><a href=\"https://docs.ibexharness.com/benchmarks\">View IBEX dashboard →</a></p>"@
}

/// The header of the comment: dashboard link, verdict, and the suite matrix
/// when there are suites.
pub open spec fn comment_header(metas: Seq<MetaView>) -> Seq<char> {
    let v = verdict(metas);
    let top = seq![dashboard_link(), ""@, "### "@ + v.0, "**TL;DR:** "@ + v.1];
    if metas.len() == 0 {
        join(top, "\n"@)
    } else {
        join(top + seq![""@, "#### Suite matrix"@, ""@, suite_matrix(metas)], "\n"@)
    }
}

pub fn render_comment_header(metas: &Vec<SuiteMeta>) -> (r: String)
    ensures
        r@ == comment_header(meta_views(metas@)),
{
    let (title, tldr) = global_verdict(metas);
    let mut heading = String::from_str("### ");
    heading.append(title.as_str());
    let mut summary = String::from_str("**TL;DR:** ");
    summary.append(tldr.as_str());
    let mut lines: Vec<String> = vec![
        String::from_str(
            "<p align=\"right\"><a href=\"https://docs.ibexharness.com/benchmarks\">View IBEX dashboard →</a></p>",
        ),
        String::new(),
        heading,
        summary,
    ];
    if metas.len() > 0 {
        lines.push(String::new());
        lines.push(String::from_str("#### Suite matrix"));
        lines.push(String::new());
        lines.push(render_suite_matrix(metas));
    }
    proof {
        reveal_strlit("");
        let v = verdict(meta_views(metas@));
        let top = seq![dashboard_link(), ""@, "### "@ + v.0, "**TL;DR:** "@ + v.1];
        assert(lines@[0]@ == dashboard_link());
        assert(lines@[1]@ == ""@);
        assert(lines@[2]@ == "### "@ + v.0);
        assert(lines@[3]@ == "**TL;DR:** "@ + v.1);
        if metas@.len() == 0 {
            assert(views(lines@) =~= top);
        } else {
            assert(views(lines@) =~= top + seq![
                ""@,
                "#### Suite matrix"@,
                ""@,
                suite_matrix(meta_views(metas@)),
            ]);
        }
    }
    join_lines(&lines)
}

// ---------------------------------------------------------------------------
// Marked sections and the comment shell
// ---------------------------------------------------------------------------
/// `str::replace`: every non-overlapping match of `pat`, scanning from the
/// left from index `i`, replaced by `rep`.
pub open spec fn replace_from(s: Seq<char>, pat: Seq<char>, rep: Seq<char>, i: int) -> Seq<char>
    decreases s.len() + 1 - i,
    when pat.len() > 0
{
    if i < 0 || i > s.len() {
        Seq::empty()
    } else {
        match find_from(s, pat, i) {
            None => s.subrange(i, s.len() as int),
            Some(k) => {
                proof {
                    crate::text::lemma_find_from_sound(s, pat, i);
                }
                s.subrange(i, k) + rep + replace_from(s, pat, rep, k + pat.len())
            },
        }
    }
}

pub open spec fn replace_all(s: Seq<char>, pat: Seq<char>, rep: Seq<char>) -> Seq<char> {
    replace_from(s, pat, rep, 0)
}

/// Replaces every occurrence of a non-empty pattern.
pub fn replace_chars(s: &[char], pat: &[char], rep: &[char]) -> (r: Vec<char>)
    requires
        pat@.len() > 0,
    ensures
        r@ == replace_all(s@, pat@, rep@),
{
    let mut out: Vec<char> = Vec::new();
    let mut i: usize = 0;
    let n: usize = s.len();
    loop
        invariant
            n == s@.len(),
            pat@.len() > 0,
            i <= n,
            out@ + replace_from(s@, pat@, rep@, i as int) == replace_all(s@, pat@, rep@),
        decreases n - i,
    {
        match find_chars(s, pat, i) {
            None => {
                let tail = slice_chars(s, i, n);
                assert(out@ + tail@ == replace_all(s@, pat@, rep@));
                let mut o = out;
                let mut t = tail;
                o.append(&mut t);
                return o;
            },
            Some(k) => {
                proof {
                    crate::text::lemma_find_from_sound(s@, pat@, i as int);
                }
                let head = slice_chars(s, i, k);
                let ghost before = out@;
                let mut h = head;
                out.append(&mut h);
                let mut rc = slice_chars(rep, 0, rep.len());
                assert(rc@ =~= rep@);
                out.append(&mut rc);
                assert(out@ + replace_from(s@, pat@, rep@, k + pat@.len()) =~= before
                    + replace_from(s@, pat@, rep@, i as int));
                i = k + pat.len();
            },
        }
    }
}

/// A marked section: start marker, trimmed content, end marker.
pub open spec fn section_block(start: Seq<char>, end: Seq<char>, inner: Seq<char>) -> Seq<char> {
    start + "\n"@ + trim(inner) + "\n"@ + end
}

/// Where the first `start` marker and the first `end` marker after it lie:
/// the start index and the index just past the end marker.
pub open spec fn section_span(body: Seq<char>, start: Seq<char>, end: Seq<char>) -> Option<(int, int)> {
    match find_from(body, start, 0) {
        None => None,
        Some(si) => match find_from(body, end, si) {
            None => None,
            Some(ei) => Some((si, ei + end.len())),
        },
    }
}

/// `str::trim_end`.
pub open spec fn trim_end(s: Seq<char>) -> Seq<char> {
    s.subrange(0, crate::text::trim_end_from(s, 0, s.len() as int))
}

/// The body with the section replaced in place, or appended when the body
/// has no such section.
pub open spec fn upserted(body: Seq<char>, start: Seq<char>, end: Seq<char>, inner: Seq<char>) -> Seq<
    char,
> {
    let block = section_block(start, end, inner);
    match section_span(body, start, end) {
        Some((si, ej)) => body.subrange(0, si) + block + body.subrange(ej, body.len() as int),
        None => trim_end(body) + "\n\n"@ + block + "\n"@,
    }
}

/// The section as it stands in the body, trimmed.
pub open spec fn extracted(body: Seq<char>, start: Seq<char>, end: Seq<char>) -> Option<Seq<char>> {
    match section_span(body, start, end) {
        Some((si, ej)) => Some(trim(body.subrange(si, ej))),
        None => None,
    }
}

fn find_span(body: &[char], start: &[char], end: &[char]) -> (r: Option<(usize, usize)>)
    ensures
        match section_span(body@, start@, end@) {
            Some((si, ej)) => r == Some((si as usize, ej as usize)) && 0 <= si <= ej <= body@.len(),
            None => r is None,
        },
{
    let si = match find_chars(body, start, 0) {
        None => return None,
        Some(si) => si,
    };
    proof {
        crate::text::lemma_find_from_sound(body@, start@, 0);
    }
    let ei = match find_chars(body, end, si) {
        None => return None,
        Some(ei) => ei,
    };
    let blen: usize = body.len();
    proof {
        crate::text::lemma_find_from_sound(body@, end@, si as int);
        assert(ei + end@.len() <= blen);
    }
    Some((si, ei + end.len()))
}

fn trim_end_chars(v: &[char]) -> (r: Vec<char>)
    ensures
        r@ == trim_end(v@),
{
    let mut j: usize = v.len();
    while j > 0 && crate::text::is_whitespace(v[j - 1])
        invariant
            j <= v@.len(),
            crate::text::trim_end_from(v@, 0, j as int) == crate::text::trim_end_from(
                v@,
                0,
                v@.len() as int,
            ),
        decreases j,
    {
        j = j - 1;
    }
    slice_chars(v, 0, j)
}

fn push_str(out: &mut Vec<char>, s: &str)
    ensures
        final(out)@ == old(out)@ + s@,
{
    let mut c = chars_of(s);
    out.append(&mut c);
}

fn push_chars(out: &mut Vec<char>, s: &[char])
    ensures
        final(out)@ == old(out)@ + s@,
{
    let mut c = slice_chars(s, 0, s.len());
    assert(c@ =~= s@);
    out.append(&mut c);
}

/// Puts `inner` between the markers: in place of the existing section, or
/// appended after the body.
pub fn upsert_section(body: &str, start: &str, end: &str, inner: &str) -> (r: String)
    ensures
        r@ == upserted(body@, start@, end@, inner@),
{
    let b = chars_of(body);
    let mut block: Vec<char> = Vec::new();
    push_str(&mut block, start);
    push_str(&mut block, "\n");
    let iv = chars_of(inner);
    push_chars(&mut block, trim_chars(iv.as_slice()).as_slice());
    push_str(&mut block, "\n");
    push_str(&mut block, end);
    assert(block@ =~= section_block(start@, end@, inner@));
    let sv = chars_of(start);
    let ev = chars_of(end);
    let mut out: Vec<char> = Vec::new();
    match find_span(b.as_slice(), sv.as_slice(), ev.as_slice()) {
        Some((si, ej)) => {
            push_chars(&mut out, slice_chars(b.as_slice(), 0, si).as_slice());
            push_chars(&mut out, block.as_slice());
            push_chars(&mut out, slice_chars(b.as_slice(), ej, b.len()).as_slice());
            assert(out@ =~= upserted(body@, start@, end@, inner@));
        },
        None => {
            push_chars(&mut out, trim_end_chars(b.as_slice()).as_slice());
            push_str(&mut out, "\n\n");
            push_chars(&mut out, block.as_slice());
            push_str(&mut out, "\n");
            assert(out@ =~= upserted(body@, start@, end@, inner@));
        },
    }
    string_of(out.as_slice())
}

/// The trimmed section between the markers, if the body has one.
pub fn extract_section_block(body: &str, start: &str, end: &str) -> (r: Option<String>)
    ensures
        match extracted(body@, start@, end@) {
            Some(b) => r matches Some(x) && x@ == b,
            None => r is None,
        },
{
    let b = chars_of(body);
    let sv = chars_of(start);
    let ev = chars_of(end);
    match find_span(b.as_slice(), sv.as_slice(), ev.as_slice()) {
        Some((si, ej)) => {
            let piece = slice_chars(b.as_slice(), si, ej);
            Some(string_of(trim_chars(piece.as_slice()).as_slice()))
        },
        None => None,
    }
}

/// The existing comment with the HNSW marker folded into the shared marker,
/// and the marker added when missing.
pub open spec fn comment_shell(existing: Seq<char>) -> Seq<char> {
    let normalized = replace_all(existing, COMMENT_MARKER_HNSW@, COMMENT_MARKER@);
    if crate::text::contains(normalized, COMMENT_MARKER@) {
        normalized
    } else if trim(normalized).len() == 0 {
        COMMENT_MARKER@
    } else {
        COMMENT_MARKER@ + "\n\n"@ + normalized
    }
}

pub fn ensure_comment_shell(existing: &str) -> (r: String)
    ensures
        r@ == comment_shell(existing@),
{
    proof {
        reveal_strlit("<!-- IBEX_BOT_COMMENT_HNSW -->");
    }
    let e = chars_of(existing);
    let hnsw = chars_of(COMMENT_MARKER_HNSW);
    let marker = chars_of(COMMENT_MARKER);
    let normalized = replace_chars(e.as_slice(), hnsw.as_slice(), marker.as_slice());
    if crate::text::contains_chars(normalized.as_slice(), marker.as_slice()) {
        return string_of(normalized.as_slice());
    }
    if trim_chars(normalized.as_slice()).len() == 0 {
        return String::from_str(COMMENT_MARKER);
    }
    let mut out = String::from_str(COMMENT_MARKER);
    out.append("\n\n");
    out.append(string_of(normalized.as_slice()).as_str());
    out
}

pub open spec fn comment_footer() -> Seq<char> {
    "<div align=\"right\">\n  <sub>Generated by IBEX Benchmark Bot</sub>\n</div>"@
}

/// The lines a section adds to the rebuilt comment.
pub open spec fn section_lines(block: Option<Seq<char>>) -> Seq<Seq<char>> {
    match block {
        Some(b) => seq![""@, b],
        None => Seq::empty(),
    }
}

/// The comment rebuilt from a body: marker, header from the suite metas,
/// the proxy, HNSW and environment sections in that order, and the footer.
pub open spec fn rebuilt_comment(body: Seq<char>) -> Seq<char> {
    join(
        seq![COMMENT_MARKER@, ""@, comment_header(suite_metas(body))]
            + section_lines(extracted(body, PROXY_SECTION_START@, PROXY_SECTION_END@))
            + section_lines(extracted(body, HNSW_SECTION_START@, HNSW_SECTION_END@))
            + section_lines(extracted(body, ENV_SECTION_START@, ENV_SECTION_END@))
            + seq![""@, comment_footer()],
        "\n"@,
    )
}

fn push_section(lines: &mut Vec<String>, body: &str, start: &str, end: &str)
    ensures
        views(final(lines)@) == views(old(lines)@) + section_lines(extracted(body@, start@, end@)),
{
    proof {
        reveal_strlit("");
    }
    let ghost before = views(lines@);
    match extract_section_block(body, start, end) {
        Some(block) => {
            let ghost l0 = lines@;
            let empty = String::new();
            assert(empty@ =~= ""@);
            lines.push(empty);
            let ghost l1 = lines@;
            let ghost bv = block@;
            lines.push(block);
            proof {
                crate::markdown::lemma_views_push(l0, l1.last());
                crate::markdown::lemma_views_push(l1, lines@.last());
            }
            assert(views(lines@) =~= before + section_lines(extracted(body@, start@, end@)));
        },
        None => {
            assert(views(lines@) =~= before + section_lines(extracted(body@, start@, end@)));
        },
    }
}

pub fn rebuild_comment_shell(body: &str) -> (r: String)
    ensures
        r@ == rebuilt_comment(body@),
{
    proof {
        reveal_strlit("");
    }
    let metas = parse_suite_metas(body);
    let empty = String::new();
    assert(empty@ =~= ""@);
    let lines_init: Vec<String> = vec![String::from_str(COMMENT_MARKER), empty, render_comment_header(&metas)];
    let mut lines = lines_init;
    assert(views(lines@) =~= seq![COMMENT_MARKER@, ""@, comment_header(suite_metas(body@))]);
    push_section(&mut lines, body, PROXY_SECTION_START, PROXY_SECTION_END);
    push_section(&mut lines, body, HNSW_SECTION_START, HNSW_SECTION_END);
    push_section(&mut lines, body, ENV_SECTION_START, ENV_SECTION_END);
    let ghost l0 = lines@;
    let empty2 = String::new();
    assert(empty2@ =~= ""@);
    lines.push(empty2);
    let ghost l1 = lines@;
    lines.push(String::from_str("<div align=\"right\">\n  <sub>Generated by IBEX Benchmark Bot</sub>\n</div>"));
    proof {
        crate::markdown::lemma_views_push(l0, l1.last());
        crate::markdown::lemma_views_push(l1, lines@.last());
    }
    assert(views(lines@) =~= views(l0) + seq![""@, comment_footer()]);
    join_lines(&lines)
}

/// A rebuilt comment starts with the shared marker on a line of its own.
pub proof fn lemma_rebuilt_comment_starts_with_marker(body: Seq<char>)
    ensures
        crate::text::starts_with(rebuilt_comment(body), COMMENT_MARKER@ + "\n"@),
{
    let parts = seq![COMMENT_MARKER@, ""@, comment_header(suite_metas(body))]
        + section_lines(extracted(body, PROXY_SECTION_START@, PROXY_SECTION_END@))
        + section_lines(extracted(body, HNSW_SECTION_START@, HNSW_SECTION_END@))
        + section_lines(extracted(body, ENV_SECTION_START@, ENV_SECTION_END@))
        + seq![""@, comment_footer()];
    assert(parts[0] == COMMENT_MARKER@);
    crate::markdown::lemma_join_starts_with(parts, "\n"@);
}

/// A rebuilt comment holds the HNSW section of the body it was rebuilt from.
pub proof fn lemma_rebuilt_comment_holds_hnsw(body: Seq<char>)
    ensures
        extracted(body, HNSW_SECTION_START@, HNSW_SECTION_END@) matches Some(b)
            ==> crate::text::contains(rebuilt_comment(body), b),
{
    if let Some(b) = extracted(body, HNSW_SECTION_START@, HNSW_SECTION_END@) {
        let head = seq![COMMENT_MARKER@, ""@, comment_header(suite_metas(body))]
            + section_lines(extracted(body, PROXY_SECTION_START@, PROXY_SECTION_END@));
        let parts = head + section_lines(Some(b))
            + section_lines(extracted(body, ENV_SECTION_START@, ENV_SECTION_END@))
            + seq![""@, comment_footer()];
        assert(parts[head.len() + 1int] == b);
        crate::markdown::lemma_join_contains_part(parts, "\n"@, head.len() + 1int);
    }
}

// ---------------------------------------------------------------------------
// Reading back what was written
// ---------------------------------------------------------------------------
/// No character of `s` is `|` or a line break.
pub open spec fn plain_field(s: Seq<char>) -> bool {
    forall|i: int| 0 <= i < s.len() ==> #[trigger] s[i] != '|' && s[i] != '\n' && s[i] != '\r'
}

proof fn lemma_scrub_chars_plain(s: Seq<char>)
    ensures
        plain_field(scrub_chars(s)),
    decreases s.len(),
{
    if s.len() > 0 {
        lemma_scrub_chars_plain(s.drop_last());
        let rest = scrub_chars(s.drop_last());
        assert forall|i: int| 0 <= i < scrub_chars(s).len() implies #[trigger] scrub_chars(s)[i]
            != '|' && scrub_chars(s)[i] != '\n' && scrub_chars(s)[i] != '\r' by {
            if i < rest.len() {
                assert(scrub_chars(s)[i] == rest[i]);
            }
        }
    }
}

/// A scrubbed field has no `|` and no line break.
proof fn lemma_scrub_plain(s: Seq<char>)
    ensures
        plain_field(scrub(s)),
{
    lemma_scrub_chars_plain(s);
    let x = scrub_chars(s);
    let lo = crate::text::trim_start_from(x, 0);
    crate::text::lemma_trim_start_bounds(x, 0);
    crate::text::lemma_trim_end_bounds(x, lo, x.len() as int);
    let hi = crate::text::trim_end_from(x, lo, x.len() as int);
    assert forall|i: int| 0 <= i < scrub(s).len() implies #[trigger] scrub(s)[i] != '|' && scrub(
        s,
    )[i] != '\n' && scrub(s)[i] != '\r' by {
        assert(scrub(s)[i] == x[lo + i]);
    }
}

proof fn lemma_find_bar(x: Seq<char>, y: Seq<char>, i: int)
    requires
        plain_field(x),
        0 <= i <= x.len(),
    ensures
        find_from(x + seq!['|'] + y, seq!['|'], i) == Some(x.len() as int),
    decreases x.len() - i,
{
    let z = x + seq!['|'] + y;
    if i < x.len() {
        assert(z[i] == x[i]);
        assert(!crate::text::occurs_at(z, seq!['|'], i)) by {
            if crate::text::occurs_at(z, seq!['|'], i) {
                assert(z.subrange(i, i + 1)[0] == z[i]);
            }
        }
        lemma_find_bar(x, y, i + 1);
    } else {
        assert(z.subrange(i, i + 1) =~= seq!['|']);
    }
}

proof fn lemma_split_head(x: Seq<char>, y: Seq<char>, n: nat)
    requires
        plain_field(x),
        n >= 2,
    ensures
        splitn_bar(x + seq!['|'] + y, n) == seq![x] + splitn_bar(y, (n - 1) as nat),
{
    let z = x + seq!['|'] + y;
    lemma_find_bar(x, y, 0);
    assert(z.subrange(0, x.len() as int) =~= x);
    assert(z.subrange(x.len() + 1int, z.len() as int) =~= y);
}

proof fn lemma_no_newline_line_end(s: Seq<char>, i: int)
    requires
        0 <= i <= s.len(),
        forall|k: int| 0 <= k < s.len() ==> #[trigger] s[k] != '\n',
    ensures
        line_end(s, i) == s.len(),
    decreases s.len() - i,
{
    if i < s.len() {
        lemma_no_newline_line_end(s, i + 1);
    }
}

/// The meta a meta line carries once its fields are scrubbed.
pub open spec fn scrubbed_meta(m: MetaView) -> MetaView {
    (scrub(m.0), scrub(m.1), scrub(m.2), scrub(m.3), normalized_status(scrub(m.4)))
}

/// A text with no line break is one line.
proof fn lemma_single_line(e: Seq<char>)
    requires
        e.len() > 0,
        forall|k: int| 0 <= k < e.len() ==> #[trigger] e[k] != '\n',
    ensures
        lines_from(e, 0) == seq![e],
{
    lemma_no_newline_line_end(e, 0);
    assert(e.subrange(0, e.len() as int) =~= e);
    assert(lines_from(e, e.len() + 1int) == Seq::<Seq<char>>::empty());
    assert(lines_from(e, 0) =~= seq![e]);
}

/// One meta, sorted and deduplicated, is itself.
proof fn lemma_single_meta_sorted(x: MetaView)
    ensures
        dedup_ids(sorted_by_key(seq![x])) == seq![x],
{
    assert(seq![x] =~= Seq::<MetaView>::empty().push(x));
    Seq::<MetaView>::empty().lemma_filter_push(x, |mv: MetaView| suite_key(mv.0) == 0);
    Seq::<MetaView>::empty().lemma_filter_push(x, |mv: MetaView| suite_key(mv.0) == 1);
    Seq::<MetaView>::empty().lemma_filter_push(x, |mv: MetaView| suite_key(mv.0) == 9);
    assert(Seq::<MetaView>::empty().filter(|mv: MetaView| suite_key(mv.0) == 0) =~= Seq::<MetaView>::empty());
    assert(Seq::<MetaView>::empty().filter(|mv: MetaView| suite_key(mv.0) == 1) =~= Seq::<MetaView>::empty());
    assert(Seq::<MetaView>::empty().filter(|mv: MetaView| suite_key(mv.0) == 9) =~= Seq::<MetaView>::empty());
    assert(sorted_by_key(seq![x]) =~= seq![x]);
}

/// Writing a suite's meta line and reading the comment back gives that
/// suite's meta again: its fields as scrubbed, its status normalised.
pub proof fn lemma_meta_round_trip(m: MetaView)
    ensures
        parse_meta_line(encoded_meta(m)) == Some(scrubbed_meta(m)),
        suite_metas(encoded_meta(m)) == seq![scrubbed_meta(m)],
{
    lemma_meta_line_parses(m);
    lemma_encoded_meta_one_line(m);
    let e = encoded_meta(m);
    lemma_encoded_meta_parts(m);
    assert(e.len() > 0);
    lemma_single_line(e);
    let ms = metas_of_lines(seq![e]);
    assert(seq![e].drop_last() =~= Seq::<Seq<char>>::empty());
    assert(seq![e].last() == e);
    assert(metas_of_lines(Seq::<Seq<char>>::empty()) =~= Seq::<MetaView>::empty());
    assert(ms == metas_of_lines(Seq::<Seq<char>>::empty()).push(scrubbed_meta(m)));
    assert(ms =~= seq![scrubbed_meta(m)]);
    lemma_single_meta_sorted(scrubbed_meta(m));
}

/// The parts of a meta line, as its fields are scrubbed.
proof fn lemma_encoded_meta_parts(m: MetaView)
    ensures
        plain_field(scrub(m.0)),
        plain_field(scrub(m.1)),
        plain_field(scrub(m.2)),
        plain_field(scrub(m.3)),
        plain_field(scrub(m.4)),
        encoded_meta(m) == SUITE_META_PREFIX@ + (scrub(m.0) + "|"@ + scrub(m.1) + "|"@ + scrub(m.2)
            + "|"@ + scrub(m.3) + "|"@ + scrub(m.4)) + meta_suffix(),
{
    lemma_scrub_plain(m.0);
    lemma_scrub_plain(m.1);
    lemma_scrub_plain(m.2);
    lemma_scrub_plain(m.3);
    lemma_scrub_plain(m.4);
    let bar = "|"@;
    let body = scrub(m.0) + bar + scrub(m.1) + bar + scrub(m.2) + bar + scrub(m.3) + bar + scrub(m.4);
    assert(encoded_meta(m) =~= SUITE_META_PREFIX@ + body + meta_suffix());
}

/// A meta line is one line.
#[verifier::spinoff_prover]
proof fn lemma_encoded_meta_one_line(m: MetaView)
    ensures
        forall|k: int| 0 <= k < encoded_meta(m).len() ==> #[trigger] encoded_meta(m)[k] != '\n',
{
    reveal_strlit("<!-- IBEX_SUITE|");
    reveal_strlit(" -->");
    reveal_strlit("|");
    lemma_encoded_meta_parts(m);
    let p = SUITE_META_PREFIX@;
    let bar = "|"@;
    assert(bar =~= seq!['|']);
    let (a, b, c, d, f) = (scrub(m.0), scrub(m.1), scrub(m.2), scrub(m.3), scrub(m.4));
    let body = a + bar + b + bar + c + bar + d + bar + f;
    let e = encoded_meta(m);
    assert forall|k: int| 0 <= k < e.len() implies #[trigger] e[k] != '\n' by {
        if k < p.len() {
            assert(e[k] == p[k]);
        } else if k < p.len() + body.len() {
            assert(e[k] == body[k - p.len()]);
            let j = k - p.len();
            if j < a.len() {
                assert(body[j] == a[j]);
            } else if j == a.len() {
            } else if j < a.len() + 1 + b.len() {
                assert(body[j] == b[j - a.len() - 1]);
            } else if j == a.len() + 1 + b.len() {
            } else if j < a.len() + 2 + b.len() + c.len() {
                assert(body[j] == c[j - a.len() - 2 - b.len()]);
            } else if j == a.len() + 2 + b.len() + c.len() {
            } else if j < a.len() + 3 + b.len() + c.len() + d.len() {
                assert(body[j] == d[j - a.len() - 3 - b.len() - c.len()]);
            } else if j == a.len() + 3 + b.len() + c.len() + d.len() {
            } else {
                assert(body[j] == f[j - a.len() - 4 - b.len() - c.len() - d.len()]);
            }
        } else {
            assert(e[k] == meta_suffix()[k - p.len() - body.len()]);
        }
    }
}

/// A meta line parses back into the meta, scrubbed.
#[verifier::spinoff_prover]
proof fn lemma_meta_line_parses(m: MetaView)
    ensures
        parse_meta_line(encoded_meta(m)) == Some(scrubbed_meta(m)),
{
    reveal_strlit("<!-- IBEX_SUITE|");
    reveal_strlit(" -->");
    reveal_strlit("|");
    lemma_encoded_meta_parts(m);
    let p = SUITE_META_PREFIX@;
    let bar = "|"@;
    assert(bar =~= seq!['|']);
    let (a, b, c, d, f) = (scrub(m.0), scrub(m.1), scrub(m.2), scrub(m.3), scrub(m.4));
    let body = a + bar + b + bar + c + bar + d + bar + f;
    let e = encoded_meta(m);
    assert(e[0] == '<');
    assert(e[e.len() - 1] == '>');
    assert(crate::text::trim_start_from(e, 0) == 0);
    assert(crate::text::trim_end_from(e, 0, e.len() as int) == e.len());
    assert(trim(e) =~= e);
    assert(e.subrange(0, p.len() as int) =~= p);
    let rest = e.subrange(p.len() as int, e.len() as int);
    assert(rest =~= body + meta_suffix());
    assert(rest.subrange(rest.len() - meta_suffix().len(), rest.len() as int) =~= meta_suffix());
    assert(rest.subrange(0, rest.len() - meta_suffix().len()) =~= body);
    lemma_split_head(a, b + bar + c + bar + d + bar + f, 5);
    assert(a + seq!['|'] + (b + bar + c + bar + d + bar + f) =~= body);
    lemma_split_head(b, c + bar + d + bar + f, 4);
    assert(b + seq!['|'] + (c + bar + d + bar + f) =~= b + bar + c + bar + d + bar + f);
    lemma_split_head(c, d + bar + f, 3);
    assert(c + seq!['|'] + (d + bar + f) =~= c + bar + d + bar + f);
    lemma_split_head(d, f, 2);
    assert(d + seq!['|'] + f =~= d + bar + f);
    let parts = splitn_bar(body, 5);
    assert(parts =~= seq![a, b, c, d, f]);
}



/// The first occurrence of `n` in `h` at or after `i` is at `k` when `n`
/// occurs at `k` and nowhere in `i..k`.
proof fn lemma_find_from_at(h: Seq<char>, n: Seq<char>, i: int, k: int)
    requires
        0 <= i <= k,
        occurs_at(h, n, k),
        forall|j: int| i <= j < k ==> !occurs_at(h, n, j),
    ensures
        find_from(h, n, i) == Some(k),
{
    crate::text::lemma_find_from_sound(h, n, i);
}

/// Where `upsert_section` puts the block: where the old section began, or
/// after the trimmed body and a blank line.
pub open spec fn upsert_position(body: Seq<char>, start: Seq<char>, end: Seq<char>) -> int {
    match section_span(body, start, end) {
        Some((si, _)) => si,
        None => trim_end(body).len() + 2int,
    }
}

/// The conditions under which the section just written is the one read back:
/// the start marker is one line, the end marker first occurs at the end of
/// the block, and the body holds either a whole section or no start marker.
pub open spec fn upsert_readable(body: Seq<char>, start: Seq<char>, end: Seq<char>, inner: Seq<char>) -> bool {
    let block = section_block(start, end, inner);
    &&& start.len() > 0
    &&& !start.contains('\n')
    &&& find_from(block, end, 0) == Some(block.len() - end.len())
    &&& (section_span(body, start, end) is Some || !crate::text::contains(body, start))
}

/// In the upserted body, the section is the block just written.
#[verifier::spinoff_prover]
proof fn lemma_upserted_span(body: Seq<char>, start: Seq<char>, end: Seq<char>, inner: Seq<char>)
    requires
        upsert_readable(body, start, end, inner),
    ensures
        ({
            let block = section_block(start, end, inner);
            let new = upserted(body, start, end, inner);
            let p = upsert_position(body, start, end);
            &&& 0 <= p
            &&& p + block.len() <= new.len()
            &&& new.subrange(p, p + block.len()) == block
            &&& section_span(new, start, end) == Some((p, p + block.len()))
        }),
{
    let block = section_block(start, end, inner);
    let new = upserted(body, start, end, inner);
    let p = upsert_position(body, start, end);
    crate::text::lemma_find_from_sound(block, end, 0);
    assert(block.subrange(0, start.len() as int) =~= start);
    match section_span(body, start, end) {
        Some((si, ej)) => {
            crate::text::lemma_find_from_sound(body, start, 0);
            crate::text::lemma_find_from_sound(body, end, si);
            let pre = body.subrange(0, si);
            assert(new =~= pre + block + body.subrange(ej, body.len() as int));
            assert(new.subrange(si, si + block.len()) =~= block);
            // Before the block the new body is the old one, up to the old marker.
            assert forall|t: int| 0 <= t < si + start.len() implies #[trigger] new[t] == body[t] by {
                if t >= si {
                    assert(new[t] == block[t - si]);
                    assert(block[t - si] == start[t - si]);
                    assert(body.subrange(si, si + start.len())[t - si] == body[t]);
                }
            }
            assert forall|j: int| 0 <= j < si implies !occurs_at(new, start, j) by {
                if occurs_at(new, start, j) {
                    assert(new.subrange(j, j + start.len()) =~= body.subrange(j, j + start.len()));
                    assert(occurs_at(body, start, j));
                }
            }
            assert(new.subrange(si, si + start.len()) =~= start);
            lemma_find_from_at(new, start, 0, si);
        },
        None => {
            let tb = trim_end(body);
            crate::text::lemma_trim_end_bounds(body, 0, body.len() as int);
            assert(new =~= tb + "\n\n"@ + block + "\n"@);
            reveal_strlit("\n\n");
            reveal_strlit("\n");
            assert(p == tb.len() + 2);
            assert(new.subrange(p, p + block.len()) =~= block);
            assert(new[tb.len() as int] == '\n');
            assert(new[tb.len() + 1int] == '\n');
            assert forall|j: int| 0 <= j < p implies !occurs_at(new, start, j) by {
                if occurs_at(new, start, j) {
                    if j + start.len() <= tb.len() {
                        assert(new.subrange(j, j + start.len()) =~= body.subrange(j, j + start.len()));
                        assert(occurs_at(body, start, j));
                    } else if j >= tb.len() {
                        assert(new.subrange(j, j + start.len())[0] == start[0]);
                        assert(start[0] == '\n');
                    } else {
                        let k = tb.len() - j;
                        assert(new.subrange(j, j + start.len())[k] == start[k]);
                        assert(start[k] == '\n');
                    }
                }
            }
            assert(new.subrange(p, p + start.len()) =~= start);
            lemma_find_from_at(new, start, 0, p);
        },
    }
    // The first end marker after the start is the block's own.
    let q = p + block.len() - end.len();
    assert(new.subrange(q, q + end.len()) =~= block.subrange(block.len() - end.len(), block.len() as int));
    assert forall|j: int| p <= j < q implies !occurs_at(new, end, j) by {
        if occurs_at(new, end, j) {
            assert(new.subrange(j, j + end.len()) =~= block.subrange(j - p, j - p + end.len()));
            assert(occurs_at(block, end, j - p));
        }
    }
    lemma_find_from_at(new, end, p, q);
}

/// Reading back a section just written: after `upsert_section`,
/// `extract_section_block` gives the block that was written, trimmed.
pub proof fn lemma_upsert_then_extract(body: Seq<char>, start: Seq<char>, end: Seq<char>, inner: Seq<char>)
    requires
        upsert_readable(body, start, end, inner),
    ensures
        extracted(upserted(body, start, end, inner), start, end) == Some(
            trim(section_block(start, end, inner)),
        ),
{
    lemma_upserted_span(body, start, end, inner);
}

/// Upserting the same section twice gives what upserting it once gave.
pub proof fn lemma_upsert_idempotent(body: Seq<char>, start: Seq<char>, end: Seq<char>, inner: Seq<char>)
    requires
        upsert_readable(body, start, end, inner),
    ensures
        upserted(upserted(body, start, end, inner), start, end, inner) == upserted(
            body,
            start,
            end,
            inner,
        ),
{
    lemma_upserted_span(body, start, end, inner);
    let block = section_block(start, end, inner);
    let new = upserted(body, start, end, inner);
    let p = upsert_position(body, start, end);
    assert(new =~= new.subrange(0, p) + block + new.subrange(p + block.len(), new.len() as int));
}


// ---------------------------------------------------------------------------
// One section's upsert leaves the other sections alone
// ---------------------------------------------------------------------------
/// A marker tag such as `<!-- IBEX_HNSW_START -->`: `<` first and nowhere
/// else, `>` last, all on one line.
pub open spec fn tag_marker(m: Seq<char>) -> bool {
    &&& m.len() >= 2
    &&& m[0] == '<'
    &&& m[m.len() - 1] == '>'
    &&& forall|k: int| 0 < k < m.len() ==> #[trigger] m[k] != '<'
    &&& forall|k: int| 0 <= k < m.len() ==> #[trigger] m[k] != '\n'
}

/// Neither marker is a prefix of the other.
pub open spec fn markers_differ(x: Seq<char>, y: Seq<char>) -> bool {
    exists|k: int| 0 <= k < x.len() && k < y.len() && #[trigger] x[k] != y[k]
}

/// The sections of two marker pairs, where both stand in the body, do not
/// interleave.
pub open spec fn sections_apart(
    body: Seq<char>,
    a_start: Seq<char>,
    a_end: Seq<char>,
    b_start: Seq<char>,
    b_end: Seq<char>,
) -> bool {
    match (section_span(body, a_start, a_end), section_span(body, b_start, b_end)) {
        (Some((sa, ea)), Some((sb, eb))) => eb <= sa || ea <= sb,
        _ => true,
    }
}

/// Two occurrences of marker tags never overlap.
proof fn lemma_tags_apart(h: Seq<char>, x: Seq<char>, y: Seq<char>, i: int, j: int)
    requires
        tag_marker(x),
        tag_marker(y),
        occurs_at(h, x, i),
        occurs_at(h, y, j),
        i < j,
    ensures
        j >= i + x.len(),
{
    if j < i + x.len() {
        assert(h.subrange(i, i + x.len())[j - i] == h[j]);
        assert(h.subrange(j, j + y.len())[0] == h[j]);
        assert(x[j - i] != '<');
    }
}

/// Two markers that occur at the same place agree on their common length.
proof fn lemma_tags_distinct(h: Seq<char>, x: Seq<char>, y: Seq<char>, i: int)
    requires
        occurs_at(h, x, i),
        occurs_at(h, y, i),
    ensures
        !markers_differ(x, y),
{
    assert forall|k: int| 0 <= k < x.len() && k < y.len() implies #[trigger] x[k] == y[k] by {
        assert(h.subrange(i, i + x.len())[k] == h[i + k]);
        assert(h.subrange(i, i + y.len())[k] == h[i + k]);
    }
}

/// Where a section of marker tags lies: the start marker ends before the end
/// marker begins.
proof fn lemma_span_shape(body: Seq<char>, s: Seq<char>, e: Seq<char>, sb: int, eb: int)
    requires
        tag_marker(s),
        tag_marker(e),
        markers_differ(s, e),
        section_span(body, s, e) == Some((sb, eb)),
    ensures
        0 <= sb,
        sb + s.len() <= eb - e.len(),
        eb <= body.len(),
        occurs_at(body, s, sb),
        occurs_at(body, e, eb - e.len()),
        forall|j: int| 0 <= j < sb ==> !occurs_at(body, s, j),
        forall|j: int| sb <= j < eb - e.len() ==> !occurs_at(body, e, j),
{
    crate::text::lemma_find_from_sound(body, s, 0);
    crate::text::lemma_find_from_sound(body, e, sb);
    let ei = eb - e.len();
    if ei == sb {
        lemma_tags_distinct(body, s, e, sb);
    } else if ei < sb + s.len() {
        lemma_tags_apart(body, s, e, sb, ei);
    }
}

/// Occurrences in a stretch where two texts agree, shifted by `d`.
proof fn lemma_occurs_shifted(new: Seq<char>, old: Seq<char>, n: Seq<char>, k: int, d: int, lo: int, hi: int)
    requires
        0 <= lo <= k,
        k + n.len() <= hi,
        0 <= lo + d,
        hi + d <= new.len(),
        hi <= old.len(),
        forall|t: int| lo <= t < hi ==> #[trigger] old[t] == new[t + d],
    ensures
        occurs_at(new, n, k + d) == occurs_at(old, n, k),
{
    assert(new.subrange(k + d, k + d + n.len()) =~= old.subrange(k, k + n.len())) by {
        assert forall|t: int| 0 <= t < n.len() implies #[trigger] new.subrange(k + d, k + d + n.len())[t]
            == old.subrange(k, k + n.len())[t] by {
            assert(old[k + t] == new[k + t + d]);
        }
    }
}

/// A section that lies where two texts agree (shifted by `d`) is the same
/// section in both, when no occurrence of its markers in the new text comes
/// earlier.
#[verifier::spinoff_prover]
proof fn lemma_span_moved(
    old: Seq<char>,
    new: Seq<char>,
    s: Seq<char>,
    e: Seq<char>,
    sb: int,
    eb: int,
    d: int,
    lo: int,
    hi: int,
)
    requires
        tag_marker(s),
        tag_marker(e),
        markers_differ(s, e),
        section_span(old, s, e) == Some((sb, eb)),
        0 <= lo <= sb,
        eb <= hi <= old.len(),
        0 <= lo + d,
        hi + d <= new.len(),
        forall|t: int| lo <= t < hi ==> #[trigger] old[t] == new[t + d],
        forall|j: int| 0 <= j < lo + d ==> !occurs_at(new, s, j),
        forall|j: int| lo + d <= j < sb + d ==> j + s.len() > hi + d ==> !occurs_at(new, s, j),
    ensures
        section_span(new, s, e) == Some((sb + d, eb + d)),
        new.subrange(sb + d, eb + d) == old.subrange(sb, eb),
{
    lemma_span_shape(old, s, e, sb, eb);
    lemma_occurs_shifted(new, old, s, sb, d, lo, hi);
    assert forall|j: int| 0 <= j < sb + d implies !occurs_at(new, s, j) by {
        if j >= lo + d && j + s.len() <= hi + d {
            lemma_occurs_shifted(new, old, s, j - d, d, lo, hi);
        }
    }
    lemma_find_from_at(new, s, 0, sb + d);
    let ei = eb - e.len();
    lemma_occurs_shifted(new, old, e, ei, d, lo, hi);
    assert forall|j: int| sb + d <= j < ei + d implies !occurs_at(new, e, j) by {
        lemma_occurs_shifted(new, old, e, j - d, d, lo, hi);
    }
    lemma_find_from_at(new, e, sb + d, ei + d);
    assert(new.subrange(sb + d, eb + d) =~= old.subrange(sb, eb)) by {
        assert forall|t: int| 0 <= t < eb - sb implies #[trigger] new.subrange(sb + d, eb + d)[t]
            == old.subrange(sb, eb)[t] by {
            assert(old[sb + t] == new[sb + t + d]);
        }
    }
}

/// Trailing white space never cuts into a stretch that ends in a
/// non-white-space character.
proof fn lemma_trim_end_keeps(s: Seq<char>, j: int, m: int)
    requires
        0 < m <= j <= s.len(),
        !crate::text::is_ws_char(s[m - 1]),
    ensures
        crate::text::trim_end_from(s, 0, j) >= m,
    decreases j,
{
    if j > m && crate::text::is_ws_char(s[j - 1]) {
        lemma_trim_end_keeps(s, j - 1, m);
    }
}

/// In the text `pre + block + post`, where the block starts and ends with
/// marker tags, no occurrence of another tag starts before the block ends
/// unless it lies in `pre` or in the block itself.
proof fn lemma_no_tag_across_block(
    new: Seq<char>,
    block: Seq<char>,
    sa: int,
    a_start: Seq<char>,
    a_end: Seq<char>,
    b_start: Seq<char>,
    j: int,
)
    requires
        tag_marker(a_start),
        tag_marker(a_end),
        tag_marker(b_start),
        markers_differ(a_end, b_start),
        0 <= sa,
        sa + block.len() <= new.len(),
        new.subrange(sa, sa + block.len()) == block,
        block.len() >= a_start.len() + a_end.len(),
        block.subrange(0, a_start.len() as int) == a_start,
        block.subrange(block.len() - a_end.len(), block.len() as int) == a_end,
        occurs_at(new, b_start, j),
        j < sa + block.len(),
        j + b_start.len() > sa,
    ensures
        sa <= j && j + b_start.len() <= sa + block.len(),
{
    let m = sa + block.len();
    let pe = m - a_end.len();
    assert(new.subrange(sa, sa + a_start.len()) =~= block.subrange(0, a_start.len() as int));
    assert(occurs_at(new, a_start, sa));
    assert(new.subrange(pe, m) =~= block.subrange(block.len() - a_end.len(), block.len() as int));
    assert(occurs_at(new, a_end, pe));
    if j < sa {
        lemma_tags_apart(new, b_start, a_start, j, sa);
    } else if j + b_start.len() > m {
        if j < pe {
            lemma_tags_apart(new, b_start, a_end, j, pe);
        } else if j == pe {
            lemma_tags_distinct(new, a_end, b_start, pe);
        } else {
            lemma_tags_apart(new, a_end, b_start, pe, j);
        }
    }
}

/// The section block starts with its start marker and ends with its end
/// marker.
proof fn lemma_block_ends(start: Seq<char>, end: Seq<char>, inner: Seq<char>)
    ensures
        section_block(start, end, inner).len() >= start.len() + end.len(),
        section_block(start, end, inner).subrange(0, start.len() as int) == start,
        section_block(start, end, inner).subrange(
            section_block(start, end, inner).len() - end.len(),
            section_block(start, end, inner).len() as int,
        ) == end,
{
    let block = section_block(start, end, inner);
    assert(block.subrange(0, start.len() as int) =~= start);
    assert(block.subrange(block.len() - end.len(), block.len() as int) =~= end);
}

/// The replaced section lies before the other one.
#[verifier::spinoff_prover]
proof fn lemma_keeps_later_section(
    body: Seq<char>,
    a_start: Seq<char>,
    a_end: Seq<char>,
    inner: Seq<char>,
    b_start: Seq<char>,
    b_end: Seq<char>,
    sa: int,
    ea: int,
    sb: int,
    eb: int,
)
    requires
        tag_marker(a_start),
        tag_marker(a_end),
        tag_marker(b_start),
        tag_marker(b_end),
        markers_differ(b_start, b_end),
        markers_differ(a_end, b_start),
        section_span(body, b_start, b_end) == Some((sb, eb)),
        section_span(body, a_start, a_end) == Some((sa, ea)),
        ea <= sb,
        !crate::text::contains(section_block(a_start, a_end, inner), b_start),
    ensures
        ({
            let d = sa + section_block(a_start, a_end, inner).len() - ea;
            &&& section_span(upserted(body, a_start, a_end, inner), b_start, b_end) == Some((sb + d, eb + d))
            &&& upserted(body, a_start, a_end, inner).subrange(sb + d, eb + d) == body.subrange(sb, eb)
        }),
{
    lemma_span_shape(body, b_start, b_end, sb, eb);
    crate::text::lemma_find_from_sound(body, a_start, 0);
    crate::text::lemma_find_from_sound(body, a_end, sa);
    let block = section_block(a_start, a_end, inner);
    lemma_block_ends(a_start, a_end, inner);
    let new = upserted(body, a_start, a_end, inner);
    let pre = body.subrange(0, sa);
    let post = body.subrange(ea, body.len() as int);
    assert(new =~= pre + block + post);
    let m = sa + block.len();
    let d = m - ea;
    assert(new.subrange(sa, m) =~= block);
    assert forall|t: int| ea <= t < body.len() implies #[trigger] body[t] == new[t + d] by {
        assert(new[t + d] == post[t - ea]);
    }
    assert forall|t: int| 0 <= t < sa implies #[trigger] body[t] == new[t + 0] by {
        assert(new[t] == pre[t]);
    }
    assert forall|j: int| 0 <= j < ea + d implies !occurs_at(new, b_start, j) by {
        if occurs_at(new, b_start, j) {
            if j + b_start.len() <= sa {
                lemma_occurs_shifted(new, body, b_start, j, 0, 0, sa);
            } else {
                lemma_no_tag_across_block(new, block, sa, a_start, a_end, b_start, j);
                assert(new.subrange(j, j + b_start.len()) =~= block.subrange(
                    j - sa,
                    j - sa + b_start.len(),
                ));
                assert(occurs_at(block, b_start, j - sa));
            }
        }
    }
    lemma_span_moved(body, new, b_start, b_end, sb, eb, d, ea, body.len() as int);
}

/// Upserting one section leaves another section of marker tags as it was,
/// when the two do not interleave and the block written does not carry the
/// other section's start marker.
#[verifier::spinoff_prover]
pub proof fn lemma_upsert_keeps_section(
    body: Seq<char>,
    a_start: Seq<char>,
    a_end: Seq<char>,
    inner: Seq<char>,
    b_start: Seq<char>,
    b_end: Seq<char>,
)
    requires
        tag_marker(a_start),
        tag_marker(a_end),
        tag_marker(b_start),
        tag_marker(b_end),
        markers_differ(b_start, b_end),
        markers_differ(a_end, b_start),
        section_span(body, b_start, b_end) is Some,
        sections_apart(body, a_start, a_end, b_start, b_end),
        !crate::text::contains(section_block(a_start, a_end, inner), b_start),
    ensures
        extracted(upserted(body, a_start, a_end, inner), b_start, b_end) == extracted(
            body,
            b_start,
            b_end,
        ),
        section_span(upserted(body, a_start, a_end, inner), b_start, b_end) is Some,
{
    let (sb, eb) = section_span(body, b_start, b_end).unwrap();
    lemma_span_shape(body, b_start, b_end, sb, eb);
    let block = section_block(a_start, a_end, inner);
    let new = upserted(body, a_start, a_end, inner);
    match section_span(body, a_start, a_end) {
        Some((sa, ea)) => {
            if eb <= sa {
                crate::text::lemma_find_from_sound(body, a_start, 0);
                let pre = body.subrange(0, sa);
                assert(new =~= pre + block + body.subrange(ea, body.len() as int));
                assert forall|t: int| 0 <= t < sa implies #[trigger] body[t] == new[t + 0] by {
                    assert(new[t] == pre[t]);
                }
                lemma_span_moved(body, new, b_start, b_end, sb, eb, 0, 0, sa);
            } else {
                lemma_keeps_later_section(body, a_start, a_end, inner, b_start, b_end, sa, ea, sb, eb);
            }
        },
        None => {
            let tb = trim_end(body);
            crate::text::lemma_trim_end_bounds(body, 0, body.len() as int);
            assert(body[eb - 1] == b_end[b_end.len() - 1]) by {
                assert(body.subrange(eb - b_end.len(), eb)[b_end.len() - 1] == body[eb - 1]);
            }
            lemma_trim_end_keeps(body, body.len() as int, eb);
            assert(new =~= tb + "\n\n"@ + block + "\n"@);
            assert forall|t: int| 0 <= t < tb.len() implies #[trigger] body[t] == new[t + 0] by {
                assert(new[t] == tb[t]);
            }
            lemma_span_moved(body, new, b_start, b_end, sb, eb, 0, 0, tb.len() as int);
        },
    }
}

// ---------------------------------------------------------------------------
// Rebuilding the comment keeps each section
// ---------------------------------------------------------------------------
/// The lines a rebuilt comment starts with: marker, blank line, header.
pub open spec fn comment_top(body: Seq<char>) -> Seq<Seq<char>> {
    seq![COMMENT_MARKER@, ""@, comment_header(suite_metas(body))]
}

/// The markers the comment's sections use are marker tags, and each pair the
/// laws below compare differs.
pub proof fn lemma_section_markers()
    ensures
        tag_marker(PROXY_SECTION_START@),
        tag_marker(PROXY_SECTION_END@),
        tag_marker(HNSW_SECTION_START@),
        tag_marker(HNSW_SECTION_END@),
        tag_marker(ENV_SECTION_START@),
        tag_marker(ENV_SECTION_END@),
        markers_differ(PROXY_SECTION_START@, PROXY_SECTION_END@),
        markers_differ(HNSW_SECTION_START@, HNSW_SECTION_END@),
        markers_differ(PROXY_SECTION_END@, HNSW_SECTION_START@),
        markers_differ(ENV_SECTION_END@, HNSW_SECTION_START@),
        markers_differ(HNSW_SECTION_END@, PROXY_SECTION_START@),
        markers_differ(ENV_SECTION_END@, PROXY_SECTION_START@),
{
    reveal_strlit("<!-- IBEX_PROXY_START -->");
    reveal_strlit("<!-- IBEX_PROXY_END -->");
    reveal_strlit("<!-- IBEX_HNSW_START -->");
    reveal_strlit("<!-- IBEX_HNSW_END -->");
    reveal_strlit("<!-- IBEX_ENV_START -->");
    reveal_strlit("<!-- IBEX_ENV_END -->");
    let ps = PROXY_SECTION_START@;
    let pe = PROXY_SECTION_END@;
    let hs = HNSW_SECTION_START@;
    let he = HNSW_SECTION_END@;
    let es = ENV_SECTION_START@;
    let ee = ENV_SECTION_END@;
    assert(ps[16] != pe[16]);
    assert(hs[15] != he[15]);
    assert(pe[10] != hs[10]);
    assert(ee[10] != hs[10]);
    assert(he[10] != ps[10]);
    assert(ee[10] != ps[10]);
}

/// A section of marker tags, read back, is the stretch between its markers
/// as it stands: trimming takes nothing off.
#[verifier::spinoff_prover]
proof fn lemma_extracted_whole(body: Seq<char>, s: Seq<char>, e: Seq<char>, sb: int, eb: int)
    requires
        tag_marker(s),
        tag_marker(e),
        markers_differ(s, e),
        section_span(body, s, e) == Some((sb, eb)),
    ensures
        0 <= sb <= eb <= body.len(),
        extracted(body, s, e) == Some(body.subrange(sb, eb)),
        occurs_at(body.subrange(sb, eb), s, 0),
        find_from(body.subrange(sb, eb), e, 0) == Some(eb - sb - e.len()),
        trim(body.subrange(sb, eb)) == body.subrange(sb, eb),
{
    lemma_span_shape(body, s, e, sb, eb);
    let b = body.subrange(sb, eb);
    assert forall|t: int| sb <= t < eb implies #[trigger] body[t] == b[t + (-sb)] by {}
    lemma_occurs_shifted(b, body, s, sb, -sb, sb, eb);
    let ei = eb - e.len();
    lemma_occurs_shifted(b, body, e, ei, -sb, sb, eb);
    assert forall|j: int| 0 <= j < ei - sb implies !occurs_at(b, e, j) by {
        lemma_occurs_shifted(b, body, e, sb + j, -sb, sb, eb);
    }
    lemma_find_from_at(b, e, 0, ei - sb);
    assert(b[0] == s[0]) by {
        assert(body.subrange(sb, sb + s.len())[0] == body[sb]);
    }
    assert(b[b.len() - 1] == e[e.len() - 1]) by {
        assert(body.subrange(ei, eb)[e.len() - 1] == body[eb - 1]);
    }
    lemma_trim_whole(b);
}

/// Before a block placed after a head and a blank line, a one-line marker
/// occurs only where the head carries it.
proof fn lemma_no_marker_in_head(text: Seq<char>, core: Seq<char>, s: Seq<char>, j: int)
    requires
        tag_marker(s),
        !crate::text::contains(core, s),
        text.len() >= core.len() + 2,
        text.subrange(0, core.len() as int) == core,
        text[core.len() as int] == '\n',
        text[core.len() + 1int] == '\n',
        0 <= j < core.len() + 2,
    ensures
        !occurs_at(text, s, j),
{
    if occurs_at(text, s, j) {
        if j + s.len() <= core.len() {
            assert(text.subrange(j, j + s.len()) =~= core.subrange(j, j + s.len())) by {
                assert forall|t: int| 0 <= t < s.len() implies #[trigger] text.subrange(j, j + s.len())[t]
                    == core.subrange(j, j + s.len())[t] by {
                    assert(text.subrange(0, core.len() as int)[j + t] == text[j + t]);
                }
            }
            assert(occurs_at(core, s, j));
        } else {
            let q: int = if j <= core.len() {
                core.len() as int
            } else {
                j
            };
            assert(text.subrange(j, j + s.len())[q - j] == text[q]);
            assert(s[q - j] != '\n');
        }
    }
}

/// A section block placed after a head and a blank line is what is read
/// back, when the head does not carry its start marker.
#[verifier::spinoff_prover]
proof fn lemma_extract_after_head(core: Seq<char>, b: Seq<char>, post: Seq<char>, s: Seq<char>, e: Seq<char>)
    requires
        tag_marker(s),
        tag_marker(e),
        !crate::text::contains(core, s),
        occurs_at(b, s, 0),
        find_from(b, e, 0) == Some(b.len() - e.len()),
        trim(b) == b,
    ensures
        extracted(core + "\n\n"@ + b + post, s, e) == Some(b),
{
    reveal_strlit("\n\n");
    let text = core + "\n\n"@ + b + post;
    let p: int = core.len() + 2int;
    assert(text.subrange(0, core.len() as int) =~= core);
    assert(text[core.len() as int] == '\n');
    assert(text[core.len() + 1int] == '\n');
    assert forall|j: int| 0 <= j < p implies !occurs_at(text, s, j) by {
        lemma_no_marker_in_head(text, core, s, j);
    }
    crate::text::lemma_find_from_sound(b, e, 0);
    assert forall|t: int| 0 <= t < b.len() implies #[trigger] b[t] == text[t + p] by {}
    lemma_occurs_shifted(text, b, s, 0, p, 0, b.len() as int);
    lemma_find_from_at(text, s, 0, p);
    let ei: int = b.len() - e.len();
    lemma_occurs_shifted(text, b, e, ei, p, 0, b.len() as int);
    assert forall|j: int| p <= j < ei + p implies !occurs_at(text, e, j) by {
        lemma_occurs_shifted(text, b, e, j - p, p, 0, b.len() as int);
    }
    lemma_find_from_at(text, e, p, ei + p);
    assert(text.subrange(p, p + b.len()) =~= b);
}

/// The comment rebuilt from a body that has an HNSW section holds that
/// section unchanged, when neither the header nor the proxy section carries
/// the HNSW start marker.
#[verifier::spinoff_prover]
pub proof fn lemma_rebuilt_keeps_hnsw(body: Seq<char>)
    requires
        section_span(body, HNSW_SECTION_START@, HNSW_SECTION_END@) is Some,
        !crate::text::contains(
            join(
                comment_top(body) + section_lines(extracted(body, PROXY_SECTION_START@, PROXY_SECTION_END@)),
                "\n"@,
            ),
            HNSW_SECTION_START@,
        ),
    ensures
        extracted(rebuilt_comment(body), HNSW_SECTION_START@, HNSW_SECTION_END@) == extracted(
            body,
            HNSW_SECTION_START@,
            HNSW_SECTION_END@,
        ),
{
    lemma_section_markers();
    let (sb, eb) = section_span(body, HNSW_SECTION_START@, HNSW_SECTION_END@).unwrap();
    lemma_extracted_whole(body, HNSW_SECTION_START@, HNSW_SECTION_END@, sb, eb);
    let b = body.subrange(sb, eb);
    let head = comment_top(body) + section_lines(extracted(body, PROXY_SECTION_START@, PROXY_SECTION_END@));
    let tail = section_lines(extracted(body, ENV_SECTION_START@, ENV_SECTION_END@)) + seq![""@, comment_footer()];
    let parts = seq![COMMENT_MARKER@, ""@, comment_header(suite_metas(body))]
        + section_lines(extracted(body, PROXY_SECTION_START@, PROXY_SECTION_END@))
        + section_lines(extracted(body, HNSW_SECTION_START@, HNSW_SECTION_END@))
        + section_lines(extracted(body, ENV_SECTION_START@, ENV_SECTION_END@))
        + seq![""@, comment_footer()];
    let mid = seq![""@, b];
    assert(parts =~= head + (mid + tail));
    crate::markdown::lemma_join_append(head, mid + tail, "\n"@);
    crate::markdown::lemma_join_append(mid, tail, "\n"@);
    crate::markdown::lemma_join_append(seq![""@], seq![b], "\n"@);
    assert(seq![""@] + seq![b] =~= mid);
    assert(join(seq![""@], "\n"@) == ""@);
    assert(join(seq![b], "\n"@) == b);
    let core = join(head, "\n"@);
    let post = "\n"@ + join(tail, "\n"@);
    assert(rebuilt_comment(body) =~= core + "\n\n"@ + b + post) by {
        reveal_strlit("\n\n");
        reveal_strlit("\n");
        reveal_strlit("");
    }
    lemma_extract_after_head(core, b, post, HNSW_SECTION_START@, HNSW_SECTION_END@);
}

/// The comment rebuilt from a body that has a proxy section holds that
/// section unchanged, when the header does not carry the proxy start marker.
#[verifier::spinoff_prover]
pub proof fn lemma_rebuilt_keeps_proxy(body: Seq<char>)
    requires
        section_span(body, PROXY_SECTION_START@, PROXY_SECTION_END@) is Some,
        !crate::text::contains(join(comment_top(body), "\n"@), PROXY_SECTION_START@),
    ensures
        extracted(rebuilt_comment(body), PROXY_SECTION_START@, PROXY_SECTION_END@) == extracted(
            body,
            PROXY_SECTION_START@,
            PROXY_SECTION_END@,
        ),
{
    lemma_section_markers();
    let (sb, eb) = section_span(body, PROXY_SECTION_START@, PROXY_SECTION_END@).unwrap();
    lemma_extracted_whole(body, PROXY_SECTION_START@, PROXY_SECTION_END@, sb, eb);
    let b = body.subrange(sb, eb);
    let head = comment_top(body);
    let tail = section_lines(extracted(body, HNSW_SECTION_START@, HNSW_SECTION_END@))
        + section_lines(extracted(body, ENV_SECTION_START@, ENV_SECTION_END@)) + seq![""@, comment_footer()];
    let parts = seq![COMMENT_MARKER@, ""@, comment_header(suite_metas(body))]
        + section_lines(extracted(body, PROXY_SECTION_START@, PROXY_SECTION_END@))
        + section_lines(extracted(body, HNSW_SECTION_START@, HNSW_SECTION_END@))
        + section_lines(extracted(body, ENV_SECTION_START@, ENV_SECTION_END@))
        + seq![""@, comment_footer()];
    let mid = seq![""@, b];
    assert(parts =~= head + (mid + tail));
    crate::markdown::lemma_join_append(head, mid + tail, "\n"@);
    crate::markdown::lemma_join_append(mid, tail, "\n"@);
    crate::markdown::lemma_join_append(seq![""@], seq![b], "\n"@);
    assert(seq![""@] + seq![b] =~= mid);
    assert(join(seq![""@], "\n"@) == ""@);
    assert(join(seq![b], "\n"@) == b);
    let core = join(head, "\n"@);
    let post = "\n"@ + join(tail, "\n"@);
    assert(rebuilt_comment(body) =~= core + "\n\n"@ + b + post) by {
        reveal_strlit("\n\n");
        reveal_strlit("\n");
        reveal_strlit("");
    }
    lemma_extract_after_head(core, b, post, PROXY_SECTION_START@, PROXY_SECTION_END@);
}

// ---------------------------------------------------------------------------
// Merging into the bot's own comment
// ---------------------------------------------------------------------------
/// Replacing a pattern that does not occur changes nothing.
proof fn lemma_replace_absent(s: Seq<char>, pat: Seq<char>, rep: Seq<char>)
    requires
        pat.len() > 0,
        !crate::text::contains(s, pat),
    ensures
        replace_all(s, pat, rep) == s,
{
    crate::text::lemma_contains_iff_find(s, pat);
    assert(s.subrange(0, s.len() as int) =~= s);
}

/// Trimming a text that starts and ends with non-white-space takes nothing
/// off.
proof fn lemma_trim_whole(b: Seq<char>)
    requires
        b.len() > 0,
        !crate::text::is_ws_char(b[0]),
        !crate::text::is_ws_char(b[b.len() - 1]),
    ensures
        trim(b) == b,
{
    assert(crate::text::trim_start_from(b, 0) == 0);
    assert(crate::text::trim_end_from(b, 0, b.len() as int) == b.len());
    assert(b.subrange(0, b.len() as int) =~= b);
}

/// The shell of a rebuilt comment is the comment itself, when the comment
/// does not carry the old HNSW comment marker.
pub proof fn lemma_shell_of_rebuilt(body: Seq<char>)
    requires
        !crate::text::contains(rebuilt_comment(body), COMMENT_MARKER_HNSW@),
    ensures
        comment_shell(rebuilt_comment(body)) == rebuilt_comment(body),
{
    reveal_strlit("<!-- IBEX_BOT_COMMENT_HNSW -->");
    reveal_strlit("<!-- IBEX_BOT_COMMENT -->");
    reveal_strlit("\n");
    let c = rebuilt_comment(body);
    lemma_replace_absent(c, COMMENT_MARKER_HNSW@, COMMENT_MARKER@);
    lemma_rebuilt_comment_starts_with_marker(body);
    let m = COMMENT_MARKER@;
    assert(c.subrange(0, (m + "\n"@).len() as int) == m + "\n"@);
    assert(c.subrange(0, m.len() as int) =~= m) by {
        assert forall|t: int| 0 <= t < m.len() implies #[trigger] c.subrange(0, m.len() as int)[t] == m[t] by {
            assert(c.subrange(0, (m + "\n"@).len() as int)[t] == (m + "\n"@)[t]);
        }
    }
    assert(occurs_at(c, m, 0));
}

/// Upserting a section into a body whose section already is that block
/// changes nothing.
pub proof fn lemma_upsert_same_block(body: Seq<char>, start: Seq<char>, end: Seq<char>, inner: Seq<char>)
    requires
        tag_marker(start),
        tag_marker(end),
        markers_differ(start, end),
        extracted(body, start, end) == Some(section_block(start, end, inner)),
    ensures
        upserted(body, start, end, inner) == body,
{
    let (si, ej) = section_span(body, start, end).unwrap();
    lemma_extracted_whole(body, start, end, si, ej);
    assert(body =~= body.subrange(0, si) + body.subrange(si, ej) + body.subrange(ej, body.len() as int));
}

/// A section block of marker tags is its own trim.
pub proof fn lemma_block_trimmed(start: Seq<char>, end: Seq<char>, inner: Seq<char>)
    requires
        tag_marker(start),
        tag_marker(end),
    ensures
        trim(section_block(start, end, inner)) == section_block(start, end, inner),
{
    let b = section_block(start, end, inner);
    lemma_block_ends(start, end, inner);
    assert(b[0] == start[0]) by {
        assert(b.subrange(0, start.len() as int)[0] == b[0]);
    }
    assert(b[b.len() - 1] == end[end.len() - 1]) by {
        assert(b.subrange(b.len() - end.len(), b.len() as int)[end.len() - 1] == b[b.len() - 1]);
    }
    lemma_trim_whole(b);
}

} // verus!
