//! Sanitisers for values that end up in PR comments and data PR bodies.
//!
//! Each allow-list is a character class repeated between two bounds; the
//! checks below are those grammars written out.

use vstd::prelude::*;

use crate::text::{
    chars_of, is_control_char, string_of, strip_control_chars, strip_controls, trim, trim_chars,
};

verus! {

pub const COMMENT_MARKER: &'static str = "<!-- IBEX_BOT_COMMENT -->";

pub const COMMENT_MARKER_HNSW: &'static str = "<!-- IBEX_BOT_COMMENT_HNSW -->";

pub const PROXY_SECTION_START: &'static str = "<!-- IBEX_PROXY_START -->";

pub const PROXY_SECTION_END: &'static str = "<!-- IBEX_PROXY_END -->";

pub const HNSW_SECTION_START: &'static str = "<!-- IBEX_HNSW_START -->";

pub const HNSW_SECTION_END: &'static str = "<!-- IBEX_HNSW_END -->";

pub const ENV_SECTION_START: &'static str = "<!-- IBEX_ENV_START -->";

pub const ENV_SECTION_END: &'static str = "<!-- IBEX_ENV_END -->";

pub const SUITE_META_PREFIX: &'static str = "<!-- IBEX_SUITE|";

/// The character classes of the allow-lists.
#[derive(Clone, Copy, PartialEq, Eq, Debug)]
pub enum CharClass {
    /// `[0-9a-f]`
    LowerHex,
    /// `[a-zA-Z0-9._/-]`
    BranchName,
    /// `[a-zA-Z0-9 %()._/-]`
    GateName,
}

pub open spec fn ascii_alnum(c: char) -> bool {
    ('a' <= c && c <= 'z') || ('A' <= c && c <= 'Z') || ('0' <= c && c <= '9')
}

pub open spec fn in_class(c: char, class: CharClass) -> bool {
    match class {
        CharClass::LowerHex => ('0' <= c && c <= '9') || ('a' <= c && c <= 'f'),
        CharClass::BranchName => ascii_alnum(c) || c == '.' || c == '_' || c == '/' || c == '-',
        CharClass::GateName => ascii_alnum(c) || c == ' ' || c == '%' || c == '(' || c == ')'
            || c == '.' || c == '_' || c == '/' || c == '-',
    }
}

/// `^[class]{min,max}$`
pub open spec fn class_run(s: Seq<char>, class: CharClass, min: nat, max: nat) -> bool {
    &&& min <= s.len() <= max
    &&& forall|i: int| 0 <= i < s.len() ==> in_class(#[trigger] s[i], class)
}

fn char_in_class(c: char, class: CharClass) -> (r: bool)
    ensures
        r == in_class(c, class),
{
    let alnum = ('a' <= c && c <= 'z') || ('A' <= c && c <= 'Z') || ('0' <= c && c <= '9');
    match class {
        CharClass::LowerHex => ('0' <= c && c <= '9') || ('a' <= c && c <= 'f'),
        CharClass::BranchName => alnum || c == '.' || c == '_' || c == '/' || c == '-',
        CharClass::GateName => alnum || c == ' ' || c == '%' || c == '(' || c == ')' || c == '.'
            || c == '_' || c == '/' || c == '-',
    }
}

/// Whether `v` matches `^[class]{min,max}$`.
pub fn matches_class_run(v: &[char], class: CharClass, min: usize, max: usize) -> (r: bool)
    ensures
        r == class_run(v@, class, min as nat, max as nat),
{
    if v.len() < min || v.len() > max {
        return false;
    }
    let mut i: usize = 0;
    while i < v.len()
        invariant
            i <= v@.len(),
            forall|k: int| 0 <= k < i ==> in_class(#[trigger] v@[k], class),
        decreases v.len() - i,
    {
        if !char_in_class(v[i], class) {
            return false;
        }
        i = i + 1;
    }
    true
}

/// The text of a cell once markdown-significant characters are neutralised.
pub open spec fn escape_inline_char(c: char) -> Seq<char> {
    if c == '|' {
        seq!['\\', '|']
    } else if c == '\n' || c == '\r' {
        seq![' ']
    } else if c == '[' || c == ']' || c == '<' || c == '>' || c == '`' {
        seq!['`', c, '`']
    } else {
        seq![c]
    }
}

pub open spec fn escape_inline(s: Seq<char>) -> Seq<char>
    decreases s.len(),
{
    if s.len() == 0 {
        Seq::empty()
    } else {
        escape_inline(s.drop_last()) + escape_inline_char(s.last())
    }
}

/// Escapes `|`, turns line breaks into spaces and wraps link and tag
/// characters in backticks.
pub fn escape_markdown_inline(v: &[char]) -> (r: Vec<char>)
    ensures
        r@ == escape_inline(v@),
{
    let mut out: Vec<char> = Vec::new();
    let mut k: usize = 0;
    while k < v.len()
        invariant
            k <= v@.len(),
            out@ == escape_inline(v@.subrange(0, k as int)),
        decreases v.len() - k,
    {
        let c = v[k];
        assert(v@.subrange(0, k + 1).drop_last() == v@.subrange(0, k as int));
        if c == '|' {
            out.push('\\');
            out.push('|');
        } else if c == '\n' || c == '\r' {
            out.push(' ');
        } else if c == '[' || c == ']' || c == '<' || c == '>' || c == '`' {
            out.push('`');
            out.push(c);
            out.push('`');
        } else {
            out.push(c);
        }
        k = k + 1;
        assert(out@ =~= escape_inline(v@.subrange(0, k as int)));
    }
    assert(v@.subrange(0, v@.len() as int) == v@);
    out
}

pub open spec fn dash() -> Seq<char> {
    "—"@
}

/// What `sanitize_sha` shows: `unknown` when absent, the trimmed SHA when it
/// is 7 to 40 lower-case hex digits, `invalid` otherwise.
pub open spec fn sanitized_sha(value: Option<Seq<char>>) -> Seq<char> {
    match value {
        None => "unknown"@,
        Some(v) => {
            let t = strip_controls(trim(v));
            if class_run(t, CharClass::LowerHex, 7, 40) {
                t
            } else {
                "invalid"@
            }
        },
    }
}

pub fn sanitize_sha(value: Option<&str>) -> (r: String)
    ensures
        r@ == sanitized_sha(
            match value {
                Some(v) => Some(v@),
                None => None,
            },
        ),
{
    let v = match value {
        None => return String::from_str("unknown"),
        Some(v) => v,
    };
    let chars = chars_of(v);
    let trimmed = strip_control_chars(trim_chars(chars.as_slice()).as_slice());
    if matches_class_run(trimmed.as_slice(), CharClass::LowerHex, 7, 40) {
        string_of(trimmed.as_slice())
    } else {
        String::from_str("invalid")
    }
}

/// What `sanitize_branch` shows: the trimmed name when it is 1 to 200
/// characters of `[a-zA-Z0-9._/-]`, `unknown` otherwise.
pub open spec fn sanitized_branch(value: Seq<char>) -> Seq<char> {
    let t = strip_controls(trim(value));
    if class_run(t, CharClass::BranchName, 1, 200) {
        t
    } else {
        "unknown"@
    }
}

pub fn sanitize_branch(value: &str) -> (r: String)
    ensures
        r@ == sanitized_branch(value@),
{
    let chars = chars_of(value);
    let trimmed = strip_control_chars(trim_chars(chars.as_slice()).as_slice());
    if matches_class_run(trimmed.as_slice(), CharClass::BranchName, 1, 200) {
        string_of(trimmed.as_slice())
    } else {
        String::from_str("unknown")
    }
}

/// What `sanitize_gate_name` shows: a dash when absent or blank, the escaped
/// name when it is 1 to 120 characters of `[a-zA-Z0-9 %()._/-]`, `invalid`
/// otherwise.
pub open spec fn sanitized_gate_name(value: Option<Seq<char>>) -> Seq<char> {
    match value {
        None => dash(),
        Some(v) => {
            let t = strip_controls(trim(v));
            if t.len() == 0 {
                dash()
            } else if class_run(t, CharClass::GateName, 1, 120) {
                escape_inline(t)
            } else {
                "invalid"@
            }
        },
    }
}

pub fn sanitize_gate_name(value: Option<&str>) -> (r: String)
    ensures
        r@ == sanitized_gate_name(
            match value {
                Some(v) => Some(v@),
                None => None,
            },
        ),
{
    let v = match value {
        None => return String::from_str("—"),
        Some(v) => v,
    };
    let chars = chars_of(v);
    let trimmed = strip_control_chars(trim_chars(chars.as_slice()).as_slice());
    if trimmed.len() == 0 {
        return String::from_str("—");
    }
    if matches_class_run(trimmed.as_slice(), CharClass::GateName, 1, 120) {
        string_of(escape_markdown_inline(trimmed.as_slice()).as_slice())
    } else {
        String::from_str("invalid")
    }
}

/// What `escape_cell` shows: a dash when absent, else the text without
/// control characters (tab kept) and with markdown escaped.
pub open spec fn escaped_cell(value: Option<Seq<char>>) -> Seq<char> {
    match value {
        None => dash(),
        Some(t) => escape_inline(strip_controls(t)),
    }
}

pub fn escape_cell(value: Option<&str>) -> (r: String)
    ensures
        r@ == escaped_cell(
            match value {
                Some(v) => Some(v@),
                None => None,
            },
        ),
{
    match value {
        None => String::from_str("—"),
        Some(text) => {
            let chars = chars_of(text);
            let stripped = strip_control_chars(chars.as_slice());
            string_of(escape_markdown_inline(stripped.as_slice()).as_slice())
        },
    }
}

pub open spec fn status_emoji_spec(status: Seq<char>) -> Seq<char> {
    if status == "pass"@ {
        "✅"@
    } else if status == "regression"@ {
        "⚠️"@
    } else if status == "fail"@ {
        "❌"@
    } else {
        "❔"@
    }
}

pub fn status_emoji(status: &str) -> (r: &'static str)
    ensures
        r@ == status_emoji_spec(status@),
{
    if crate::text::eq_str(status, "pass") {
        "✅"
    } else if crate::text::eq_str(status, "regression") {
        "⚠️"
    } else if crate::text::eq_str(status, "fail") {
        "❌"
    } else {
        "❔"
    }
}

// ---------------------------------------------------------------------------
// Shapes of sanitised values
// ---------------------------------------------------------------------------
/// No character of the escaped text is a line break.
pub proof fn lemma_escape_inline_no_line_breaks(s: Seq<char>)
    ensures
        forall|i: int|
            0 <= i < escape_inline(s).len() ==> #[trigger] escape_inline(s)[i] != '\n'
                && escape_inline(s)[i] != '\r',
    decreases s.len(),
{
    if s.len() > 0 {
        lemma_escape_inline_no_line_breaks(s.drop_last());
        let p = escape_inline(s.drop_last());
        let q = escape_inline_char(s.last());
        assert forall|i: int| 0 <= i < (p + q).len() implies #[trigger] (p + q)[i] != '\n' && (p
            + q)[i] != '\r' by {
            if i >= p.len() {
                assert((p + q)[i] == q[i - p.len()]);
            } else {
                assert((p + q)[i] == p[i]);
            }
        }
    }
}

/// The characters kept by `strip_controls` are tabs or not control
/// characters.
pub proof fn lemma_strip_controls_kept(s: Seq<char>)
    ensures
        forall|i: int|
            0 <= i < strip_controls(s).len() ==> !is_control_char(#[trigger] strip_controls(s)[i])
                || strip_controls(s)[i] == '\t',
    decreases s.len(),
{
    if s.len() > 0 {
        lemma_strip_controls_kept(s.drop_last());
        let rest = strip_controls(s.drop_last());
        assert forall|i: int| 0 <= i < strip_controls(s).len() implies !is_control_char(
            #[trigger] strip_controls(s)[i],
        ) || strip_controls(s)[i] == '\t' by {
            if i < rest.len() {
                assert(strip_controls(s)[i] == rest[i]);
            }
        }
    }
}

/// Escaping adds no control character.
pub proof fn lemma_escape_inline_clean(s: Seq<char>)
    requires
        forall|i: int| 0 <= i < s.len() ==> !is_control_char(#[trigger] s[i]) || s[i] == '\t',
    ensures
        forall|i: int|
            0 <= i < escape_inline(s).len() ==> !is_control_char(#[trigger] escape_inline(s)[i])
                || escape_inline(s)[i] == '\t',
    decreases s.len(),
{
    if s.len() > 0 {
        assert forall|i: int| 0 <= i < s.drop_last().len() implies !is_control_char(
            #[trigger] s.drop_last()[i],
        ) || s.drop_last()[i] == '\t' by {
            assert(s.drop_last()[i] == s[i]);
        }
        lemma_escape_inline_clean(s.drop_last());
        let p = escape_inline(s.drop_last());
        let q = escape_inline_char(s.last());
        assert(!is_control_char(s[s.len() - 1]) || s[s.len() - 1] == '\t');
        assert forall|i: int| 0 <= i < (p + q).len() implies !is_control_char(#[trigger] (p + q)[i])
            || (p + q)[i] == '\t' by {
            if i >= p.len() {
                assert((p + q)[i] == q[i - p.len()]);
            } else {
                assert((p + q)[i] == p[i]);
            }
        }
    }
}

proof fn lemma_escape_keeps_plain(t: Seq<char>)
    requires
        forall|i: int| 0 <= i < t.len() ==> in_class(#[trigger] t[i], CharClass::GateName),
    ensures
        escape_inline(t) == t,
    decreases t.len(),
{
    if t.len() > 0 {
        assert forall|i: int| 0 <= i < t.drop_last().len() implies in_class(
            #[trigger] t.drop_last()[i],
            CharClass::GateName,
        ) by {
            assert(t.drop_last()[i] == t[i]);
        }
        lemma_escape_keeps_plain(t.drop_last());
        assert(in_class(t[t.len() - 1], CharClass::GateName));
        assert(t.drop_last().push(t.last()) =~= t);
    }
}

/// A gate name is shown as a dash, as `invalid`, or as 1 to 120 characters
/// of `[a-zA-Z0-9 %()._/-]`: no markdown link, tag, table pipe or line break
/// can come through it.
pub proof fn lemma_gate_name_shape(value: Option<Seq<char>>)
    ensures
        sanitized_gate_name(value) == "—"@ || sanitized_gate_name(value) == "invalid"@ || (1
            <= sanitized_gate_name(value).len() <= 120 && forall|i: int|
            0 <= i < sanitized_gate_name(value).len() ==> {
                let c = #[trigger] sanitized_gate_name(value)[i];
                ('a' <= c && c <= 'z') || ('A' <= c && c <= 'Z') || ('0' <= c && c <= '9') || c == ' '
                    || c == '%' || c == '(' || c == ')' || c == '.' || c == '_' || c == '/' || c == '-'
            }),
{
    if let Some(v) = value {
        let t = strip_controls(trim(v));
        if t.len() != 0 && class_run(t, CharClass::GateName, 1, 120) {
            lemma_escape_keeps_plain(t);
        }
    }
}

/// A sanitised SHA is `unknown`, `invalid`, or 7 to 40 lower-case hex digits.
pub proof fn lemma_sanitized_sha_shape(value: Option<Seq<char>>)
    ensures
        sanitized_sha(value) == "unknown"@ || sanitized_sha(value) == "invalid"@ || class_run(
            sanitized_sha(value),
            CharClass::LowerHex,
            7,
            40,
        ),
{
}

/// A cell never breaks the table row it is placed in: it has no line break,
/// and no control character but tab.
pub proof fn lemma_escaped_cell_single_line(value: Option<Seq<char>>)
    ensures
        forall|i: int|
            0 <= i < escaped_cell(value).len() ==> #[trigger] escaped_cell(value)[i] != '\n'
                && escaped_cell(value)[i] != '\r',
        forall|i: int|
            0 <= i < escaped_cell(value).len() ==> !is_control_char(#[trigger] escaped_cell(value)[i])
                || escaped_cell(value)[i] == '\t',
{
    match value {
        None => {
            reveal_strlit("—");
        },
        Some(t) => {
            lemma_escape_inline_no_line_breaks(strip_controls(t));
            lemma_strip_controls_kept(t);
            lemma_escape_inline_clean(strip_controls(t));
        },
    }
}

} // verus!
