//! Joining lines and building markdown tables.

use vstd::prelude::*;

use crate::sanitize::{escape_cell, escaped_cell};

verus! {

/// `parts` joined with `sep` between consecutive parts (`[T]::join`).
pub open spec fn join(parts: Seq<Seq<char>>, sep: Seq<char>) -> Seq<char>
    decreases parts.len(),
{
    if parts.len() == 0 {
        Seq::empty()
    } else if parts.len() == 1 {
        parts[0]
    } else {
        join(parts.drop_last(), sep) + sep + parts.last()
    }
}

/// Joining two or more parts starts with the first part and the separator.
pub proof fn lemma_join_starts_with(parts: Seq<Seq<char>>, sep: Seq<char>)
    requires
        parts.len() >= 2,
    ensures
        join(parts, sep).len() >= parts[0].len() + sep.len(),
        join(parts, sep).subrange(0, (parts[0].len() + sep.len()) as int) == parts[0] + sep,
    decreases parts.len(),
{
    let d = parts.drop_last();
    if parts.len() == 2 {
        assert(d.len() == 1);
        assert(join(d, sep) == d[0]);
        assert(join(parts, sep).subrange(0, (parts[0].len() + sep.len()) as int) =~= parts[0] + sep);
    } else {
        lemma_join_starts_with(d, sep);
        let j = join(d, sep);
        assert(join(parts, sep) == j + sep + parts.last());
        assert(join(parts, sep).subrange(0, (parts[0].len() + sep.len()) as int) =~= j.subrange(
            0,
            (parts[0].len() + sep.len()) as int,
        ));
    }
}

/// Joining two non-empty lists of parts is joining each and putting the
/// separator between.
pub proof fn lemma_join_append(x: Seq<Seq<char>>, y: Seq<Seq<char>>, sep: Seq<char>)
    requires
        x.len() > 0,
        y.len() > 0,
    ensures
        join(x + y, sep) == join(x, sep) + sep + join(y, sep),
    decreases y.len(),
{
    let xy = x + y;
    if y.len() == 1 {
        assert(xy.drop_last() =~= x);
        assert(xy.last() == y[0]);
        assert(join(y, sep) == y[0]);
    } else {
        lemma_join_append(x, y.drop_last(), sep);
        assert(xy.drop_last() =~= x + y.drop_last());
        assert(xy.last() == y.last());
        assert(join(xy, sep) == join(xy.drop_last(), sep) + sep + xy.last());
        assert(join(y, sep) == join(y.drop_last(), sep) + sep + y.last());
        assert(join(xy, sep) =~= join(x, sep) + sep + join(y, sep));
    }
}

/// Each part occurs in the joined text.
pub proof fn lemma_join_contains_part(parts: Seq<Seq<char>>, sep: Seq<char>, k: int)
    requires
        0 <= k < parts.len(),
    ensures
        crate::text::contains(join(parts, sep), parts[k]),
    decreases parts.len(),
{
    let whole = join(parts, sep);
    if parts.len() == 1 {
        assert(crate::text::occurs_at(whole, parts[k], 0)) by {
            assert(whole.subrange(0, parts[0].len() as int) =~= parts[0]);
        }
    } else {
        let d = parts.drop_last();
        let head = join(d, sep) + sep;
        assert(whole == head + parts.last());
        if k == parts.len() - 1 {
            assert(whole.subrange(head.len() as int, whole.len() as int) =~= parts.last());
            assert(crate::text::occurs_at(whole, parts[k], head.len() as int));
        } else {
            lemma_join_contains_part(d, sep, k);
            assert(d[k] == parts[k]);
            let i = choose|i: int| crate::text::occurs_at(join(d, sep), parts[k], i);
            assert(whole.subrange(i, i + parts[k].len()) =~= join(d, sep).subrange(i, i + parts[k].len()));
            assert(crate::text::occurs_at(whole, parts[k], i));
        }
    }
}

pub open spec fn views(v: Seq<String>) -> Seq<Seq<char>> {
    v.map_values(|s: String| s@)
}

pub proof fn lemma_views_push(v: Seq<String>, s: String)
    ensures
        views(v.push(s)) == views(v).push(s@),
{
    assert(views(v.push(s)) =~= views(v).push(s@));
}

pub open spec fn str_views(v: Seq<&str>) -> Seq<Seq<char>> {
    v.map_values(|s: &str| s@)
}

/// Joins owned strings with a separator.
pub fn join_strings(parts: &Vec<String>, sep: &str) -> (r: String)
    ensures
        r@ == join(views(parts@), sep@),
{
    let mut out = String::new();
    let mut i: usize = 0;
    while i < parts.len()
        invariant
            i <= parts@.len(),
            out@ == join(views(parts@.subrange(0, i as int)), sep@),
        decreases parts.len() - i,
    {
        let ghost before = views(parts@.subrange(0, i as int));
        if i > 0 {
            out.append(sep);
        }
        out.append(parts[i].as_str());
        proof {
            let now = views(parts@.subrange(0, i + 1));
            assert(now.drop_last() =~= before);
            assert(now.last() == parts@[i as int]@);
            if i == 0 {
                assert(now.len() == 1);
            }
        }
        i = i + 1;
    }
    assert(parts@.subrange(0, parts@.len() as int) =~= parts@);
    out
}

/// Joins lines with `\n`.
pub fn join_lines(parts: &Vec<String>) -> (r: String)
    ensures
        r@ == join(views(parts@), "\n"@),
{
    join_strings(parts, "\n")
}

/// Text built line by line; it always equals its lines joined with `\n`.
pub struct LineWriter {
    text: String,
    started: bool,
    lines: Ghost<Seq<Seq<char>>>,
}

impl LineWriter {
    pub closed spec fn lines(&self) -> Seq<Seq<char>> {
        self.lines@
    }

    pub closed spec fn wf(&self) -> bool {
        &&& self.text@ == join(self.lines@, "\n"@)
        &&& self.started == (self.lines@.len() > 0)
    }

    pub fn new() -> (w: LineWriter)
        ensures
            w.wf(),
            w.lines() == Seq::<Seq<char>>::empty(),
    {
        LineWriter { text: String::new(), started: false, lines: Ghost(Seq::empty()) }
    }

    pub fn push(&mut self, line: &str)
        requires
            old(self).wf(),
        ensures
            final(self).wf(),
            final(self).lines() == old(self).lines().push(line@),
    {
        let ghost before = self.lines@;
        if self.started {
            self.text.append("\n");
        }
        self.text.append(line);
        self.started = true;
        self.lines = Ghost(before.push(line@));
        proof {
            assert(self.lines@.drop_last() =~= before);
            if before.len() == 0 {
                assert(join(before, "\n"@) =~= Seq::<char>::empty());
            }
        }
    }

    pub fn finish(self) -> (r: String)
        requires
            self.wf(),
        ensures
            r@ == join(self.lines(), "\n"@),
    {
        self.text
    }
}

/// A markdown table row: `| a | b |`.
pub open spec fn table_row(cells: Seq<Seq<char>>) -> Seq<char> {
    "| "@ + join(cells, " | "@) + " |"@
}

pub open spec fn escaped_cells(cells: Seq<Seq<char>>) -> Seq<Seq<char>> {
    cells.map_values(|c: Seq<char>| escaped_cell(Some(c)))
}

pub open spec fn separator_cells(n: nat) -> Seq<Seq<char>> {
    Seq::new(n, |i: int| "---"@)
}

/// A markdown table: escaped headers, a separator row, then one row per
/// entry of `rows`, its cells escaped when `escape_body` holds.
pub open spec fn markdown_table_spec(
    headers: Seq<Seq<char>>,
    rows: Seq<Seq<Seq<char>>>,
    escape_body: bool,
) -> Seq<char> {
    let body = rows.map_values(
        |row: Seq<Seq<char>>|
            table_row(
                if escape_body {
                    escaped_cells(row)
                } else {
                    row
                },
            ),
    );
    join(
        seq![table_row(escaped_cells(headers)), table_row(separator_cells(headers.len()))] + body,
        "\n"@,
    )
}

pub open spec fn rows_view(rows: Seq<Vec<String>>) -> Seq<Seq<Seq<char>>> {
    rows.map_values(|row: Vec<String>| views(row@))
}

fn row_line(cells: &Vec<String>) -> (r: String)
    ensures
        r@ == table_row(views(cells@)),
{
    let inner = join_strings(cells, " | ");
    let mut out = String::from_str("| ");
    out.append(inner.as_str());
    out.append(" |");
    out
}

fn escape_all(cells: &Vec<String>) -> (r: Vec<String>)
    ensures
        views(r@) == escaped_cells(views(cells@)),
{
    let mut out: Vec<String> = Vec::new();
    let mut i: usize = 0;
    while i < cells.len()
        invariant
            i <= cells@.len(),
            out@.len() == i,
            forall|j: int| 0 <= j < i ==> #[trigger] out@[j]@ == escaped_cell(Some(cells@[j]@)),
        decreases cells.len() - i,
    {
        out.push(escape_cell(Some(cells[i].as_str())));
        i = i + 1;
    }
    assert(views(out@) =~= escaped_cells(views(cells@)));
    out
}

fn owned(v: &Vec<&str>) -> (r: Vec<String>)
    ensures
        views(r@) == str_views(v@),
{
    let mut out: Vec<String> = Vec::new();
    let mut i: usize = 0;
    while i < v.len()
        invariant
            i <= v@.len(),
            out@.len() == i,
            forall|j: int| 0 <= j < i ==> #[trigger] out@[j]@ == v@[j]@,
        decreases v.len() - i,
    {
        out.push(String::from_str(v[i]));
        i = i + 1;
    }
    assert(views(out@) =~= str_views(v@));
    out
}

/// Builds a markdown table, escaping the body cells when asked to.
pub fn markdown_table_with_escape(
    headers: &Vec<&str>,
    rows: &Vec<Vec<String>>,
    escape_body: bool,
) -> (r: String)
    ensures
        r@ == markdown_table_spec(str_views(headers@), rows_view(rows@), escape_body),
{
    let head = escape_all(&owned(headers));
    let mut seps: Vec<String> = Vec::new();
    let mut k: usize = 0;
    while k < headers.len()
        invariant
            k <= headers@.len(),
            seps@.len() == k,
            forall|j: int| 0 <= j < k ==> #[trigger] seps@[j]@ == "---"@,
        decreases headers.len() - k,
    {
        seps.push(String::from_str("---"));
        k = k + 1;
    }
    assert(views(seps@) =~= separator_cells(headers@.len() as nat));
    let mut lines: Vec<String> = Vec::new();
    lines.push(row_line(&head));
    lines.push(row_line(&seps));
    let ghost hv = str_views(headers@);
    let ghost rv = rows_view(rows@);
    let ghost body = rv.map_values(
        |row: Seq<Seq<char>>|
            table_row(
                if escape_body {
                    escaped_cells(row)
                } else {
                    row
                },
            ),
    );
    let mut i: usize = 0;
    while i < rows.len()
        invariant
            i <= rows@.len(),
            rv == rows_view(rows@),
            body == rv.map_values(
                |row: Seq<Seq<char>>|
                    table_row(
                        if escape_body {
                            escaped_cells(row)
                        } else {
                            row
                        },
                    ),
            ),
            hv.len() == headers@.len(),
            lines@.len() == i + 2,
            lines@[0]@ == table_row(escaped_cells(hv)),
            lines@[1]@ == table_row(separator_cells(hv.len())),
            forall|j: int| 0 <= j < i ==> #[trigger] lines@[j + 2]@ == body[j],
        decreases rows.len() - i,
    {
        assert(rv[i as int] == views(rows@[i as int]@));
        let line = if escape_body {
            row_line(&escape_all(&rows[i]))
        } else {
            row_line(&rows[i])
        };
        lines.push(line);
        assert(lines@[i + 2]@ == body[i as int]);
        i = i + 1;
    }
    let ghost expected = seq![
        table_row(escaped_cells(hv)),
        table_row(separator_cells(hv.len())),
    ] + body;
    assert forall|j: int| 0 <= j < lines@.len() implies #[trigger] views(lines@)[j] == expected[j] by {
        if j >= 2 {
            assert(lines@[(j - 2) + 2]@ == body[j - 2]);
        }
    }
    assert(views(lines@) =~= expected);
    join_lines(&lines)
}

/// A table whose body cells are escaped.
pub fn markdown_table(headers: &Vec<&str>, rows: &Vec<Vec<String>>) -> (r: String)
    ensures
        r@ == markdown_table_spec(str_views(headers@), rows_view(rows@), true),
{
    markdown_table_with_escape(headers, rows, true)
}

/// A table whose body cells are already safe markdown.
pub fn markdown_table_raw(headers: &Vec<&str>, rows: &Vec<Vec<String>>) -> (r: String)
    ensures
        r@ == markdown_table_spec(str_views(headers@), rows_view(rows@), false),
{
    markdown_table_with_escape(headers, rows, false)
}

} // verus!
