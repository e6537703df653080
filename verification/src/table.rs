//! Fixed-width tables made from ClickHouse's tab-separated rows.
use vstd::prelude::*;

use crate::helpers::null_shown;
use crate::text::{
    byte_len, byte_len_exceeds, append, append_padded, append_str, can_truncate, chars_eq, chars_of, join, lines,
    lines_chars, pad_right, push_string, repeat, repeat_char, split, split_chars, string_of,
    string_views, truncate_bytes, truncate_bytes_chars,
};

verus! {

/// How a field is shown in its column.
#[derive(Debug, Clone, Copy, PartialEq, Eq, Structural)]
pub enum Cell {
    /// As it is.
    Plain,
    /// Cut to at most this many bytes.
    Cut(usize),
    /// ClickHouse's `\N` as `-`.
    Null,
    /// `true` as `yes`, anything else as `no`.
    YesNo,
    /// Over `over` bytes: its first `keep` bytes followed by `...`.
    Ellipsis { over: usize, keep: usize },
}

/// A column: the field padded to `width` characters (0: not padded).
#[derive(Debug, Clone, Copy, PartialEq, Eq, Structural)]
pub struct Column {
    pub width: usize,
    pub cell: Cell,
}

/// `true` as `yes`, anything else as `no`.
pub open spec fn yes_no(s: Seq<char>) -> Seq<char> {
    if s == "true"@ {
        "yes"@
    } else {
        "no"@
    }
}

/// A field as its column shows it.
pub open spec fn cell_text(p: Seq<char>, c: Cell) -> Seq<char> {
    match c {
        Cell::Plain => p,
        Cell::Cut(n) => truncate_bytes(p, n as nat),
        Cell::Null => null_shown(p),
        Cell::YesNo => yes_no(p),
        Cell::Ellipsis { over, keep } => if byte_len(p) > over {
            truncate_bytes(p, keep as nat) + "..."@
        } else {
            p
        },
    }
}

/// Showing the field does not cut a character in two.
pub open spec fn cell_ok(p: Seq<char>, c: Cell) -> bool {
    match c {
        Cell::Cut(n) => can_truncate(p, n as nat),
        Cell::Ellipsis { over, keep } => byte_len(p) <= over || can_truncate(p, keep as nat),
        _ => true,
    }
}

/// The padded cells of a row.
pub open spec fn padded_cells(parts: Seq<Seq<char>>, cols: Seq<Column>) -> Seq<Seq<char>> {
    Seq::new(cols.len(), |i: int| pad_right(cell_text(parts[i], cols[i].cell), cols[i].width as nat))
}

/// A row: its padded cells separated by single spaces.
pub open spec fn row_text(parts: Seq<Seq<char>>, cols: Seq<Column>) -> Seq<char> {
    join(padded_cells(parts, cols), " "@)
}

/// The header: the labels padded to the column widths, separated by spaces.
pub open spec fn header_text(labels: Seq<Seq<char>>, cols: Seq<Column>) -> Seq<char> {
    join(
        Seq::new(cols.len(), |i: int| pad_right(labels[i], cols[i].width as nat)),
        " "@,
    )
}

/// A line has a field for every column.
pub open spec fn is_full_row(line: Seq<char>, cols: Seq<Column>) -> bool {
    split(line, '\t').len() >= cols.len()
}

/// The rows shown for some lines: those with a field for every column.
pub open spec fn body_rows(ls: Seq<Seq<char>>, cols: Seq<Column>) -> Seq<Seq<char>>
    decreases ls.len(),
{
    if ls.len() == 0 {
        seq![]
    } else {
        body_rows(ls.drop_last(), cols) + if is_full_row(ls.last(), cols) {
            seq![row_text(split(ls.last(), '\t'), cols)]
        } else {
            seq![]
        }
    }
}

/// The table for tab-separated `rows`: header, a rule of `rule` dashes, then
/// one line per row that has a field for every column.
pub open spec fn table_text(rows: Seq<char>, labels: Seq<Seq<char>>, cols: Seq<Column>, rule: nat) -> Seq<
    Seq<char>,
> {
    seq![header_text(labels, cols), repeat('-', rule)] + body_rows(lines(rows), cols)
}

/// Every shown row can be cut where its columns cut it.
pub open spec fn rows_fit(rows: Seq<char>, cols: Seq<Column>) -> bool {
    forall|k: int, i: int|
        0 <= k < lines(rows).len() && is_full_row(lines(rows)[k], cols) && 0 <= i < cols.len()
            ==> cell_ok(#[trigger] split(lines(rows)[k], '\t')[i], cols[i].cell)
}

/// The texts of string slices.
pub open spec fn str_views(v: Seq<&str>) -> Seq<Seq<char>> {
    v.map_values(|s: &str| s@)
}

/// A field as its column shows it.
fn cell_exec(p: &[char], c: Cell) -> (r: Vec<char>)
    requires
        cell_ok(p@, c),
    ensures
        r@ == cell_text(p@, c),
{
    match c {
        Cell::Plain => {
            let mut v: Vec<char> = Vec::new();
            append(&mut v, p);
            assert(v@ =~= p@);
            v
        },
        Cell::Cut(n) => truncate_bytes_chars(p, n),
        Cell::Null => {
            let marker = chars_of("\\N");
            if chars_eq(p, &marker) {
                chars_of("-")
            } else {
                let mut v: Vec<char> = Vec::new();
                append(&mut v, p);
                assert(v@ =~= p@);
                v
            }
        },
        Cell::YesNo => {
            let t = chars_of("true");
            if chars_eq(p, &t) {
                chars_of("yes")
            } else {
                chars_of("no")
            }
        },
        Cell::Ellipsis { over, keep } => {
            if byte_len_exceeds(p, over) {
                let mut v = truncate_bytes_chars(p, keep);
                append_str(&mut v, "...");
                v
            } else {
                let mut v: Vec<char> = Vec::new();
                append(&mut v, p);
                assert(v@ =~= p@);
                v
            }
        },
    }
}

/// Joins padded texts with single spaces.
fn join_padded(texts: &Vec<Vec<char>>, cols: &[Column]) -> (r: Vec<char>)
    requires
        texts@.len() == cols@.len(),
    ensures
        r@ == join(
            Seq::new(cols@.len(), |i: int| pad_right(texts@[i]@, cols@[i].width as nat)),
            " "@,
        ),
{
    let ghost cells = Seq::new(cols@.len(), |i: int| pad_right(texts@[i]@, cols@[i].width as nat));
    let mut r: Vec<char> = Vec::new();
    let mut i: usize = 0;
    while i < cols.len()
        invariant
            i <= cols@.len() == texts@.len(),
            cells == Seq::new(cols@.len(), |i: int| pad_right(texts@[i]@, cols@[i].width as nat)),
            r@ == join(cells.take(i as int), " "@),
        decreases cols.len() - i,
    {
        assert(cells.take(i + 1).drop_last() =~= cells.take(i as int));
        assert(cells.take(i + 1).last() == cells[i as int]);
        if i > 0 {
            append_str(&mut r, " ");
        }
        append_padded(&mut r, &texts[i], cols[i].width);
        i += 1;
        if i == 1 {
            assert(r@ =~= cells.take(1)[0]);
        }
    }
    assert(cells.take(cols@.len() as int) =~= cells);
    r
}

/// The header line for `labels`.
pub fn header_line(labels: &[&str], cols: &[Column]) -> (r: String)
    requires
        labels@.len() == cols@.len(),
    ensures
        r@ == header_text(str_views(labels@), cols@),
{
    let mut texts: Vec<Vec<char>> = Vec::new();
    let mut i: usize = 0;
    while i < labels.len()
        invariant
            i <= labels@.len(),
            texts@.len() == i,
            forall|k: int| 0 <= k < i ==> #[trigger] texts@[k]@ == labels@[k]@,
        decreases labels.len() - i,
    {
        texts.push(chars_of(labels[i]));
        i += 1;
    }
    let r = join_padded(&texts, cols);
    assert(Seq::new(cols@.len(), |i: int| pad_right(texts@[i]@, cols@[i].width as nat))
        =~= Seq::new(cols@.len(), |i: int| pad_right(str_views(labels@)[i], cols@[i].width as nat)));
    string_of(&r)
}

/// A row from its fields.
pub fn row_line(parts: &Vec<Vec<char>>, cols: &[Column]) -> (r: Vec<char>)
    requires
        parts@.len() >= cols@.len(),
        forall|i: int| 0 <= i < cols@.len() ==> cell_ok(#[trigger] parts@[i]@, cols@[i].cell),
    ensures
        r@ == row_text(parts@.map_values(|p: Vec<char>| p@), cols@),
{
    let mut texts: Vec<Vec<char>> = Vec::new();
    let mut i: usize = 0;
    while i < cols.len()
        invariant
            i <= cols@.len() <= parts@.len(),
            forall|i: int| 0 <= i < cols@.len() ==> cell_ok(#[trigger] parts@[i]@, cols@[i].cell),
            texts@.len() == i,
            forall|k: int| 0 <= k < i ==> #[trigger] texts@[k]@ == cell_text(
                parts@[k]@,
                cols@[k].cell,
            ),
        decreases cols.len() - i,
    {
        texts.push(cell_exec(&parts[i], cols[i].cell));
        i += 1;
    }
    let r = join_padded(&texts, cols);
    assert(Seq::new(cols@.len(), |i: int| pad_right(texts@[i]@, cols@[i].width as nat))
        =~= padded_cells(parts@.map_values(|p: Vec<char>| p@), cols@));
    r
}

/// The table for tab-separated `rows`: header, `rule` dashes, and each row that
/// has a field for every column.
pub fn render_table(rows: &str, labels: &[&str], cols: &[Column], rule: usize) -> (r: Vec<String>)
    requires
        labels@.len() == cols@.len(),
        rows_fit(rows@, cols@),
    ensures
        string_views(r@) == table_text(rows@, str_views(labels@), cols@, rule as nat),
{
    let mut out: Vec<String> = Vec::new();
    push_string(&mut out, header_line(labels, cols));
    push_string(&mut out, string_of(&repeat_char('-', rule)));
    let ghost head = seq![header_text(str_views(labels@), cols@), repeat('-', rule as nat)];
    assert(string_views(out@) =~= head);
    let all = chars_of(rows);
    let ls = lines_chars(&all);
    let ghost spec_lines = lines(rows@);
    let mut k: usize = 0;
    while k < ls.len()
        invariant
            k <= ls@.len() == spec_lines.len(),
            spec_lines == lines(rows@),
            forall|j: int| 0 <= j < ls@.len() ==> #[trigger] ls@[j]@ == spec_lines[j],
            rows_fit(rows@, cols@),
            string_views(out@) == head + body_rows(spec_lines.take(k as int), cols@),
        decreases ls.len() - k,
    {
        let parts = split_chars(&ls[k], '\t');
        let ghost fields = split(spec_lines[k as int], '\t');
        assert(parts@.map_values(|p: Vec<char>| p@) =~= fields);
        assert(spec_lines.take(k + 1).drop_last() =~= spec_lines.take(k as int));
        assert(spec_lines.take(k + 1).last() == spec_lines[k as int]);
        if parts.len() >= cols.len() {
            assert forall|i: int| 0 <= i < cols@.len() implies cell_ok(
                #[trigger] parts@[i]@,
                cols@[i].cell,
            ) by {
                assert(cell_ok(split(lines(rows@)[k as int], '\t')[i], cols@[i].cell));
            }
            let line = row_line(&parts, cols);
            push_string(&mut out, string_of(&line));
            assert(string_views(out@) =~= head + body_rows(spec_lines.take(k + 1), cols@));
        } else {
            assert(body_rows(spec_lines.take(k + 1), cols@) =~= body_rows(
                spec_lines.take(k as int),
                cols@,
            ));
        }
        k += 1;
    }
    assert(spec_lines.take(ls@.len() as int) =~= spec_lines);
    out
}

} // verus!
