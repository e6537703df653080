//! How each listing shows a row, for every row: which field stands in which
//! column, how far it is cut, and that a field within its column's limit is
//! shown whole.
use vstd::prelude::*;

use crate::commands::alerts::{alert_columns, issue_columns};
use crate::commands::api::{api_columns, workload_columns};
use crate::commands::grafana::ruler_columns;
use crate::helpers::null_shown;
use crate::table::{padded_cells, row_text, yes_no};
use crate::text::{byte_len, join, pad_right, starts_with, truncate_bytes};

verus! {

/// The pieces joined start with their first `k` pieces joined and a
/// separator.
proof fn lemma_join_starts(c: Seq<Seq<char>>, sep: Seq<char>, k: int)
    requires
        1 <= k < c.len(),
    ensures
        starts_with(join(c, sep), join(c.take(k), sep) + sep),
    decreases c.len(),
{
    let front = join(c.drop_last(), sep);
    assert(join(c, sep) == front + sep + c.last());
    if k == c.len() - 1 {
        assert(c.drop_last() =~= c.take(k));
        assert((front + sep + c.last()).take((front + sep).len() as int) =~= front + sep);
    } else {
        lemma_join_starts(c.drop_last(), sep, k);
        assert(c.drop_last().take(k) =~= c.take(k));
        let p = join(c.take(k), sep) + sep;
        assert(front.take(p.len() as int) == p);
        assert((front + sep + c.last()).take(p.len() as int) =~= front.take(p.len() as int));
    }
}

/// The first three pieces joined, with the separator after them, begin the
/// joined text.
proof fn lemma_join_starts_three(c: Seq<Seq<char>>, sep: Seq<char>)
    requires
        c.len() >= 4,
    ensures
        starts_with(join(c, sep), c[0] + sep + c[1] + sep + c[2] + sep),
{
    lemma_join_starts(c, sep, 3);
    let t = c.take(3);
    assert(t.drop_last().drop_last() =~= seq![c[0]]);
    assert(t.drop_last() =~= seq![c[0], c[1]]);
    assert(join(seq![c[0]], sep) == c[0]);
    assert(join(t.drop_last(), sep) == join(t.drop_last().drop_last(), sep) + sep + c[1]);
    assert(join(t, sep) == join(t.drop_last(), sep) + sep + c[2]);
}

/// A row of the endpoints table: namespace cut to 20 bytes, service to 25 and
/// endpoint to 50, each padded to that width, then rate, error percentage and
/// the two latencies with ClickHouse's `\N` shown as `-`, padded to 10, 8 and
/// 8, the last as it is; the cells are separated by single spaces. A
/// namespace, service or endpoint within its limit is shown whole.
pub proof fn law_api_row_shows_each_field(parts: Seq<Seq<char>>)
    requires
        parts.len() >= 7,
    ensures
        padded_cells(parts, api_columns()) == seq![
            pad_right(truncate_bytes(parts[0], 20), 20),
            pad_right(truncate_bytes(parts[1], 25), 25),
            pad_right(truncate_bytes(parts[2], 50), 50),
            pad_right(null_shown(parts[3]), 10),
            pad_right(null_shown(parts[4]), 8),
            pad_right(null_shown(parts[5]), 8),
            null_shown(parts[6]),
        ],
        row_text(parts, api_columns()) == join(padded_cells(parts, api_columns()), " "@),
        byte_len(parts[0]) <= 20 ==> padded_cells(parts, api_columns())[0] == pad_right(
            parts[0],
            20,
        ),
        byte_len(parts[1]) <= 25 ==> padded_cells(parts, api_columns())[1] == pad_right(
            parts[1],
            25,
        ),
        byte_len(parts[2]) <= 50 ==> padded_cells(parts, api_columns())[2] == pad_right(
            parts[2],
            50,
        ),
        byte_len(parts[0]) <= 20 && byte_len(parts[1]) <= 25 && byte_len(parts[2]) <= 50
            ==> starts_with(
            row_text(parts, api_columns()),
            pad_right(parts[0], 20) + " "@ + pad_right(parts[1], 25) + " "@ + pad_right(
                parts[2],
                50,
            ) + " "@,
        ),
{
    assert(padded_cells(parts, api_columns()) =~= seq![
        pad_right(truncate_bytes(parts[0], 20), 20),
        pad_right(truncate_bytes(parts[1], 25), 25),
        pad_right(truncate_bytes(parts[2], 50), 50),
        pad_right(null_shown(parts[3]), 10),
        pad_right(null_shown(parts[4]), 8),
        pad_right(null_shown(parts[5]), 8),
        null_shown(parts[6]),
    ]);
    lemma_join_starts_three(padded_cells(parts, api_columns()), " "@);
}

/// A row of the workloads table: namespace padded to 20, workload cut to 30
/// bytes and padded to 30, kind padded to 12, readiness as `yes` or `no`
/// padded to 6, then pods, rate, error percentage and the two latencies with
/// `\N` shown as `-`, padded to 6, 8, 8 and 8, the last as it is. A workload
/// within 30 bytes is shown whole.
pub proof fn law_workload_row_shows_each_field(parts: Seq<Seq<char>>)
    requires
        parts.len() >= 9,
    ensures
        padded_cells(parts, workload_columns()) == seq![
            pad_right(parts[0], 20),
            pad_right(truncate_bytes(parts[1], 30), 30),
            pad_right(parts[2], 12),
            pad_right(yes_no(parts[3]), 6),
            pad_right(null_shown(parts[4]), 6),
            pad_right(null_shown(parts[5]), 8),
            pad_right(null_shown(parts[6]), 8),
            pad_right(null_shown(parts[7]), 8),
            null_shown(parts[8]),
        ],
        row_text(parts, workload_columns()) == join(
            padded_cells(parts, workload_columns()),
            " "@,
        ),
        byte_len(parts[1]) <= 30 ==> padded_cells(parts, workload_columns())[1] == pad_right(
            parts[1],
            30,
        ),
{
    assert(padded_cells(parts, workload_columns()) =~= seq![
        pad_right(parts[0], 20),
        pad_right(truncate_bytes(parts[1], 30), 30),
        pad_right(parts[2], 12),
        pad_right(yes_no(parts[3]), 6),
        pad_right(null_shown(parts[4]), 6),
        pad_right(null_shown(parts[5]), 8),
        pad_right(null_shown(parts[6]), 8),
        pad_right(null_shown(parts[7]), 8),
        null_shown(parts[8]),
    ]);
}

/// A row of the alerts table: timestamp padded to 24, monitor cut to 40
/// bytes and padded to 40, state padded to 10, severity to 6, namespace to
/// 20, and the workload as it is. A monitor within 40 bytes is shown whole.
pub proof fn law_alert_row_shows_each_field(parts: Seq<Seq<char>>)
    requires
        parts.len() >= 6,
    ensures
        padded_cells(parts, alert_columns()) == seq![
            pad_right(parts[0], 24),
            pad_right(truncate_bytes(parts[1], 40), 40),
            pad_right(parts[2], 10),
            pad_right(parts[3], 6),
            pad_right(parts[4], 20),
            parts[5],
        ],
        row_text(parts, alert_columns()) == join(padded_cells(parts, alert_columns()), " "@),
        byte_len(parts[1]) <= 40 ==> padded_cells(parts, alert_columns())[1] == pad_right(
            parts[1],
            40,
        ),
{
    assert(padded_cells(parts, alert_columns()) =~= seq![
        pad_right(parts[0], 24),
        pad_right(truncate_bytes(parts[1], 40), 40),
        pad_right(parts[2], 10),
        pad_right(parts[3], 6),
        pad_right(parts[4], 20),
        parts[5],
    ]);
}

/// A row of the issues table: last seen padded to 24, namespace cut to 20
/// bytes, workload to 25 and issue to 30, each padded to that width, then the
/// code padded to 8 and the count, with `\N` shown as `-`. A namespace,
/// workload or issue within its limit is shown whole.
pub proof fn law_issue_row_shows_each_field(parts: Seq<Seq<char>>)
    requires
        parts.len() >= 6,
    ensures
        padded_cells(parts, issue_columns()) == seq![
            pad_right(parts[0], 24),
            pad_right(truncate_bytes(parts[1], 20), 20),
            pad_right(truncate_bytes(parts[2], 25), 25),
            pad_right(truncate_bytes(parts[3], 30), 30),
            pad_right(null_shown(parts[4]), 8),
            null_shown(parts[5]),
        ],
        row_text(parts, issue_columns()) == join(padded_cells(parts, issue_columns()), " "@),
        byte_len(parts[1]) <= 20 ==> padded_cells(parts, issue_columns())[1] == pad_right(
            parts[1],
            20,
        ),
        byte_len(parts[2]) <= 25 ==> padded_cells(parts, issue_columns())[2] == pad_right(
            parts[2],
            25,
        ),
        byte_len(parts[3]) <= 30 ==> padded_cells(parts, issue_columns())[3] == pad_right(
            parts[3],
            30,
        ),
{
    assert(padded_cells(parts, issue_columns()) =~= seq![
        pad_right(parts[0], 24),
        pad_right(truncate_bytes(parts[1], 20), 20),
        pad_right(truncate_bytes(parts[2], 25), 25),
        pad_right(truncate_bytes(parts[3], 30), 30),
        pad_right(null_shown(parts[4]), 8),
        null_shown(parts[5]),
    ]);
}

/// A row of the Ruler alerts table: the state padded to 10, the folder cut
/// to 25 bytes and padded to 25, a title over 38 bytes shortened to its first
/// 35 bytes and `...` and padded to 40, and an expression over 45 bytes
/// shortened to its first 42 bytes and `...`. A title of at most 38 bytes and
/// an expression of at most 45 are shown whole.
pub proof fn law_ruler_row_shows_each_field(parts: Seq<Seq<char>>)
    requires
        parts.len() >= 4,
    ensures
        padded_cells(parts, ruler_columns()) == seq![
            pad_right(parts[0], 10),
            pad_right(truncate_bytes(parts[1], 25), 25),
            pad_right(
                if byte_len(parts[2]) > 38 {
                    truncate_bytes(parts[2], 35) + "..."@
                } else {
                    parts[2]
                },
                40,
            ),
            if byte_len(parts[3]) > 45 {
                truncate_bytes(parts[3], 42) + "..."@
            } else {
                parts[3]
            },
        ],
        row_text(parts, ruler_columns()) == join(padded_cells(parts, ruler_columns()), " "@),
        byte_len(parts[2]) <= 38 ==> padded_cells(parts, ruler_columns())[2] == pad_right(
            parts[2],
            40,
        ),
        byte_len(parts[3]) <= 45 ==> padded_cells(parts, ruler_columns())[3] == parts[3],
{
    assert(padded_cells(parts, ruler_columns()) =~= seq![
        pad_right(parts[0], 10),
        pad_right(truncate_bytes(parts[1], 25), 25),
        pad_right(
            if byte_len(parts[2]) > 38 {
                truncate_bytes(parts[2], 35) + "..."@
            } else {
                parts[2]
            },
            40,
        ),
        if byte_len(parts[3]) > 45 {
            truncate_bytes(parts[3], 42) + "..."@
        } else {
            parts[3]
        },
    ]);
}

} // verus!
