//! Properties of the client that hold for all inputs.
use vstd::prelude::*;

use crate::commands::clickhouse::{grep_window_too_large, point_rows, series_rows, LogsArgs};
use crate::commands::grafana::{folders_alerts, groups_alerts, ruler_alerts, rules_alerts};
use crate::config::{summary_fits, summary_text, Config};
use crate::duration::{
    div_toward_zero, duration_seconds, is_digit, parse_i64, read_digits, unit_of, unit_seconds,
};
use crate::helpers::{
    api_key_in, grafana_token_in, is_credential, last_credential, looks_like_api_key,
    looks_like_grafana_token, title_matches, titled,
};
use crate::json::{items_of, member_str, Json};
use crate::table::{cell_text, header_text, padded_cells, row_text, Column};
use crate::text::{
    all_ws, byte_len, can_truncate, decimal, digit_char, lemma_byte_prefix, lemma_nat_decimal_len,
    join, lemma_trim_surrounded, lines, nat_decimal, pad_right, trim, truncate_bytes,
    unicode_lowercase,
};

verus! {

/// White space before or after a duration does not change what it means:
/// ` 1h ` is `1h`, and a refused text is reported the same way.
pub proof fn law_duration_ignores_surrounding_whitespace(p: Seq<char>, s: Seq<char>, q: Seq<char>)
    requires
        all_ws(p),
        all_ws(q),
    ensures
        duration_seconds(p + s + q) == duration_seconds(s),
        trim(p + s + q) == trim(s),
{
    lemma_trim_surrounded(p, s, q);
}

/// A text search over logs is refused exactly when the window is 25 hours or
/// more: `--since` is compared in whole hours, so 24h59m still passes.
pub proof fn law_grep_window_is_refused_from_25_hours(args: LogsArgs, secs: int)
    ensures
        grep_window_too_large(args, secs) <==> (args.grep is Some && secs >= 25 * 3600),
{
    if secs >= 0 {
        assert(div_toward_zero(secs, 3600) > 24 <==> secs >= 90000) by (nonlinear_arith)
            requires
                secs >= 0,
                div_toward_zero(secs, 3600) == secs / 3600,
        ;
    } else {
        assert((-secs) / 3600 >= 0) by (nonlinear_arith)
            requires
                secs < 0,
        ;
    }
}

/// A field cut for its column is a prefix of the field that takes at most the
/// column's bytes, and exactly that many when it was cut at all.
pub proof fn law_cut_fields_are_prefixes_within_limit(s: Seq<char>, n: nat)
    requires
        can_truncate(s, n),
    ensures
        truncate_bytes(s, n).len() <= s.len(),
        truncate_bytes(s, n) == s.take(truncate_bytes(s, n).len() as int),
        byte_len(truncate_bytes(s, n)) <= n,
        byte_len(s) > n ==> byte_len(truncate_bytes(s, n)) == n,
{
    if byte_len(s) <= n {
        assert(s.take(s.len() as int) =~= s);
    } else {
        lemma_byte_prefix(s, n);
    }
}

/// The configuration summary shows each secret only by its first bytes: the
/// API key by at most 12 and the Grafana token by at most 20, always followed
/// by `...`, and `(not set)` for a secret that is not set.
pub proof fn law_summary_shows_only_a_prefix_of_each_secret(c: Config)
    requires
        summary_fits(c),
    ensures
        summary_text(c).len() == 3,
        summary_text(c)[0] == "Current configuration:"@,
        c.api_key matches Some(k) ==> {
            let p = truncate_bytes(k@, 12);
            &&& summary_text(c)[1] == "  api_key: "@ + p + "..."@
            &&& p == k@.take(p.len() as int)
            &&& byte_len(p) <= 12
            &&& (byte_len(k@) <= 12 ==> p == k@)
        },
        c.api_key is None ==> summary_text(c)[1] == "  api_key: "@ + "(not set)"@,
        c.grafana_token matches Some(t) ==> {
            let p = truncate_bytes(t@, 20);
            &&& summary_text(c)[2] == "  grafana_token: "@ + p + "..."@
            &&& p == t@.take(p.len() as int)
            &&& byte_len(p) <= 20
            &&& (byte_len(t@) <= 20 ==> p == t@)
        },
        c.grafana_token is None ==> summary_text(c)[2] == "  grafana_token: "@ + "(not set)"@,
{
    if let Some(k) = c.api_key {
        law_cut_fields_are_prefixes_within_limit(k@, 12);
    }
    if let Some(t) = c.grafana_token {
        law_cut_fields_are_prefixes_within_limit(t@, 20);
    }
}

proof fn lemma_digit_char(d: int)
    requires
        0 <= d < 10,
    ensures
        is_digit(digit_char(d)),
        digit_char(d) as int - '0' as int == d,
{
}

proof fn lemma_first_digit(n: nat)
    ensures
        nat_decimal(n).len() >= 1,
        is_digit(nat_decimal(n)[0]),
    decreases n,
{
    lemma_nat_decimal_len(n);
    if n < 10 {
        lemma_digit_char(n as int);
    } else {
        lemma_first_digit(n / 10);
        assert(nat_decimal(n)[0] == nat_decimal(n / 10)[0]);
    }
}

/// Reading the digits of `n` onto nothing leaves `n` (or `-n`) to read on.
proof fn lemma_read_decimal(n: nat, negative: bool, rest: Seq<char>)
    requires
        negative ==> n <= 0x8000_0000_0000_0000,
        !negative ==> n <= i64::MAX,
    ensures
        read_digits(nat_decimal(n) + rest, negative, 0) == read_digits(
            rest,
            negative,
            if negative { -n } else { n as int },
        ),
    decreases n,
{
    let d = (n % 10) as int;
    lemma_digit_char(d);
    if n < 10 {
        let s = seq![digit_char(n as int)] + rest;
        assert(s[0] == digit_char(n as int));
        assert(s.drop_first() =~= rest);
    } else {
        let head = nat_decimal(n / 10);
        let tail = seq![digit_char(d)] + rest;
        assert(nat_decimal(n) + rest =~= head + tail);
        lemma_read_decimal(n / 10, negative, tail);
        assert(tail[0] == digit_char(d));
        assert(tail.drop_first() =~= rest);
        let acc: int = if negative { -((n / 10) as int) } else { (n / 10) as int };
        assert((if negative { acc * 10 - d } else { acc * 10 + d }) == (if negative { -n } else {
            n as int
        }));
    }
}

/// Every `i64` written in decimal, as the queries carry numbers, reads back as
/// the same number.
pub proof fn law_decimal_reads_back(n: int)
    requires
        i64::MIN <= n <= i64::MAX,
    ensures
        parse_i64(decimal(n)) == Ok::<int, crate::error::IntErrorKind>(n),
{
    if n < 0 {
        let m = (-n) as nat;
        lemma_read_decimal(m, true, Seq::<char>::empty());
        lemma_nat_decimal_len(m);
        assert(nat_decimal(m) + Seq::<char>::empty() =~= nat_decimal(m));
        assert(decimal(n).drop_first() =~= nat_decimal(m));
        assert(read_digits(Seq::<char>::empty(), true, -m) == Ok::<int, crate::error::IntErrorKind>(-m));
    } else {
        let m = n as nat;
        lemma_read_decimal(m, false, Seq::<char>::empty());
        lemma_first_digit(m);
        assert(nat_decimal(m) + Seq::<char>::empty() =~= nat_decimal(m));
        assert(read_digits(Seq::<char>::empty(), false, m as int) == Ok::<int, crate::error::IntErrorKind>(m as int));
    }
}

/// A count of seconds written as `<n>s` reads back as that many seconds.
pub proof fn law_seconds_text_reads_back(n: int)
    requires
        i64::MIN <= n <= i64::MAX,
    ensures
        duration_seconds(decimal(n) + "s"@) == Ok::<int, crate::duration::DurationFault>(n),
{
    reveal_strlit("s");
    let d = decimal(n);
    let t = d + "s"@;
    law_decimal_reads_back(n);
    let m: nat = if n < 0 { (-n) as nat } else { n as nat };
    lemma_first_digit(m);
    lemma_digit_char((m % 10) as int);
    assert(nat_decimal(m).last() == digit_char((m % 10) as int));
    assert(d.len() >= 1);
    assert(d.last() == nat_decimal(m).last());
    assert(!crate::text::is_ws(d[0]));
    assert(t[0] == d[0]);
    assert(crate::text::trim_start(t) == t);
    assert(t.last() == 's');
    assert(crate::text::trim_end(t) == t);
    assert(t.drop_last() =~= d);
    assert(crate::text::strip_trailing(t, 's') == crate::text::strip_trailing(d, 's'));
    assert(crate::text::strip_trailing(d, 's') == d);
}

/// `<n>` followed by a unit letter reads back as `n` of that unit.
proof fn lemma_unit_text_reads_back(n: int, c: char)
    requires
        i64::MIN <= n <= i64::MAX,
        c == 's' || c == 'm' || c == 'h' || c == 'd',
    ensures
        duration_seconds(decimal(n) + seq![c]) == Ok::<int, crate::duration::DurationFault>(
            n * unit_seconds(unit_of(c)),
        ),
{
    let d = decimal(n);
    let t = d + seq![c];
    law_decimal_reads_back(n);
    let m: nat = if n < 0 { (-n) as nat } else { n as nat };
    lemma_first_digit(m);
    lemma_digit_char((m % 10) as int);
    assert(nat_decimal(m).last() == digit_char((m % 10) as int));
    assert(d.len() >= 1);
    assert(d.last() == nat_decimal(m).last());
    assert(!crate::text::is_ws(d[0]));
    assert(t[0] == d[0]);
    assert(crate::text::trim_start(t) == t);
    assert(t.last() == c);
    assert(crate::text::trim_end(t) == t);
    assert(t.drop_last() =~= d);
    assert(crate::text::strip_trailing(t, c) == crate::text::strip_trailing(d, c));
    assert(crate::text::strip_trailing(d, c) == d);
}

/// A duration written as a number and a unit letter reads back as that many
/// seconds, minutes, hours or days: `<n>s` is `n` seconds, `<n>m` is `60 n`,
/// `<n>h` is `3600 n` and `<n>d` is `86400 n`.
pub proof fn law_duration_units_read_back(n: int)
    requires
        i64::MIN <= n <= i64::MAX,
    ensures
        duration_seconds(decimal(n) + "s"@) == Ok::<int, crate::duration::DurationFault>(n),
        duration_seconds(decimal(n) + "m"@) == Ok::<int, crate::duration::DurationFault>(60 * n),
        duration_seconds(decimal(n) + "h"@) == Ok::<int, crate::duration::DurationFault>(
            3600 * n,
        ),
        duration_seconds(decimal(n) + "d"@) == Ok::<int, crate::duration::DurationFault>(
            86400 * n,
        ),
{
    reveal_strlit("s");
    reveal_strlit("m");
    reveal_strlit("h");
    reveal_strlit("d");
    assert("s"@ =~= seq!['s']);
    assert("m"@ =~= seq!['m']);
    assert("h"@ =~= seq!['h']);
    assert("d"@ =~= seq!['d']);
    lemma_unit_text_reads_back(n, 's');
    lemma_unit_text_reads_back(n, 'm');
    lemma_unit_text_reads_back(n, 'h');
    lemma_unit_text_reads_back(n, 'd');
}

proof fn lemma_last_credential(ls: Seq<Seq<char>>, token: bool)
    ensures
        last_credential(ls, token) matches Some(k) ==> is_credential(token, k) && exists|i: int|
            0 <= i < ls.len() && k == trim(#[trigger] ls[i]),
    decreases ls.len(),
{
    if ls.len() > 0 {
        if is_credential(token, trim(ls.last())) {
            assert(trim(ls[ls.len() - 1]) == trim(ls.last()));
        } else {
            lemma_last_credential(ls.drop_last(), token);
            if let Some(k) = last_credential(ls, token) {
                let i = choose|i: int| 0 <= i < ls.drop_last().len() && k == trim(
                    #[trigger] ls.drop_last()[i],
                );
                assert(ls[i] == ls.drop_last()[i]);
            }
        }
    }
}

/// A fetched API key is one whole line of the command's output, trimmed: not
/// empty, ASCII letters and digits only.
pub proof fn law_api_key_is_a_trimmed_output_line(output: Seq<char>)
    ensures
        api_key_in(output) matches Some(k) ==> looks_like_api_key(k) && exists|i: int|
            0 <= i < lines(output).len() && k == trim(#[trigger] lines(output)[i]),
{
    lemma_last_credential(lines(output), false);
}

/// A fetched Grafana token is one whole line of the command's output, trimmed,
/// starting with `glsa_`.
pub proof fn law_grafana_token_is_a_trimmed_output_line(output: Seq<char>)
    ensures
        grafana_token_in(output) matches Some(k) ==> looks_like_grafana_token(k) && exists|i: int|
            0 <= i < lines(output).len() && k == trim(#[trigger] lines(output)[i]),
{
    lemma_last_credential(lines(output), true);
}

proof fn lemma_filter_within<A>(s: Seq<A>, pred: spec_fn(A) -> bool)
    ensures
        forall|i: int| 0 <= i < s.filter(pred).len() ==> s.contains(#[trigger] s.filter(pred)[i]),
    decreases s.len(),
{
    reveal(Seq::filter);
    if s.len() > 0 {
        lemma_filter_within(s.drop_last(), pred);
        let sub = s.drop_last().filter(pred);
        assert forall|i: int| 0 <= i < s.filter(pred).len() implies s.contains(
            #[trigger] s.filter(pred)[i],
        ) by {
            if i < sub.len() {
                assert(s.filter(pred)[i] == sub[i]);
                let k = choose|k: int| 0 <= k < s.drop_last().len() && s.drop_last()[k] == sub[i];
                assert(s[k] == s.drop_last()[k]);
            } else {
                assert(s.filter(pred)[i] == s.last());
                assert(s[s.len() - 1] == s.last());
            }
        }
    }
}

/// Filtering by title keeps, in their order, exactly the items that have a
/// string title containing the filter (both lowercased): no item without a
/// title is kept, and no matching item is dropped.
pub proof fn law_filter_by_title_keeps_exactly_matching_titles(items: Seq<Json>, filter: Seq<char>)
    ensures
        forall|j: Json| #[trigger]
            titled(items, Some(filter)).contains(j) ==> items.contains(j) && title_matches(
                j,
                unicode_lowercase(filter),
            ) && member_str(j, "title"@) is Some,
        forall|i: int|
            0 <= i < items.len() && title_matches(#[trigger] items[i], unicode_lowercase(filter))
                ==> titled(items, Some(filter)).contains(items[i]),
{
    broadcast use vstd::seq_lib::group_filter_ensures;

    let pred = |j: Json| title_matches(j, unicode_lowercase(filter));
    assert(titled(items, Some(filter)) == items.filter(pred));
    lemma_filter_within(items, pred);
    assert forall|j: Json| #[trigger] titled(items, Some(filter)).contains(j) implies items.contains(
        j,
    ) && title_matches(j, unicode_lowercase(filter)) && member_str(j, "title"@) is Some by {
        let k = choose|k: int| 0 <= k < items.filter(pred).len() && items.filter(pred)[k] == j;
        assert(pred(items.filter(pred)[k]));
    }
}

proof fn lemma_rules_alerts_folder(folder: Seq<char>, rules: Seq<Json>)
    ensures
        rules_alerts(folder, rules).len() == rules.len(),
        forall|i: int| 0 <= i < rules.len() ==> (#[trigger] rules_alerts(folder, rules)[i]).folder
            == folder,
    decreases rules.len(),
{
    if rules.len() > 0 {
        lemma_rules_alerts_folder(folder, rules.drop_last());
    }
}

proof fn lemma_groups_alerts_folder(folder: Seq<char>, groups: Seq<Json>)
    ensures
        forall|i: int|
            0 <= i < groups_alerts(folder, groups).len() ==> (#[trigger] groups_alerts(
                folder,
                groups,
            )[i]).folder == folder,
    decreases groups.len(),
{
    if groups.len() > 0 {
        lemma_groups_alerts_folder(folder, groups.drop_last());
        let prev = groups_alerts(folder, groups.drop_last());
        let added = match crate::json::get(groups.last(), "rules"@) {
            Some(r) => match items_of(r) {
                Some(rules) => rules_alerts(folder, rules),
                None => seq![],
            },
            None => seq![],
        };
        if let Some(r) = crate::json::get(groups.last(), "rules"@) {
            if let Some(rules) = items_of(r) {
                lemma_rules_alerts_folder(folder, rules);
            }
        }
        assert forall|i: int| 0 <= i < (prev + added).len() implies (#[trigger] (prev
            + added)[i]).folder == folder by {
            if i >= prev.len() {
                assert((prev + added)[i] == added[i - prev.len()]);
            }
        }
    }
}

proof fn lemma_folders_alerts_folder(members: Seq<(String, Json)>)
    ensures
        forall|i: int|
            0 <= i < folders_alerts(members).len() ==> exists|m: int|
                0 <= m < members.len() && (#[trigger] members[m]).0@ == (
                #[trigger] folders_alerts(members)[i]).folder,
    decreases members.len(),
{
    if members.len() > 0 {
        lemma_folders_alerts_folder(members.drop_last());
        let prev = folders_alerts(members.drop_last());
        let last = members.last();
        let added = match items_of(last.1) {
            Some(groups) => groups_alerts(last.0@, groups),
            None => seq![],
        };
        if let Some(groups) = items_of(last.1) {
            lemma_groups_alerts_folder(last.0@, groups);
        }
        assert forall|i: int| 0 <= i < (prev + added).len() implies exists|m: int|
            0 <= m < members.len() && (#[trigger] members[m]).0@ == (
            #[trigger] (prev + added)[i]).folder by {
            if i >= prev.len() {
                assert((prev + added)[i] == added[i - prev.len()]);
                assert(members[members.len() - 1] == last);
            } else {
                assert((prev + added)[i] == prev[i]);
                let m = choose|m: int|
                    0 <= m < members.drop_last().len() && (#[trigger] members.drop_last()[m]).0@
                        == prev[i].folder;
                assert(members[m] == members.drop_last()[m]);
            }
        }
    }
}

/// Every alert listed from a Ruler answer carries the name of a folder of that
/// answer.
pub proof fn law_ruler_alert_folders_come_from_the_answer(result: Json)
    ensures
        forall|i: int|
            0 <= i < ruler_alerts(result).len() ==> (result matches Json::Object(members)
                && exists|m: int|
                0 <= m < members@.len() && (#[trigger] members@[m]).0@ == (
                #[trigger] ruler_alerts(result)[i]).folder),
{
    if let Json::Object(members) = result {
        lemma_folders_alerts_folder(members@);
    }
}

proof fn lemma_point_rows_len(values: Seq<Json>)
    ensures
        point_rows(values).len() <= values.len(),
    decreases values.len(),
{
    if values.len() > 0 {
        lemma_point_rows_len(values.drop_last());
    }
}

/// A series is listed in at most twelve lines: its labels, at most ten
/// samples, and the count of the rest.
pub proof fn law_series_listing_is_at_most_twelve_lines(s: Json)
    ensures
        series_rows(s).len() <= 12,
{
    if let Some(v) = crate::json::get(s, "values"@) {
        if let Some(values) = items_of(v) {
            let shown = values.take(if values.len() < 10 { values.len() as int } else { 10 });
            lemma_point_rows_len(shown);
        }
    }
}

/// Where the `i`-th column of a table starts: the widths before it, each with
/// its separating space.
pub open spec fn column_offset(cols: Seq<Column>, i: int) -> int
    decreases i,
{
    if i <= 0 {
        0
    } else {
        column_offset(cols, i - 1) + cols[i - 1].width + 1
    }
}

/// Cells of the column widths (all but the last) joined with spaces: each cell
/// starts at its column's offset.
proof fn lemma_join_aligned(c: Seq<Seq<char>>, cols: Seq<Column>, k: int)
    requires
        c.len() == cols.len(),
        1 <= k <= c.len(),
        forall|j: int| 0 <= j < c.len() - 1 ==> (#[trigger] c[j]).len() == cols[j].width,
    ensures
        join(c.take(k), " "@).len() == column_offset(cols, k - 1) + c[k - 1].len(),
        forall|i: int|
            0 <= i < k ==> join(c.take(k), " "@).subrange(
                column_offset(cols, i),
                column_offset(cols, i) + c[i].len(),
            ) == #[trigger] c[i],
    decreases k,
{
    reveal_strlit(" ");
    if k == 1 {
        assert(c.take(1).len() == 1);
        assert(join(c.take(1), " "@) == c.take(1)[0]);
        assert(c.take(1)[0] == c[0]);
        assert(c[0].subrange(0, c[0].len() as int) =~= c[0]);
    } else {
        lemma_join_aligned(c, cols, k - 1);
        let prev = join(c.take(k - 1), " "@);
        assert(c.take(k).drop_last() =~= c.take(k - 1));
        assert(c.take(k).last() == c[k - 1]);
        assert(join(c.take(k), " "@) == prev + " "@ + c[k - 1]);
        assert(c[k - 2].len() == cols[k - 2].width);
        assert forall|i: int| 0 <= i < k implies join(c.take(k), " "@).subrange(
            column_offset(cols, i),
            column_offset(cols, i) + c[i].len(),
        ) == #[trigger] c[i] by {
            let whole = prev + " "@ + c[k - 1];
            if i < k - 1 {
                lemma_offset_monotone(cols, i, k - 2);
                assert(c[i].len() == cols[i].width);
                assert(whole.subrange(column_offset(cols, i), column_offset(cols, i) + c[i].len())
                    =~= prev.subrange(column_offset(cols, i), column_offset(cols, i) + c[i].len()));
            } else {
                assert(whole.subrange(column_offset(cols, i), column_offset(cols, i) + c[i].len())
                    =~= c[k - 1]);
            }
        }
    }
}

proof fn lemma_offset_monotone(cols: Seq<Column>, i: int, j: int)
    requires
        0 <= i <= j,
    ensures
        0 <= column_offset(cols, i),
        column_offset(cols, i) + cols[i].width <= column_offset(cols, j) + cols[j].width,
    decreases j - i,
{
    lemma_offset_nonneg(cols, i);
    if i < j {
        lemma_offset_monotone(cols, i + 1, j);
    }
}

proof fn lemma_offset_nonneg(cols: Seq<Column>, i: int)
    ensures
        0 <= column_offset(cols, i),
    decreases i,
{
    if i > 0 {
        lemma_offset_nonneg(cols, i - 1);
    }
}

/// When every field but the last fits its column, each cell of a row starts
/// at the same place as its heading: the table's columns line up.
pub proof fn law_table_columns_line_up(
    parts: Seq<Seq<char>>,
    labels: Seq<Seq<char>>,
    cols: Seq<Column>,
    i: int,
)
    requires
        0 <= i < cols.len(),
        parts.len() >= cols.len(),
        labels.len() == cols.len(),
        forall|j: int|
            0 <= j < cols.len() - 1 ==> (#[trigger] cell_text(parts[j], cols[j].cell)).len()
                <= cols[j].width && labels[j].len() <= cols[j].width,
    ensures
        row_text(parts, cols).subrange(
            column_offset(cols, i),
            column_offset(cols, i) + padded_cells(parts, cols)[i].len(),
        ) == pad_right(cell_text(parts[i], cols[i].cell), cols[i].width as nat),
        header_text(labels, cols).subrange(
            column_offset(cols, i),
            column_offset(cols, i) + pad_right(labels[i], cols[i].width as nat).len(),
        ) == pad_right(labels[i], cols[i].width as nat),
{
    let cells = padded_cells(parts, cols);
    let heads = Seq::new(cols.len(), |j: int| pad_right(labels[j], cols[j].width as nat));
    assert forall|j: int| 0 <= j < cells.len() - 1 implies (#[trigger] cells[j]).len()
        == cols[j].width by {
        assert(cell_text(parts[j], cols[j].cell).len() <= cols[j].width);
    }
    assert forall|j: int| 0 <= j < heads.len() - 1 implies (#[trigger] heads[j]).len()
        == cols[j].width by {
        assert(cell_text(parts[j], cols[j].cell).len() <= cols[j].width);
    }
    lemma_join_aligned(cells, cols, cols.len() as int);
    lemma_join_aligned(heads, cols, cols.len() as int);
    assert(cells.take(cols.len() as int) =~= cells);
    assert(heads.take(cols.len() as int) =~= heads);
    assert(cells[i] == pad_right(cell_text(parts[i], cols[i].cell), cols[i].width as nat));
    assert(heads[i] == pad_right(labels[i], cols[i].width as nat));
}

} // verus!
