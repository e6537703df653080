//! `logs`, `traces`, `events`, `metrics` and `tables`.
use vstd::prelude::*;

use crate::commands::{
    build_time_conditions, opt_eq, opt_like, opt_str, push_optional_eq,
    push_optional_like, since_condition,
};
use crate::duration::{
    div_toward_zero, duration_error_is, duration_fits, duration_seconds, parse_duration,
    Duration,
};
use crate::error::CliError;
use crate::json::{get, items_of, str_of, Json};
use crate::text::{
    append, append_str, chars_eq, chars_of, decimal, join, join_strings, lines, lines_chars,
    opt_str_view, opt_view, push_string, string_of, string_views, to_uppercase, u64_decimal,
    unicode_uppercase,
};

verus! {

/// The options of `logs`.
#[derive(Debug)]
pub struct LogsArgs {
    pub since: String,
    pub workload: Option<String>,
    pub namespace: Option<String>,
    pub level: Option<String>,
    pub grep: Option<String>,
    pub limit: u32,
    pub json: bool,
}

/// The options of `traces`.
#[derive(Debug)]
pub struct TracesArgs {
    pub since: String,
    pub workload: Option<String>,
    pub operation: Option<String>,
    pub min_duration: Option<u64>,
    pub status: Option<String>,
    pub limit: u32,
    pub json: bool,
}

/// The options of `events`.
#[derive(Debug)]
pub struct EventsArgs {
    pub since: String,
    pub namespace: Option<String>,
    pub event_type: Option<String>,
    pub reason: Option<String>,
    pub limit: u32,
    pub json: bool,
}

/// The options of `metrics`.
#[derive(Debug)]
pub struct MetricsArgs {
    pub query: String,
    pub since: String,
    pub step: String,
    pub json: bool,
}

/// The uppercase form of an optional text.
pub open spec fn upper_opt(o: Option<Seq<char>>) -> Option<Seq<char>> {
    match o {
        Some(s) => Some(unicode_uppercase(s)),
        None => None,
    }
}

/// The conditions of the logs query, for a window of `secs` seconds and the
/// level in uppercase.
pub open spec fn logs_conditions(args: LogsArgs, secs: int, level_upper: Option<Seq<char>>) -> Seq<
    Seq<char>,
> {
    seq![since_condition("timestamp"@, secs)] + opt_like("workload"@, opt_view(args.workload))
        + opt_eq("namespace"@, opt_view(args.namespace)) + opt_eq("level"@, level_upper)
        + opt_like("body"@, opt_view(args.grep))
}

/// The logs query.
pub open spec fn logs_sql(args: LogsArgs, secs: int, level_upper: Option<Seq<char>>) -> Seq<char> {
    "SELECT timestamp, namespace, workload, level, body FROM logs WHERE "@ + join(
        logs_conditions(args, secs, level_upper),
        " AND "@,
    ) + " ORDER BY timestamp DESC LIMIT "@ + decimal(args.limit as int)
}

/// A text search over more than 24 hours of logs, which the server cannot
/// finish.
pub open spec fn grep_window_too_large(args: LogsArgs, secs: int) -> bool {
    args.grep is Some && div_toward_zero(secs, 3600) > 24
}

/// What `logs` asks for: the query, or why it refuses.
pub open spec fn logs_outcome(
    args: LogsArgs,
    level_upper: Option<Seq<char>>,
    r: Result<String, CliError>,
) -> bool {
    match duration_seconds(args.since@) {
        Ok(secs) => if grep_window_too_large(args, secs) {
            r matches Err(CliError::GrepWindowTooLarge { since }) && since@ == args.since@
        } else {
            r matches Ok(s) && s@ == logs_sql(args, secs, level_upper)
        },
        Err(f) => r matches Err(e) && duration_error_is(args.since@, f, e),
    }
}

/// The condition a status filter adds: errors are non-zero status codes, ok
/// is zero; other values add none.
pub open spec fn status_condition(status: Option<Seq<char>>) -> Seq<Seq<char>> {
    match status {
        Some(s) => if s == "error"@ {
            seq!["status_code != 0"@]
        } else if s == "ok"@ {
            seq!["status_code = 0"@]
        } else {
            seq![]
        },
        None => seq![],
    }
}

/// The condition a minimum duration adds.
pub open spec fn min_duration_condition(min: Option<u64>) -> Seq<Seq<char>> {
    match min {
        Some(m) => seq!["duration_ms >= "@ + decimal(m as int)],
        None => seq![],
    }
}

/// The conditions of the traces query.
pub open spec fn traces_conditions(args: TracesArgs, secs: int) -> Seq<Seq<char>> {
    seq![since_condition("start_timestamp"@, secs)] + opt_like(
        "service_name"@,
        opt_view(args.workload),
    ) + opt_like("operation"@, opt_view(args.operation)) + min_duration_condition(
        args.min_duration,
    ) + status_condition(opt_view(args.status))
}

/// The traces query.
pub open spec fn traces_sql(args: TracesArgs, secs: int) -> Seq<char> {
    "SELECT start_timestamp, service_name, operation, duration_ms, status_code FROM traces WHERE "@
        + join(traces_conditions(args, secs), " AND "@)
        + " ORDER BY start_timestamp DESC LIMIT "@ + decimal(args.limit as int)
}

/// The conditions of the events query.
pub open spec fn events_conditions(args: EventsArgs, secs: int) -> Seq<Seq<char>> {
    seq![since_condition("timestamp"@, secs), "length(k8s_reason) > 0"@] + opt_eq(
        "entity_namespace"@,
        opt_view(args.namespace),
    ) + opt_eq("type"@, opt_view(args.event_type)) + opt_like(
        "k8s_reason"@,
        opt_view(args.reason),
    )
}

/// The events query.
pub open spec fn events_sql(args: EventsArgs, secs: int) -> Seq<char> {
    "SELECT timestamp, entity_namespace, type, k8s_reason, k8s_message FROM events WHERE "@
        + join(events_conditions(args, secs), " AND "@) + " ORDER BY timestamp DESC LIMIT "@
        + decimal(args.limit as int)
}

/// A line of the metrics listing.
pub enum MetricsLine<'a> {
    /// `Metric: <labels>` for a series.
    Series(&'a Json),
    /// `  <timestamp>: <value>` for a sample.
    Point(&'a Json, &'a str),
    /// `  ... and <n> more values` after the first ten samples.
    More(usize),
}

/// A line of the metrics listing, as values.
pub enum MetricsRow {
    Series(Json),
    Point(Json, Seq<char>),
    More(nat),
}

/// The value of a listing line.
pub open spec fn row_of(l: MetricsLine) -> MetricsRow {
    match l {
        MetricsLine::Series(m) => MetricsRow::Series(*m),
        MetricsLine::Point(t, v) => MetricsRow::Point(*t, v@),
        MetricsLine::More(n) => MetricsRow::More(n as nat),
    }
}

/// The series in a range-query answer: `data.result`, when it is an array.
pub open spec fn result_series(result: Json) -> Option<Seq<Json>> {
    match get(result, "data"@) {
        Some(d) => match get(d, "result"@) {
            Some(r) => items_of(r),
            None => None,
        },
        None => None,
    }
}

/// The sample lines: one per sample that is an array of two or more, with its
/// first item and the text of its second (`?` when it is no string).
pub open spec fn point_rows(values: Seq<Json>) -> Seq<MetricsRow>
    decreases values.len(),
{
    if values.len() == 0 {
        seq![]
    } else {
        point_rows(values.drop_last()) + match items_of(values.last()) {
            Some(pair) => if pair.len() >= 2 {
                seq![
                    MetricsRow::Point(
                        pair[0],
                        match str_of(pair[1]) {
                            Some(s) => s,
                            None => "?"@,
                        },
                    ),
                ]
            } else {
                seq![]
            },
            None => seq![],
        }
    }
}

/// The lines for one series: its labels when present, then, when it has a
/// `values` array, its first ten samples and how many more there are.
pub open spec fn series_rows(s: Json) -> Seq<MetricsRow> {
    (match get(s, "metric"@) {
        Some(m) => seq![MetricsRow::Series(m)],
        None => seq![],
    }) + match get(s, "values"@) {
        Some(v) => match items_of(v) {
            Some(values) => point_rows(values.take(if values.len() < 10 { values.len() as int } else { 10 }))
                + if values.len() > 10 {
                seq![MetricsRow::More((values.len() - 10) as nat)]
            } else {
                seq![]
            },
            None => seq![],
        },
        None => seq![],
    }
}

/// The lines for all series.
pub open spec fn all_series_rows(series: Seq<Json>) -> Seq<MetricsRow>
    decreases series.len(),
{
    if series.len() == 0 {
        seq![]
    } else {
        all_series_rows(series.drop_last()) + series_rows(series.last())
    }
}

/// The listing lines for the series.
pub open spec fn rows_of(lines: Seq<MetricsLine>) -> Seq<MetricsRow> {
    lines.map_values(|l: MetricsLine| row_of(l))
}

/// The `tables` listing: a title, then each table name indented.
pub open spec fn tables_text(result: Seq<char>) -> Seq<Seq<char>> {
    seq!["Available tables:"@] + lines(result).map_values(|l: Seq<char>| "  "@ + l)
}

/// `n` in decimal.
fn u32_text(n: u32) -> (r: Vec<char>)
    ensures
        r@ == decimal(n as int),
{
    u64_decimal(n as u64)
}

/// The logs query given the level already in uppercase (`None` when no level
/// was asked for).
pub fn logs_sql_for_level(args: &LogsArgs, level_upper: Option<&str>) -> (r: Result<String, CliError>)
    requires
        duration_fits(args.since@),
    ensures
        logs_outcome(*args, opt_str_view(level_upper), r),
{
    let duration = match parse_duration(args.since.as_str()) {
        Ok(d) => d,
        Err(e) => return Err(e),
    };
    if args.grep.is_some() && duration.num_hours() > 24 {
        return Err(CliError::GrepWindowTooLarge { since: String::from_str(args.since.as_str()) });
    }
    let mut conditions = match build_time_conditions("timestamp", args.since.as_str()) {
        Ok(c) => c,
        Err(e) => return Err(e),
    };
    let ghost secs = duration@;
    push_optional_like(&mut conditions, "workload", opt_str(&args.workload));
    push_optional_eq(&mut conditions, "namespace", opt_str(&args.namespace));
    push_optional_eq(&mut conditions, "level", level_upper);
    push_optional_like(&mut conditions, "body", opt_str(&args.grep));
    assert(string_views(conditions@) == logs_conditions(*args, secs, opt_str_view(level_upper)));
    let mut v = chars_of("SELECT timestamp, namespace, workload, level, body FROM logs WHERE ");
    append_str(&mut v, join_strings(&conditions, " AND ").as_str());
    append_str(&mut v, " ORDER BY timestamp DESC LIMIT ");
    append(&mut v, &u32_text(args.limit));
    Ok(string_of(&v))
}

/// The query for `logs`: log lines within the window, filtered by workload and
/// text (substring), namespace and level (equal, the level in uppercase),
/// newest first. A text search is refused for windows over 24 hours.
pub fn build_logs_sql(args: &LogsArgs) -> (r: Result<String, CliError>)
    requires
        duration_fits(args.since@),
    ensures
        logs_outcome(*args, upper_opt(opt_view(args.level)), r),
{
    match &args.level {
        Some(l) => {
            let upper = to_uppercase(l.as_str());
            logs_sql_for_level(args, Some(upper.as_str()))
        },
        None => logs_sql_for_level(args, None),
    }
}

/// The query for `traces`: spans within the window, filtered by service and
/// operation (substring), minimum duration and status, newest first.
pub fn build_traces_sql(args: &TracesArgs) -> (r: Result<String, CliError>)
    requires
        duration_fits(args.since@),
    ensures
        match duration_seconds(args.since@) {
            Ok(secs) => r matches Ok(s) && s@ == traces_sql(*args, secs),
            Err(f) => r matches Err(e) && duration_error_is(args.since@, f, e),
        },
{
    let mut conditions = match build_time_conditions("start_timestamp", args.since.as_str()) {
        Ok(c) => c,
        Err(e) => return Err(e),
    };
    let ghost secs = duration_seconds(args.since@)->Ok_0;
    push_optional_like(&mut conditions, "service_name", opt_str(&args.workload));
    push_optional_like(&mut conditions, "operation", opt_str(&args.operation));
    match args.min_duration {
        Some(m) => {
            let mut c = chars_of("duration_ms >= ");
            append(&mut c, &u64_decimal(m));
            push_string(&mut conditions, string_of(&c));
        },
        None => {},
    }
    let ghost mid = string_views(conditions@);
    match &args.status {
        Some(s) => {
            let sc = chars_of(s.as_str());
            if chars_eq(&sc, &chars_of("error")) {
                push_string(&mut conditions, String::from_str("status_code != 0"));
            } else if chars_eq(&sc, &chars_of("ok")) {
                push_string(&mut conditions, String::from_str("status_code = 0"));
            }
        },
        None => {},
    }
    assert(string_views(conditions@) =~= mid + status_condition(opt_view(args.status)));
    assert(string_views(conditions@) =~= traces_conditions(*args, secs));
    let mut v = chars_of(
        "SELECT start_timestamp, service_name, operation, duration_ms, status_code FROM traces WHERE ",
    );
    append_str(&mut v, join_strings(&conditions, " AND ").as_str());
    append_str(&mut v, " ORDER BY start_timestamp DESC LIMIT ");
    append(&mut v, &u32_text(args.limit));
    Ok(string_of(&v))
}

/// The query for `events`: Kubernetes events with a reason within the window,
/// filtered by namespace and type (equal) and reason (substring), newest first.
pub fn build_events_sql(args: &EventsArgs) -> (r: Result<String, CliError>)
    requires
        duration_fits(args.since@),
    ensures
        match duration_seconds(args.since@) {
            Ok(secs) => r matches Ok(s) && s@ == events_sql(*args, secs),
            Err(f) => r matches Err(e) && duration_error_is(args.since@, f, e),
        },
{
    let mut conditions = match build_time_conditions("timestamp", args.since.as_str()) {
        Ok(c) => c,
        Err(e) => return Err(e),
    };
    let ghost secs = duration_seconds(args.since@)->Ok_0;
    push_string(&mut conditions, String::from_str("length(k8s_reason) > 0"));
    push_optional_eq(&mut conditions, "entity_namespace", opt_str(&args.namespace));
    push_optional_eq(&mut conditions, "type", opt_str(&args.event_type));
    push_optional_like(&mut conditions, "k8s_reason", opt_str(&args.reason));
    assert(string_views(conditions@) =~= events_conditions(*args, secs));
    let mut v = chars_of(
        "SELECT timestamp, entity_namespace, type, k8s_reason, k8s_message FROM events WHERE ",
    );
    append_str(&mut v, join_strings(&conditions, " AND ").as_str());
    append_str(&mut v, " ORDER BY timestamp DESC LIMIT ");
    append(&mut v, &u32_text(args.limit));
    Ok(string_of(&v))
}

/// The range of a metrics query ending at `now` (Unix seconds): from `now`
/// minus the span to `now`.
pub fn metrics_window(now: i64, since: &Duration) -> (r: (i64, i64))
    requires
        i64::MIN <= now - since@ <= i64::MAX,
    ensures
        r.0 == now - since@,
        r.1 == now,
{
    (now - since.num_seconds(), now)
}

/// The lines of one series.
fn series_lines<'a>(s: &'a Json, out: &mut Vec<MetricsLine<'a>>)
    ensures
        rows_of(final(out)@) == rows_of(old(out)@) + series_rows(*s),
{
    let ghost before = rows_of(out@);
    match s.get("metric") {
        Some(m) => out.push(MetricsLine::Series(m)),
        None => {},
    }
    let ghost head = rows_of(out@);
    assert(head =~= before + match get(*s, "metric"@) {
        Some(m) => seq![MetricsRow::Series(m)],
        None => seq![],
    });
    let values = match s.get("values") {
        Some(v) => match v.as_array() {
            Some(a) => a,
            None => {
                assert(rows_of(out@) =~= before + series_rows(*s));
                return;
            },
        },
        None => {
            assert(rows_of(out@) =~= before + series_rows(*s));
            return;
        },
    };
    let shown = if values.len() < 10 { values.len() } else { 10 };
    let mut i: usize = 0;
    while i < shown
        invariant
            i <= shown <= values@.len(),
            rows_of(out@) == head + point_rows(values@.take(i as int)),
        decreases shown - i,
    {
        let ghost pre = rows_of(out@);
        let val = &values[i];
        assert(values@.take(i + 1).drop_last() =~= values@.take(i as int));
        assert(values@.take(i + 1).last() == values@[i as int]);
        match val.as_array() {
            Some(pair) => {
                if pair.len() >= 2 {
                    let text = match pair[1].as_str() {
                        Some(t) => t,
                        None => "?",
                    };
                    out.push(MetricsLine::Point(&pair[0], text));
                    assert(rows_of(out@) =~= pre.push(row_of(MetricsLine::Point(&pair[0], text))));
                }
            },
            None => {},
        }
        i += 1;
        assert(rows_of(out@) =~= head + point_rows(values@.take(i as int)));
    }
    let ghost mid = rows_of(out@);
    if values.len() > 10 {
        out.push(MetricsLine::More(values.len() - 10));
        assert(rows_of(out@) =~= mid.push(MetricsRow::More((values@.len() - 10) as nat)));
    }
    assert(rows_of(out@) =~= before + series_rows(*s));
}

/// The listing of a range-query answer: for each series in `data.result`, its
/// labels, up to ten samples and how many more there are. `None` when the
/// answer has no such array (it is then shown whole).
pub fn metrics_lines<'a>(result: &'a Json) -> (r: Option<Vec<MetricsLine<'a>>>)
    ensures
        match result_series(*result) {
            Some(series) => r matches Some(v) && rows_of(v@) == all_series_rows(series),
            None => r is None,
        },
{
    let series = match result.get("data") {
        Some(d) => match d.get("result") {
            Some(r) => match r.as_array() {
                Some(a) => a,
                None => return None,
            },
            None => return None,
        },
        None => return None,
    };
    let mut out: Vec<MetricsLine<'a>> = Vec::new();
    let mut i: usize = 0;
    assert(rows_of(out@) =~= all_series_rows(series@.take(0)));
    while i < series.len()
        invariant
            i <= series@.len(),
            rows_of(out@) == all_series_rows(series@.take(i as int)),
        decreases series.len() - i,
    {
        assert(series@.take(i + 1).drop_last() =~= series@.take(i as int));
        assert(series@.take(i + 1).last() == series@[i as int]);
        series_lines(&series[i], &mut out);
        i += 1;
    }
    assert(series@.take(series@.len() as int) =~= series@);
    Some(out)
}

/// The `tables` listing for the tab-separated table names.
pub fn tables_listing(result: &str) -> (r: Vec<String>)
    ensures
        string_views(r@) == tables_text(result@),
{
    let all = chars_of(result);
    let ls = lines_chars(&all);
    let ghost spec_lines = lines(result@);
    let mut out: Vec<String> = Vec::new();
    push_string(&mut out, String::from_str("Available tables:"));
    let mut k: usize = 0;
    while k < ls.len()
        invariant
            k <= ls@.len() == spec_lines.len(),
            spec_lines == lines(result@),
            forall|j: int| 0 <= j < ls@.len() ==> #[trigger] ls@[j]@ == spec_lines[j],
            string_views(out@) == seq!["Available tables:"@] + spec_lines.take(k as int).map_values(
                |l: Seq<char>| "  "@ + l,
            ),
        decreases ls.len() - k,
    {
        let mut line = chars_of("  ");
        append(&mut line, &ls[k]);
        push_string(&mut out, string_of(&line));
        k += 1;
        assert(string_views(out@) =~= seq!["Available tables:"@] + spec_lines.take(
            k as int,
        ).map_values(|l: Seq<char>| "  "@ + l));
    }
    assert(spec_lines.take(ls@.len() as int) =~= spec_lines);
    out
}

} // verus!
