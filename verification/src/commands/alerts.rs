//! `alerts` (monitor states) and `issues` (problems detected in traces).
use vstd::prelude::*;

use crate::commands::{
    build_time_conditions, opt_eq, opt_like, opt_str, push_optional_eq, push_optional_like,
    since_condition,
};
use crate::duration::{duration_error_is, duration_fits, duration_seconds};
use crate::error::CliError;
use crate::table::{render_table, rows_fit, str_views, table_text, Cell, Column};
use crate::text::{
    append, append_str, chars_of, decimal, join, join_strings, opt_view,
    string_of, string_views, u64_decimal,
};

verus! {

/// The options of `alerts`.
#[derive(Debug)]
pub struct AlertsArgs {
    pub since: String,
    pub state: Option<String>,
    pub severity: Option<String>,
    pub namespace: Option<String>,
    pub workload: Option<String>,
    pub monitor: Option<String>,
    pub limit: u32,
    pub json: bool,
}

/// The options of `issues`.
#[derive(Debug)]
pub struct IssuesArgs {
    pub since: String,
    pub namespace: Option<String>,
    pub workload: Option<String>,
    pub grep: Option<String>,
    pub code: Option<String>,
    pub limit: u32,
    pub json: bool,
}

/// The conditions of the alerts query, for a window of `secs` seconds.
pub open spec fn alerts_conditions(args: AlertsArgs, secs: int) -> Seq<Seq<char>> {
    seq![since_condition("timestamp"@, secs)] + opt_eq("state"@, opt_view(args.state)) + opt_eq(
        "severity"@,
        opt_view(args.severity),
    ) + opt_eq("namespace"@, opt_view(args.namespace)) + opt_like(
        "workload"@,
        opt_view(args.workload),
    ) + opt_like("monitor_name"@, opt_view(args.monitor))
}

/// The alerts query.
pub open spec fn alerts_sql(args: AlertsArgs, secs: int) -> Seq<char> {
    "SELECT timestamp, monitor_name, state, severity, namespace, workload FROM monitor_state WHERE "@
        + join(alerts_conditions(args, secs), " AND "@) + " ORDER BY timestamp DESC LIMIT "@
        + decimal(args.limit as int)
}

/// The conditions of the issues query, for a window of `secs` seconds.
pub open spec fn issues_conditions(args: IssuesArgs, secs: int) -> Seq<Seq<char>> {
    seq![since_condition("last_seen"@, secs)] + opt_eq("namespace"@, opt_view(args.namespace))
        + opt_like("workload"@, opt_view(args.workload)) + opt_like(
        "issue_description"@,
        opt_view(args.grep),
    ) + opt_eq("return_code"@, opt_view(args.code))
}

/// The issues query.
pub open spec fn issues_sql(args: IssuesArgs, secs: int) -> Seq<char> {
    "SELECT last_seen, namespace, workload, issue_description, return_code, sum(incident_count) as total_count FROM traces_issues_list_one_minute_view WHERE "@
        + join(issues_conditions(args, secs), " AND "@)
        + " GROUP BY last_seen, namespace, workload, issue_description, return_code ORDER BY last_seen DESC LIMIT "@
        + decimal(args.limit as int)
}

/// The columns of the alerts table.
pub open spec fn alert_columns() -> Seq<Column> {
    seq![
        Column { width: 24, cell: Cell::Plain },
        Column { width: 40, cell: Cell::Cut(40) },
        Column { width: 10, cell: Cell::Plain },
        Column { width: 6, cell: Cell::Plain },
        Column { width: 20, cell: Cell::Plain },
        Column { width: 0, cell: Cell::Plain },
    ]
}

/// The headings of the alerts table.
pub open spec fn alert_labels() -> Seq<Seq<char>> {
    seq!["TIMESTAMP"@, "MONITOR"@, "STATE"@, "SEV"@, "NAMESPACE"@, "WORKLOAD"@]
}

/// The columns of the issues table.
pub open spec fn issue_columns() -> Seq<Column> {
    seq![
        Column { width: 24, cell: Cell::Plain },
        Column { width: 20, cell: Cell::Cut(20) },
        Column { width: 25, cell: Cell::Cut(25) },
        Column { width: 30, cell: Cell::Cut(30) },
        Column { width: 8, cell: Cell::Null },
        Column { width: 0, cell: Cell::Null },
    ]
}

/// The headings of the issues table.
pub open spec fn issue_labels() -> Seq<Seq<char>> {
    seq!["LAST_SEEN"@, "NAMESPACE"@, "WORKLOAD"@, "ISSUE"@, "CODE"@, "COUNT"@]
}

/// `u32` in decimal.
fn u32_text(n: u32) -> (r: Vec<char>)
    ensures
        r@ == decimal(n as int),
{
    u64_decimal(n as u64)
}

/// The query for `alerts`: monitor states within the window, filtered by
/// state, severity and namespace (equal) and workload and monitor (substring),
/// newest first.
pub fn build_alerts_sql(args: &AlertsArgs) -> (r: Result<String, CliError>)
    requires
        duration_fits(args.since@),
    ensures
        match duration_seconds(args.since@) {
            Ok(secs) => r matches Ok(s) && s@ == alerts_sql(*args, secs),
            Err(f) => r matches Err(e) && duration_error_is(args.since@, f, e),
        },
{
    let mut conditions = match build_time_conditions("timestamp", args.since.as_str()) {
        Ok(c) => c,
        Err(e) => return Err(e),
    };
    let ghost secs = duration_seconds(args.since@)->Ok_0;
    push_optional_eq(&mut conditions, "state", opt_str(&args.state));
    push_optional_eq(&mut conditions, "severity", opt_str(&args.severity));
    push_optional_eq(&mut conditions, "namespace", opt_str(&args.namespace));
    push_optional_like(&mut conditions, "workload", opt_str(&args.workload));
    push_optional_like(&mut conditions, "monitor_name", opt_str(&args.monitor));
    assert(string_views(conditions@) == alerts_conditions(*args, secs));
    let mut v = chars_of(
        "SELECT timestamp, monitor_name, state, severity, namespace, workload FROM monitor_state WHERE ",
    );
    append_str(&mut v, join_strings(&conditions, " AND ").as_str());
    append_str(&mut v, " ORDER BY timestamp DESC LIMIT ");
    append(&mut v, &u32_text(args.limit));
    Ok(string_of(&v))
}

/// The query for `issues`: issues seen within the window, filtered by
/// namespace and return code (equal) and workload and description (substring),
/// counted per issue, latest first.
pub fn build_issues_sql(args: &IssuesArgs) -> (r: Result<String, CliError>)
    requires
        duration_fits(args.since@),
    ensures
        match duration_seconds(args.since@) {
            Ok(secs) => r matches Ok(s) && s@ == issues_sql(*args, secs),
            Err(f) => r matches Err(e) && duration_error_is(args.since@, f, e),
        },
{
    let mut conditions = match build_time_conditions("last_seen", args.since.as_str()) {
        Ok(c) => c,
        Err(e) => return Err(e),
    };
    let ghost secs = duration_seconds(args.since@)->Ok_0;
    push_optional_eq(&mut conditions, "namespace", opt_str(&args.namespace));
    push_optional_like(&mut conditions, "workload", opt_str(&args.workload));
    push_optional_like(&mut conditions, "issue_description", opt_str(&args.grep));
    push_optional_eq(&mut conditions, "return_code", opt_str(&args.code));
    assert(string_views(conditions@) == issues_conditions(*args, secs));
    let mut v = chars_of(
        "SELECT last_seen, namespace, workload, issue_description, return_code, sum(incident_count) as total_count FROM traces_issues_list_one_minute_view WHERE ",
    );
    append_str(&mut v, join_strings(&conditions, " AND ").as_str());
    append_str(
        &mut v,
        " GROUP BY last_seen, namespace, workload, issue_description, return_code ORDER BY last_seen DESC LIMIT ",
    );
    append(&mut v, &u32_text(args.limit));
    Ok(string_of(&v))
}

/// The alerts table for tab-separated rows.
pub fn alert_rows(rows: &str) -> (r: Vec<String>)
    requires
        rows_fit(rows@, alert_columns()),
    ensures
        string_views(r@) == table_text(rows@, alert_labels(), alert_columns(), 120),
{
    let labels: [&str; 6] = ["TIMESTAMP", "MONITOR", "STATE", "SEV", "NAMESPACE", "WORKLOAD"];
    let cols: [Column; 6] = [
        Column { width: 24, cell: Cell::Plain },
        Column { width: 40, cell: Cell::Cut(40) },
        Column { width: 10, cell: Cell::Plain },
        Column { width: 6, cell: Cell::Plain },
        Column { width: 20, cell: Cell::Plain },
        Column { width: 0, cell: Cell::Plain },
    ];
    assert(cols@ =~= alert_columns());
    assert(str_views(labels@) =~= alert_labels());
    render_table(rows, &labels, &cols, 120)
}

/// The issues table for tab-separated rows.
pub fn issue_rows(rows: &str) -> (r: Vec<String>)
    requires
        rows_fit(rows@, issue_columns()),
    ensures
        string_views(r@) == table_text(rows@, issue_labels(), issue_columns(), 120),
{
    let labels: [&str; 6] = ["LAST_SEEN", "NAMESPACE", "WORKLOAD", "ISSUE", "CODE", "COUNT"];
    let cols: [Column; 6] = [
        Column { width: 24, cell: Cell::Plain },
        Column { width: 20, cell: Cell::Cut(20) },
        Column { width: 25, cell: Cell::Cut(25) },
        Column { width: 30, cell: Cell::Cut(30) },
        Column { width: 8, cell: Cell::Null },
        Column { width: 0, cell: Cell::Null },
    ];
    assert(cols@ =~= issue_columns());
    assert(str_views(labels@) =~= issue_labels());
    render_table(rows, &labels, &cols, 120)
}

} // verus!
