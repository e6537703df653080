//! `api` (endpoints with their rates and latencies) and `workloads`.
use vstd::prelude::*;

use crate::commands::{opt_eq, opt_like, opt_str, push_optional_eq, push_optional_like};
use crate::table::{render_table, rows_fit, str_views, table_text, yes_no, Cell, Column};
use crate::text::{
    append, append_str, chars_eq, chars_of, decimal, join, join_strings, opt_view, push_string,
    string_of, string_views, u64_decimal,
};

verus! {

/// The options of `api`.
#[derive(Debug)]
pub struct ApiArgs {
    pub namespace: Option<String>,
    pub workload: Option<String>,
    pub endpoint: Option<String>,
    pub errors: bool,
    pub limit: u32,
    pub json: bool,
}

/// The options of `workloads`.
#[derive(Debug)]
pub struct WorkloadsArgs {
    pub namespace: Option<String>,
    pub workload: Option<String>,
    pub kind: Option<String>,
    pub errors: bool,
    pub not_ready: bool,
    pub limit: u32,
    pub json: bool,
}

/// A `WHERE` clause joining the conditions with `AND`; empty without conditions.
pub open spec fn where_clause(conditions: Seq<Seq<char>>) -> Seq<char> {
    if conditions.len() == 0 {
        seq![]
    } else {
        "WHERE "@ + join(conditions, " AND "@)
    }
}

/// The condition when `flag` is set, else none.
pub open spec fn flag_condition(flag: bool, condition: Seq<char>) -> Seq<Seq<char>> {
    if flag {
        seq![condition]
    } else {
        seq![]
    }
}

/// The conditions of the endpoints query.
pub open spec fn api_conditions(args: ApiArgs) -> Seq<Seq<char>> {
    opt_eq("server_namespace"@, opt_view(args.namespace)) + opt_like(
        "server"@,
        opt_view(args.workload),
    ) + opt_like("span_name"@, opt_view(args.endpoint)) + flag_condition(
        args.errors,
        "error_rate > 0"@,
    )
}

/// The endpoints query.
pub open spec fn api_sql(args: ApiArgs) -> Seq<char> {
    "SELECT server_namespace, server, span_name, round(rps, 2) as rps, round(error_rate * 100, 2) as error_pct, round(p50, 1) as p50_ms, round(p99, 1) as p99_ms FROM apm_measurements_resource_refreshable_one_hour "@
        + where_clause(api_conditions(args)) + " ORDER BY rps DESC NULLS LAST LIMIT "@ + decimal(
        args.limit as int,
    )
}

/// The conditions of the workloads query.
pub open spec fn workloads_conditions(args: WorkloadsArgs) -> Seq<Seq<char>> {
    opt_eq("namespace"@, opt_view(args.namespace)) + opt_like("workload"@, opt_view(args.workload))
        + opt_eq("kind"@, opt_view(args.kind)) + flag_condition(args.errors, "error_rate > 0"@)
        + flag_condition(args.not_ready, "ready = false"@)
}

/// The workloads query.
pub open spec fn workloads_sql(args: WorkloadsArgs) -> Seq<char> {
    "SELECT namespace, workload, kind, ready, pods_count, round(rps, 2) as rps, round(error_rate * 100, 2) as error_pct, round(p50, 1) as p50_ms, round(p99, 1) as p99_ms FROM workloads_refreshable "@
        + where_clause(workloads_conditions(args)) + " ORDER BY rps DESC NULLS LAST LIMIT "@
        + decimal(args.limit as int)
}

/// The columns of the endpoints table.
pub open spec fn api_columns() -> Seq<Column> {
    seq![
        Column { width: 20, cell: Cell::Cut(20) },
        Column { width: 25, cell: Cell::Cut(25) },
        Column { width: 50, cell: Cell::Cut(50) },
        Column { width: 10, cell: Cell::Null },
        Column { width: 8, cell: Cell::Null },
        Column { width: 8, cell: Cell::Null },
        Column { width: 0, cell: Cell::Null },
    ]
}

/// The headings of the endpoints table.
pub open spec fn api_labels() -> Seq<Seq<char>> {
    seq!["NAMESPACE"@, "SERVICE"@, "ENDPOINT"@, "RPS"@, "ERR%"@, "P50ms"@, "P99ms"@]
}

/// The columns of the workloads table.
pub open spec fn workload_columns() -> Seq<Column> {
    seq![
        Column { width: 20, cell: Cell::Plain },
        Column { width: 30, cell: Cell::Cut(30) },
        Column { width: 12, cell: Cell::Plain },
        Column { width: 6, cell: Cell::YesNo },
        Column { width: 6, cell: Cell::Null },
        Column { width: 8, cell: Cell::Null },
        Column { width: 8, cell: Cell::Null },
        Column { width: 8, cell: Cell::Null },
        Column { width: 0, cell: Cell::Null },
    ]
}

/// The headings of the workloads table.
pub open spec fn workload_labels() -> Seq<Seq<char>> {
    seq![
        "NAMESPACE"@,
        "WORKLOAD"@,
        "KIND"@,
        "READY"@,
        "PODS"@,
        "RPS"@,
        "ERR%"@,
        "P50ms"@,
        "P99ms"@,
    ]
}

/// `WHERE` and the conditions joined with `AND`; empty without conditions.
pub fn build_where(conditions: &Vec<String>) -> (r: String)
    ensures
        r@ == where_clause(string_views(conditions@)),
{
    if conditions.len() == 0 {
        String::new()
    } else {
        let mut v = chars_of("WHERE ");
        append_str(&mut v, join_strings(conditions, " AND ").as_str());
        string_of(&v)
    }
}

/// Adds `condition` when `flag` is set.
fn push_flag(conditions: &mut Vec<String>, flag: bool, condition: &str)
    ensures
        string_views(final(conditions)@) == string_views(old(conditions)@) + flag_condition(
            flag,
            condition@,
        ),
{
    if flag {
        push_string(conditions, String::from_str(condition));
    }
    assert(string_views(conditions@) =~= string_views(old(conditions)@) + flag_condition(
        flag,
        condition@,
    ));
}

/// The query for `api`: endpoints of the last hour, filtered by namespace
/// (equal), server and endpoint (substring) and, with `errors`, those with
/// errors, busiest first.
pub fn build_api_sql(args: &ApiArgs) -> (r: String)
    ensures
        r@ == api_sql(*args),
{
    let mut conditions: Vec<String> = Vec::new();
    push_optional_eq(&mut conditions, "server_namespace", opt_str(&args.namespace));
    push_optional_like(&mut conditions, "server", opt_str(&args.workload));
    push_optional_like(&mut conditions, "span_name", opt_str(&args.endpoint));
    push_flag(&mut conditions, args.errors, "error_rate > 0");
    assert(string_views(conditions@) =~= api_conditions(*args));
    let where_text = build_where(&conditions);
    let mut v = chars_of(
        "SELECT server_namespace, server, span_name, round(rps, 2) as rps, round(error_rate * 100, 2) as error_pct, round(p50, 1) as p50_ms, round(p99, 1) as p99_ms FROM apm_measurements_resource_refreshable_one_hour ",
    );
    append_str(&mut v, where_text.as_str());
    append_str(&mut v, " ORDER BY rps DESC NULLS LAST LIMIT ");
    append(&mut v, &u64_decimal(args.limit as u64));
    string_of(&v)
}

/// The query for `workloads`: filtered by namespace and kind (equal), workload
/// (substring) and, when asked, those with errors or not ready, busiest first.
pub fn build_workloads_sql(args: &WorkloadsArgs) -> (r: String)
    ensures
        r@ == workloads_sql(*args),
{
    let mut conditions: Vec<String> = Vec::new();
    push_optional_eq(&mut conditions, "namespace", opt_str(&args.namespace));
    push_optional_like(&mut conditions, "workload", opt_str(&args.workload));
    push_optional_eq(&mut conditions, "kind", opt_str(&args.kind));
    push_flag(&mut conditions, args.errors, "error_rate > 0");
    push_flag(&mut conditions, args.not_ready, "ready = false");
    assert(string_views(conditions@) =~= workloads_conditions(*args));
    let where_text = build_where(&conditions);
    let mut v = chars_of(
        "SELECT namespace, workload, kind, ready, pods_count, round(rps, 2) as rps, round(error_rate * 100, 2) as error_pct, round(p50, 1) as p50_ms, round(p99, 1) as p99_ms FROM workloads_refreshable ",
    );
    append_str(&mut v, where_text.as_str());
    append_str(&mut v, " ORDER BY rps DESC NULLS LAST LIMIT ");
    append(&mut v, &u64_decimal(args.limit as u64));
    string_of(&v)
}

/// `yes` for `true`, `no` for anything else.
pub fn yes_or_no(value: &str) -> (r: &str)
    ensures
        r@ == yes_no(value@),
{
    let v = chars_of(value);
    let t = chars_of("true");
    if chars_eq(&v, &t) {
        "yes"
    } else {
        "no"
    }
}

/// The endpoints table for tab-separated rows.
pub fn api_rows(rows: &str) -> (r: Vec<String>)
    requires
        rows_fit(rows@, api_columns()),
    ensures
        string_views(r@) == table_text(rows@, api_labels(), api_columns(), 130),
{
    let labels: [&str; 7] = ["NAMESPACE", "SERVICE", "ENDPOINT", "RPS", "ERR%", "P50ms", "P99ms"];
    let cols: [Column; 7] = [
        Column { width: 20, cell: Cell::Cut(20) },
        Column { width: 25, cell: Cell::Cut(25) },
        Column { width: 50, cell: Cell::Cut(50) },
        Column { width: 10, cell: Cell::Null },
        Column { width: 8, cell: Cell::Null },
        Column { width: 8, cell: Cell::Null },
        Column { width: 0, cell: Cell::Null },
    ];
    assert(cols@ =~= api_columns());
    assert(str_views(labels@) =~= api_labels());
    render_table(rows, &labels, &cols, 130)
}

/// The workloads table for tab-separated rows.
pub fn workload_rows(rows: &str) -> (r: Vec<String>)
    requires
        rows_fit(rows@, workload_columns()),
    ensures
        string_views(r@) == table_text(rows@, workload_labels(), workload_columns(), 120),
{
    let labels: [&str; 9] = [
        "NAMESPACE",
        "WORKLOAD",
        "KIND",
        "READY",
        "PODS",
        "RPS",
        "ERR%",
        "P50ms",
        "P99ms",
    ];
    let cols: [Column; 9] = [
        Column { width: 20, cell: Cell::Plain },
        Column { width: 30, cell: Cell::Cut(30) },
        Column { width: 12, cell: Cell::Plain },
        Column { width: 6, cell: Cell::YesNo },
        Column { width: 6, cell: Cell::Null },
        Column { width: 8, cell: Cell::Null },
        Column { width: 8, cell: Cell::Null },
        Column { width: 8, cell: Cell::Null },
        Column { width: 0, cell: Cell::Null },
    ];
    assert(cols@ =~= workload_columns());
    assert(str_views(labels@) =~= workload_labels());
    render_table(rows, &labels, &cols, 120)
}

} // verus!
