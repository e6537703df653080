//! The subcommands: the SQL each one runs and how its answer is laid out.
pub mod alerts;
pub mod api;
pub mod clickhouse;
pub mod grafana;

use vstd::prelude::*;

use crate::duration::{duration_error_is, duration_fits, duration_seconds, parse_duration};
use crate::error::CliError;
use crate::text::{
    append_str, chars_of, decimal, i64_decimal, opt_str_view, push_string, string_of,
    string_views,
};

verus! {

/// `field = 'value'`.
pub open spec fn eq_condition(field: Seq<char>, value: Seq<char>) -> Seq<char> {
    field + " = '"@ + value + "'"@
}

/// `field LIKE '%value%'`.
pub open spec fn like_condition(field: Seq<char>, value: Seq<char>) -> Seq<char> {
    field + " LIKE '%"@ + value + "%'"@
}

/// `field > now() - INTERVAL 'secs' SECOND`.
pub open spec fn since_condition(field: Seq<char>, secs: int) -> Seq<char> {
    field + " > now() - INTERVAL '"@ + decimal(secs) + "' SECOND"@
}

/// The equality condition when there is a value, else none.
pub open spec fn opt_eq(field: Seq<char>, value: Option<Seq<char>>) -> Seq<Seq<char>> {
    match value {
        Some(v) => seq![eq_condition(field, v)],
        None => seq![],
    }
}

/// The substring condition when there is a value, else none.
pub open spec fn opt_like(field: Seq<char>, value: Option<Seq<char>>) -> Seq<Seq<char>> {
    match value {
        Some(v) => seq![like_condition(field, v)],
        None => seq![],
    }
}

/// The optional string as a string slice.
pub fn opt_str(o: &Option<String>) -> (r: Option<&str>)
    ensures
        opt_str_view(r) == crate::text::opt_view(*o),
{
    match o {
        Some(s) => Some(s.as_str()),
        None => None,
    }
}

/// `field = 'value'`.
pub fn eq_condition_text(field: &str, value: &str) -> (r: String)
    ensures
        r@ == eq_condition(field@, value@),
{
    let mut v = chars_of(field);
    append_str(&mut v, " = '");
    append_str(&mut v, value);
    append_str(&mut v, "'");
    string_of(&v)
}

/// `field LIKE '%value%'`.
pub fn like_condition_text(field: &str, value: &str) -> (r: String)
    ensures
        r@ == like_condition(field@, value@),
{
    let mut v = chars_of(field);
    append_str(&mut v, " LIKE '%");
    append_str(&mut v, value);
    append_str(&mut v, "%'");
    string_of(&v)
}

/// `field > now() - INTERVAL 'secs' SECOND`.
pub fn since_condition_text(field: &str, secs: i64) -> (r: String)
    ensures
        r@ == since_condition(field@, secs as int),
{
    let mut v = chars_of(field);
    append_str(&mut v, " > now() - INTERVAL '");
    let d = i64_decimal(secs);
    crate::text::append(&mut v, &d);
    append_str(&mut v, "' SECOND");
    string_of(&v)
}

/// Adds `field = 'value'` when there is a value.
pub fn push_optional_eq(conditions: &mut Vec<String>, field: &str, value: Option<&str>)
    ensures
        string_views(final(conditions)@) == string_views(old(conditions)@) + opt_eq(
            field@,
            opt_str_view(value),
        ),
{
    match value {
        Some(v) => push_string(conditions, eq_condition_text(field, v)),
        None => {},
    }
    assert(string_views(conditions@) =~= string_views(old(conditions)@) + opt_eq(
        field@,
        opt_str_view(value),
    ));
}

/// Adds `field LIKE '%value%'` when there is a value.
pub fn push_optional_like(conditions: &mut Vec<String>, field: &str, value: Option<&str>)
    ensures
        string_views(final(conditions)@) == string_views(old(conditions)@) + opt_like(
            field@,
            opt_str_view(value),
        ),
{
    match value {
        Some(v) => push_string(conditions, like_condition_text(field, v)),
        None => {},
    }
    assert(string_views(conditions@) =~= string_views(old(conditions)@) + opt_like(
        field@,
        opt_str_view(value),
    ));
}

/// The one condition that keeps rows whose `field` lies within `since` of now.
pub fn build_time_conditions(field: &str, since: &str) -> (r: Result<Vec<String>, CliError>)
    requires
        duration_fits(since@),
    ensures
        match duration_seconds(since@) {
            Ok(secs) => r matches Ok(v) && string_views(v@) == seq![since_condition(field@, secs)],
            Err(f) => r matches Err(e) && duration_error_is(since@, f, e),
        },
{
    let duration = match parse_duration(since) {
        Ok(d) => d,
        Err(e) => return Err(e),
    };
    let mut v: Vec<String> = Vec::new();
    push_string(&mut v, since_condition_text(field, duration.num_seconds()));
    assert(string_views(v@) =~= seq![since_condition(field@, duration@)]);
    Ok(v)
}

} // verus!
