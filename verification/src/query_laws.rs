//! What the queries select, for all options: every filter that is given
//! appears in the query as its own condition, and a filter that is not given
//! puts no condition on its column.
use vstd::prelude::*;

use crate::commands::alerts::{
    alerts_conditions, alerts_sql, issues_conditions, issues_sql, AlertsArgs, IssuesArgs,
};
use crate::commands::api::{
    api_conditions, api_sql, flag_condition, workloads_conditions, workloads_sql, ApiArgs,
    WorkloadsArgs,
};
use crate::commands::clickhouse::{
    events_conditions, events_sql, logs_conditions, logs_sql, min_duration_condition,
    status_condition, traces_conditions, traces_sql, EventsArgs, LogsArgs, TracesArgs,
};
use crate::commands::{eq_condition, like_condition, opt_eq, opt_like, since_condition};
use crate::text::{contains, decimal, join, starts_with};

verus! {

/// Condition `c` is on column `field`: it starts with the column's name and a
/// space.
pub open spec fn on_field(c: Seq<char>, field: Seq<char>) -> bool {
    starts_with(c, field + " "@)
}

/// Some condition of `cs` is on column `field`.
pub open spec fn mentions(cs: Seq<Seq<char>>, field: Seq<char>) -> bool {
    exists|i: int| 0 <= i < cs.len() && on_field(#[trigger] cs[i], field)
}

/// 1 for an option that is given, 0 for one that is not.
pub open spec fn given(o: Option<String>) -> int {
    if o is Some {
        1
    } else {
        0
    }
}

/// `s` holds no space.
pub open spec fn no_space(s: Seq<char>) -> bool {
    forall|i: int| 0 <= i < s.len() ==> s[i] != ' '
}

/// Every condition of `cs` is on column `field`.
pub open spec fn all_on(cs: Seq<Seq<char>>, field: Seq<char>) -> bool {
    forall|i: int| 0 <= i < cs.len() ==> on_field(#[trigger] cs[i], field)
}

/// A condition is on at most one column name without spaces.
proof fn lemma_one_field(c: Seq<char>, f: Seq<char>, g: Seq<char>)
    requires
        no_space(f),
        no_space(g),
        on_field(c, f),
        on_field(c, g),
    ensures
        f == g,
{
    reveal_strlit(" ");
    assert(c.take(f.len() + 1int) == f + " "@);
    assert(c.take(g.len() + 1int) == g + " "@);
    if f.len() < g.len() {
        assert(c.take(f.len() + 1int)[f.len() as int] == c[f.len() as int]);
        assert(c.take(g.len() + 1int)[f.len() as int] == c[f.len() as int]);
        assert(g[f.len() as int] == ' ');
    } else if g.len() < f.len() {
        assert(c.take(f.len() + 1int)[g.len() as int] == c[g.len() as int]);
        assert(c.take(g.len() + 1int)[g.len() as int] == c[g.len() as int]);
        assert(f[g.len() as int] == ' ');
    } else {
        assert(f =~= c.take(f.len() as int));
        assert(g =~= c.take(g.len() as int));
    }
}

/// Conditions all on column `g` say nothing of another column `f`.
proof fn lemma_not_mentioned(cs: Seq<Seq<char>>, g: Seq<char>, f: Seq<char>)
    requires
        all_on(cs, g),
        no_space(f),
        no_space(g),
        f != g,
    ensures
        !mentions(cs, f),
{
    if mentions(cs, f) {
        let i = choose|i: int| 0 <= i < cs.len() && on_field(#[trigger] cs[i], f);
        lemma_one_field(cs[i], f, g);
    }
}

/// A column is mentioned by two lists of conditions together exactly when it
/// is mentioned by one of them.
proof fn lemma_mentions_add(a: Seq<Seq<char>>, b: Seq<Seq<char>>, f: Seq<char>)
    ensures
        mentions(a + b, f) == (mentions(a, f) || mentions(b, f)),
{
    if mentions(a + b, f) {
        let i = choose|i: int| 0 <= i < (a + b).len() && on_field(#[trigger] (a + b)[i], f);
        if i < a.len() {
            assert(a[i] == (a + b)[i]);
        } else {
            assert(b[i - a.len()] == (a + b)[i]);
        }
    }
    if mentions(a, f) {
        let i = choose|i: int| 0 <= i < a.len() && on_field(#[trigger] a[i], f);
        assert((a + b)[i] == a[i]);
    }
    if mentions(b, f) {
        let i = choose|i: int| 0 <= i < b.len() && on_field(#[trigger] b[i], f);
        assert((a + b)[a.len() + i] == b[i]);
    }
}

/// `field = 'v'` is on `field`.
proof fn lemma_eq_on(field: Seq<char>, v: Option<Seq<char>>)
    ensures
        all_on(opt_eq(field, v), field),
{
    reveal_strlit(" ");
    reveal_strlit(" = '");
    if let Some(x) = v {
        let c = eq_condition(field, x);
        assert(c.take(field.len() + 1int) =~= field + " "@);
    }
}

/// `field LIKE '%v%'` is on `field`.
proof fn lemma_like_on(field: Seq<char>, v: Option<Seq<char>>)
    ensures
        all_on(opt_like(field, v), field),
{
    reveal_strlit(" ");
    reveal_strlit(" LIKE '%");
    if let Some(x) = v {
        let c = like_condition(field, x);
        assert(c.take(field.len() + 1int) =~= field + " "@);
    }
}

/// The time condition is on its column.
proof fn lemma_since_on(field: Seq<char>, secs: int)
    ensures
        all_on(seq![since_condition(field, secs)], field),
{
    reveal_strlit(" ");
    reveal_strlit(" > now() - INTERVAL '");
    let c = since_condition(field, secs);
    assert(c.take(field.len() + 1int) =~= field + " "@);
}

/// A condition occurs in the conditions joined with any separator.
proof fn lemma_join_contains(cs: Seq<Seq<char>>, sep: Seq<char>, i: int)
    requires
        0 <= i < cs.len(),
    ensures
        contains(join(cs, sep), cs[i]),
    decreases cs.len(),
{
    if cs.len() == 1 {
        assert(join(cs, sep) == cs[0]);
        assert(join(cs, sep).subrange(0, cs[0].len() as int) =~= cs[0]);
        lemma_contains_at(join(cs, sep), cs[0], 0);
    } else {
        let front = join(cs.drop_last(), sep);
        assert(join(cs, sep) == front + sep + cs.last());
        if i == cs.len() - 1 {
            let at = (front + sep).len() as int;
            assert((front + sep + cs.last()).subrange(at, at + cs[i].len()) =~= cs[i]);
            lemma_contains_at(front + sep + cs.last(), cs[i], at);
        } else {
            lemma_join_contains(cs.drop_last(), sep, i);
            assert(cs.drop_last()[i] == cs[i]);
            lemma_contains_before(front, sep, cs[i]);
            lemma_contains_before(front + sep, cs.last(), cs[i]);
        }
    }
}

/// `n` found at offset `i` of `h`.
proof fn lemma_contains_at(h: Seq<char>, n: Seq<char>, i: int)
    requires
        0 <= i,
        i + n.len() <= h.len(),
        h.subrange(i, i + n.len()) == n,
    ensures
        contains(h, n),
{
}

/// A text that occurs in `a` occurs in `a + b`.
proof fn lemma_contains_before(a: Seq<char>, b: Seq<char>, n: Seq<char>)
    requires
        contains(a, n),
    ensures
        contains(a + b, n),
{
    let i = choose|i: int| 0 <= i && i + n.len() <= a.len() && #[trigger] a.subrange(i, i + n.len()) == n;
    assert((a + b).subrange(i, i + n.len()) =~= a.subrange(i, i + n.len()));
}

/// A text that occurs in `b` occurs in `a + b`.
proof fn lemma_contains_after(a: Seq<char>, b: Seq<char>, n: Seq<char>)
    requires
        contains(b, n),
    ensures
        contains(a + b, n),
{
    let i = choose|i: int| 0 <= i && i + n.len() <= b.len() && #[trigger] b.subrange(i, i + n.len()) == n;
    assert((a + b).subrange(a.len() + i, a.len() + i + n.len()) =~= b.subrange(i, i + n.len()));
}

/// How lists of conditions combine, and which columns their pieces are on.
proof fn lemma_pieces()
    ensures
        forall|a: Seq<Seq<char>>, b: Seq<Seq<char>>, x: Seq<char>|
            (a.contains(x) || b.contains(x)) ==> #[trigger] (a + b).contains(x),
        forall|a: Seq<Seq<char>>, b: Seq<Seq<char>>, f: Seq<char>|
            #[trigger] mentions(a + b, f) == (mentions(a, f) || mentions(b, f)),
        forall|x: Seq<char>| #[trigger] seq![x].contains(x),
        forall|g: Seq<char>, v: Option<Seq<char>>, f: Seq<char>|
            no_space(g) && no_space(f) && g != f ==> !#[trigger] mentions(opt_eq(g, v), f),
        forall|g: Seq<char>, v: Option<Seq<char>>, f: Seq<char>|
            no_space(g) && no_space(f) && g != f ==> !#[trigger] mentions(opt_like(g, v), f),
        forall|g: Seq<char>, secs: int, f: Seq<char>|
            no_space(g) && no_space(f) && g != f ==> !#[trigger] mentions(
                seq![since_condition(g, secs)],
                f,
            ),
        forall|cs: Seq<Seq<char>>, g: Seq<char>, f: Seq<char>|
            #![trigger mentions(cs, f), all_on(cs, g)]
            all_on(cs, g) && no_space(g) && no_space(f) && g != f ==> !mentions(cs, f),
        forall|b: bool, c: Seq<char>, g: Seq<char>, f: Seq<char>|
            #![trigger mentions(flag_condition(b, c), f), on_field(c, g)]
            on_field(c, g) && no_space(g) && no_space(f) && g != f ==> !mentions(
                flag_condition(b, c),
                f,
            ),
{
    assert forall|a: Seq<Seq<char>>, b: Seq<Seq<char>>, x: Seq<char>|
        (a.contains(x) || b.contains(x)) implies #[trigger] (a + b).contains(x) by {
        if a.contains(x) {
            let i = choose|i: int| 0 <= i < a.len() && a[i] == x;
            assert((a + b)[i] == x);
        } else {
            let i = choose|i: int| 0 <= i < b.len() && b[i] == x;
            assert((a + b)[a.len() + i] == x);
        }
    }
    assert forall|a: Seq<Seq<char>>, b: Seq<Seq<char>>, f: Seq<char>|
        #[trigger] mentions(a + b, f) == (mentions(a, f) || mentions(b, f)) by {
        lemma_mentions_add(a, b, f);
    }
    assert forall|x: Seq<char>| #[trigger] seq![x].contains(x) by {
        assert(seq![x][0] == x);
    }
    assert forall|g: Seq<char>, v: Option<Seq<char>>, f: Seq<char>|
        no_space(g) && no_space(f) && g != f implies !#[trigger] mentions(opt_eq(g, v), f) by {
        lemma_eq_on(g, v);
        lemma_not_mentioned(opt_eq(g, v), g, f);
    }
    assert forall|g: Seq<char>, v: Option<Seq<char>>, f: Seq<char>|
        no_space(g) && no_space(f) && g != f implies !#[trigger] mentions(opt_like(g, v), f) by {
        lemma_like_on(g, v);
        lemma_not_mentioned(opt_like(g, v), g, f);
    }
    assert forall|g: Seq<char>, secs: int, f: Seq<char>|
        no_space(g) && no_space(f) && g != f implies !#[trigger] mentions(
            seq![since_condition(g, secs)],
            f,
        ) by {
        lemma_since_on(g, secs);
        lemma_not_mentioned(seq![since_condition(g, secs)], g, f);
    }
    assert forall|cs: Seq<Seq<char>>, g: Seq<char>, f: Seq<char>|
        #![trigger mentions(cs, f), all_on(cs, g)]
        all_on(cs, g) && no_space(g) && no_space(f) && g != f implies !mentions(cs, f) by {
        lemma_not_mentioned(cs, g, f);
    }
    assert forall|b: bool, c: Seq<char>, g: Seq<char>, f: Seq<char>|
        #![trigger mentions(flag_condition(b, c), f), on_field(c, g)]
        on_field(c, g) && no_space(g) && no_space(f) && g != f implies !mentions(
            flag_condition(b, c),
            f,
        ) by {
        assert(all_on(flag_condition(b, c), g));
        lemma_not_mentioned(flag_condition(b, c), g, f);
    }
}

/// A condition of a query of the shape `head + WHERE joined + tail + limit`
/// occurs in it.
proof fn lemma_in_where_query(
    head: Seq<char>,
    cs: Seq<Seq<char>>,
    tail: Seq<char>,
    limit: Seq<char>,
    c: Seq<char>,
)
    requires
        cs.contains(c),
    ensures
        contains(head + ("WHERE "@ + join(cs, " AND "@)) + tail + limit, c),
{
    let i = choose|i: int| 0 <= i < cs.len() && cs[i] == c;
    lemma_join_contains(cs, " AND "@, i);
    lemma_contains_after("WHERE "@, join(cs, " AND "@), c);
    lemma_contains_after(head, "WHERE "@ + join(cs, " AND "@), c);
    lemma_contains_before(head + ("WHERE "@ + join(cs, " AND "@)), tail, c);
    lemma_contains_before(head + ("WHERE "@ + join(cs, " AND "@)) + tail, limit, c);
}

/// A condition of a query of the shape `head + joined + tail + limit` occurs
/// in it.
proof fn lemma_in_query(
    head: Seq<char>,
    cs: Seq<Seq<char>>,
    tail: Seq<char>,
    limit: Seq<char>,
    c: Seq<char>,
)
    requires
        cs.contains(c),
    ensures
        contains(head + join(cs, " AND "@) + tail + limit, c),
{
    let i = choose|i: int| 0 <= i < cs.len() && cs[i] == c;
    lemma_join_contains(cs, " AND "@, i);
    lemma_contains_after(head, join(cs, " AND "@), c);
    lemma_contains_before(head + join(cs, " AND "@), tail, c);
    lemma_contains_before(head + join(cs, " AND "@) + tail, limit, c);
}

/// The alerts query keeps monitor states seen within the window and applies
/// each filter that is given, and no other: `--namespace n` adds
/// `namespace = 'n'`, `--workload w` adds `workload LIKE '%w%'`, and so on;
/// without a filter its column is not tested at all. The conditions stand
/// between `WHERE` and `ORDER BY`, joined by `AND`.
pub proof fn law_alerts_query_applies_each_given_filter(args: AlertsArgs, secs: int)
    ensures
        ({
            let cs = alerts_conditions(args, secs);
            &&& cs.len() == 1 + given(args.state) + given(args.severity) + given(args.namespace)
                + given(args.workload) + given(args.monitor)
            &&& cs[0] == "timestamp > now() - INTERVAL '"@ + decimal(secs) + "' SECOND"@
            &&& alerts_sql(args, secs)
                == "SELECT timestamp, monitor_name, state, severity, namespace, workload FROM monitor_state WHERE "@
                + join(cs, " AND "@) + " ORDER BY timestamp DESC LIMIT "@ + decimal(
                args.limit as int,
            )
            &&& (args.state matches Some(s) ==> cs.contains("state = '"@ + s@ + "'"@) && contains(
                alerts_sql(args, secs),
                "state = '"@ + s@ + "'"@,
            ))
            &&& (args.severity matches Some(s) ==> cs.contains("severity = '"@ + s@ + "'"@)
                && contains(alerts_sql(args, secs), "severity = '"@ + s@ + "'"@))
            &&& (args.namespace matches Some(n) ==> cs.contains("namespace = '"@ + n@ + "'"@)
                && contains(alerts_sql(args, secs), "namespace = '"@ + n@ + "'"@))
            &&& (args.workload matches Some(w) ==> cs.contains("workload LIKE '%"@ + w@ + "%'"@)
                && contains(alerts_sql(args, secs), "workload LIKE '%"@ + w@ + "%'"@))
            &&& (args.monitor matches Some(m) ==> cs.contains("monitor_name LIKE '%"@ + m@ + "%'"@)
                && contains(alerts_sql(args, secs), "monitor_name LIKE '%"@ + m@ + "%'"@))
            &&& (args.state is None ==> !mentions(cs, "state"@))
            &&& (args.severity is None ==> !mentions(cs, "severity"@))
            &&& (args.namespace is None ==> !mentions(cs, "namespace"@))
            &&& (args.workload is None ==> !mentions(cs, "workload"@))
            &&& (args.monitor is None ==> !mentions(cs, "monitor_name"@))
        }),
{
    lemma_pieces();
    reveal_strlit("timestamp");
    reveal_strlit("state");
    reveal_strlit("severity");
    reveal_strlit("namespace");
    reveal_strlit("workload");
    reveal_strlit("monitor_name");
    let cs = alerts_conditions(args, secs);
    let head = "SELECT timestamp, monitor_name, state, severity, namespace, workload FROM monitor_state WHERE "@;
    let tail = " ORDER BY timestamp DESC LIMIT "@;
    let limit = decimal(args.limit as int);
    assert(no_space("timestamp"@));
    assert(no_space("state"@));
    assert(no_space("severity"@));
    assert(no_space("namespace"@));
    assert(no_space("workload"@));
    assert(no_space("monitor_name"@));
    assert("severity"@[0] != "workload"@[0]);
    assert("namespace"@[0] != "timestamp"@[0]);
    reveal_strlit("timestamp > now() - INTERVAL '");
    reveal_strlit(" > now() - INTERVAL '");
    assert("timestamp"@ + " > now() - INTERVAL '"@ =~= "timestamp > now() - INTERVAL '"@);
    if let Some(s) = args.state {
        reveal_strlit("state = '");
        reveal_strlit(" = '");
        assert("state"@ + " = '"@ =~= "state = '"@);
        lemma_in_query(head, cs, tail, limit, "state = '"@ + s@ + "'"@);
    }
    if let Some(s) = args.severity {
        reveal_strlit("severity = '");
        reveal_strlit(" = '");
        assert("severity"@ + " = '"@ =~= "severity = '"@);
        lemma_in_query(head, cs, tail, limit, "severity = '"@ + s@ + "'"@);
    }
    if let Some(n) = args.namespace {
        reveal_strlit("namespace = '");
        reveal_strlit(" = '");
        assert("namespace"@ + " = '"@ =~= "namespace = '"@);
        lemma_in_query(head, cs, tail, limit, "namespace = '"@ + n@ + "'"@);
    }
    if let Some(w) = args.workload {
        reveal_strlit("workload LIKE '%");
        reveal_strlit(" LIKE '%");
        assert("workload"@ + " LIKE '%"@ =~= "workload LIKE '%"@);
        lemma_in_query(head, cs, tail, limit, "workload LIKE '%"@ + w@ + "%'"@);
    }
    if let Some(m) = args.monitor {
        reveal_strlit("monitor_name LIKE '%");
        reveal_strlit(" LIKE '%");
        assert("monitor_name"@ + " LIKE '%"@ =~= "monitor_name LIKE '%"@);
        lemma_in_query(head, cs, tail, limit, "monitor_name LIKE '%"@ + m@ + "%'"@);
    }
}

/// The issues query keeps issues seen within the window and applies each
/// filter that is given, and no other: `--namespace n` adds
/// `namespace = 'n'`, `--workload w` adds `workload LIKE '%w%'`, `--grep g`
/// adds `issue_description LIKE '%g%'` and `--code c` adds
/// `return_code = 'c'`; without a filter its column is not tested at all.
pub proof fn law_issues_query_applies_each_given_filter(args: IssuesArgs, secs: int)
    ensures
        ({
            let cs = issues_conditions(args, secs);
            &&& cs.len() == 1 + given(args.namespace) + given(args.workload) + given(args.grep)
                + given(args.code)
            &&& cs[0] == "last_seen > now() - INTERVAL '"@ + decimal(secs) + "' SECOND"@
            &&& issues_sql(args, secs)
                == "SELECT last_seen, namespace, workload, issue_description, return_code, sum(incident_count) as total_count FROM traces_issues_list_one_minute_view WHERE "@
                + join(cs, " AND "@)
                + " GROUP BY last_seen, namespace, workload, issue_description, return_code ORDER BY last_seen DESC LIMIT "@
                + decimal(args.limit as int)
            &&& (args.namespace matches Some(n) ==> cs.contains("namespace = '"@ + n@ + "'"@)
                && contains(issues_sql(args, secs), "namespace = '"@ + n@ + "'"@))
            &&& (args.workload matches Some(w) ==> cs.contains("workload LIKE '%"@ + w@ + "%'"@)
                && contains(issues_sql(args, secs), "workload LIKE '%"@ + w@ + "%'"@))
            &&& (args.grep matches Some(g) ==> cs.contains(
                "issue_description LIKE '%"@ + g@ + "%'"@,
            ) && contains(issues_sql(args, secs), "issue_description LIKE '%"@ + g@ + "%'"@))
            &&& (args.code matches Some(c) ==> cs.contains("return_code = '"@ + c@ + "'"@)
                && contains(issues_sql(args, secs), "return_code = '"@ + c@ + "'"@))
            &&& (args.namespace is None ==> !mentions(cs, "namespace"@))
            &&& (args.workload is None ==> !mentions(cs, "workload"@))
            &&& (args.grep is None ==> !mentions(cs, "issue_description"@))
            &&& (args.code is None ==> !mentions(cs, "return_code"@))
        }),
{
    lemma_pieces();
    reveal_strlit("last_seen");
    reveal_strlit("namespace");
    reveal_strlit("workload");
    reveal_strlit("issue_description");
    reveal_strlit("return_code");
    let cs = issues_conditions(args, secs);
    let head = "SELECT last_seen, namespace, workload, issue_description, return_code, sum(incident_count) as total_count FROM traces_issues_list_one_minute_view WHERE "@;
    let tail = " GROUP BY last_seen, namespace, workload, issue_description, return_code ORDER BY last_seen DESC LIMIT "@;
    let limit = decimal(args.limit as int);
    assert(no_space("last_seen"@));
    assert(no_space("namespace"@));
    assert(no_space("workload"@));
    assert(no_space("issue_description"@));
    assert(no_space("return_code"@));
    assert("namespace"@[0] != "last_seen"@[0]);
    reveal_strlit("last_seen > now() - INTERVAL '");
    reveal_strlit(" > now() - INTERVAL '");
    assert("last_seen"@ + " > now() - INTERVAL '"@ =~= "last_seen > now() - INTERVAL '"@);
    reveal_strlit(" = '");
    reveal_strlit(" LIKE '%");
    if let Some(n) = args.namespace {
        reveal_strlit("namespace = '");
        assert("namespace"@ + " = '"@ =~= "namespace = '"@);
        lemma_in_query(head, cs, tail, limit, "namespace = '"@ + n@ + "'"@);
    }
    if let Some(w) = args.workload {
        reveal_strlit("workload LIKE '%");
        assert("workload"@ + " LIKE '%"@ =~= "workload LIKE '%"@);
        lemma_in_query(head, cs, tail, limit, "workload LIKE '%"@ + w@ + "%'"@);
    }
    if let Some(g) = args.grep {
        reveal_strlit("issue_description LIKE '%");
        assert("issue_description"@ + " LIKE '%"@ =~= "issue_description LIKE '%"@);
        lemma_in_query(head, cs, tail, limit, "issue_description LIKE '%"@ + g@ + "%'"@);
    }
    if let Some(c) = args.code {
        reveal_strlit("return_code = '");
        assert("return_code"@ + " = '"@ =~= "return_code = '"@);
        lemma_in_query(head, cs, tail, limit, "return_code = '"@ + c@ + "'"@);
    }
}

/// `error_rate > 0` and `ready = false` are on their columns.
proof fn lemma_flags_on()
    ensures
        on_field("error_rate > 0"@, "error_rate"@),
        on_field("ready = false"@, "ready"@),
        no_space("error_rate"@),
        no_space("ready"@),
{
    reveal_strlit(" ");
    reveal_strlit("error_rate > 0");
    reveal_strlit("error_rate");
    reveal_strlit("ready = false");
    reveal_strlit("ready");
    assert(("error_rate > 0"@).take(11) =~= "error_rate"@ + " "@);
    assert(("ready = false"@).take(6) =~= "ready"@ + " "@);
}

/// The workloads query applies each filter that is given, and no other:
/// `--namespace n` adds `namespace = 'n'`, `--workload w` adds
/// `workload LIKE '%w%'`, `--kind k` adds `kind = 'k'`, `--errors` adds
/// `error_rate > 0` and `--not-ready` adds `ready = false`. With any filter
/// the query has a `WHERE` clause joining them with `AND`; with none it has
/// no `WHERE` at all and lists every workload.
pub proof fn law_workloads_query_applies_each_given_filter(args: WorkloadsArgs)
    ensures
        ({
            let cs = workloads_conditions(args);
            let head = "SELECT namespace, workload, kind, ready, pods_count, round(rps, 2) as rps, round(error_rate * 100, 2) as error_pct, round(p50, 1) as p50_ms, round(p99, 1) as p99_ms FROM workloads_refreshable "@;
            let tail = " ORDER BY rps DESC NULLS LAST LIMIT "@ + decimal(args.limit as int);
            let any_filter = args.namespace is Some || args.workload is Some || args.kind is Some
                || args.errors || args.not_ready;
            &&& cs.len() == given(args.namespace) + given(args.workload) + given(args.kind) + (
            if args.errors {
                1int
            } else {
                0
            }) + (if args.not_ready {
                1int
            } else {
                0
            })
            &&& (any_filter ==> workloads_sql(args) == head + ("WHERE "@ + join(cs, " AND "@))
                + tail)
            &&& (!any_filter ==> workloads_sql(args) == head + tail)
            &&& (args.namespace matches Some(n) ==> cs.contains("namespace = '"@ + n@ + "'"@)
                && contains(workloads_sql(args), "namespace = '"@ + n@ + "'"@))
            &&& (args.workload matches Some(w) ==> cs.contains("workload LIKE '%"@ + w@ + "%'"@)
                && contains(workloads_sql(args), "workload LIKE '%"@ + w@ + "%'"@))
            &&& (args.kind matches Some(k) ==> cs.contains("kind = '"@ + k@ + "'"@) && contains(
                workloads_sql(args),
                "kind = '"@ + k@ + "'"@,
            ))
            &&& (args.errors ==> cs.contains("error_rate > 0"@) && contains(
                workloads_sql(args),
                "error_rate > 0"@,
            ))
            &&& (args.not_ready ==> cs.contains("ready = false"@) && contains(
                workloads_sql(args),
                "ready = false"@,
            ))
            &&& (args.namespace is None ==> !mentions(cs, "namespace"@))
            &&& (args.workload is None ==> !mentions(cs, "workload"@))
            &&& (args.kind is None ==> !mentions(cs, "kind"@))
            &&& (!args.errors ==> !mentions(cs, "error_rate"@))
            &&& (!args.not_ready ==> !mentions(cs, "ready"@))
        }),
{
    lemma_pieces();
    lemma_flags_on();
    reveal_strlit("error_rate");
    reveal_strlit("ready");
    reveal_strlit("namespace");
    reveal_strlit("workload");
    reveal_strlit("kind");
    let cs = workloads_conditions(args);
    let head = "SELECT namespace, workload, kind, ready, pods_count, round(rps, 2) as rps, round(error_rate * 100, 2) as error_pct, round(p50, 1) as p50_ms, round(p99, 1) as p99_ms FROM workloads_refreshable "@;
    let tail = " ORDER BY rps DESC NULLS LAST LIMIT "@;
    let limit = decimal(args.limit as int);
    assert(no_space("namespace"@));
    assert(no_space("workload"@));
    assert(no_space("kind"@));
    assert(head + ("WHERE "@ + join(cs, " AND "@)) + tail + limit == head + (
    "WHERE "@ + join(cs, " AND "@)) + (tail + limit));
    assert(head + seq![] + tail + limit =~= head + (tail + limit));
    reveal_strlit(" = '");
    reveal_strlit(" LIKE '%");
    if let Some(n) = args.namespace {
        reveal_strlit("namespace = '");
        assert("namespace"@ + " = '"@ =~= "namespace = '"@);
        lemma_in_where_query(head, cs, tail, limit, "namespace = '"@ + n@ + "'"@);
    }
    if let Some(w) = args.workload {
        reveal_strlit("workload LIKE '%");
        assert("workload"@ + " LIKE '%"@ =~= "workload LIKE '%"@);
        lemma_in_where_query(head, cs, tail, limit, "workload LIKE '%"@ + w@ + "%'"@);
    }
    if let Some(k) = args.kind {
        reveal_strlit("kind = '");
        assert("kind"@ + " = '"@ =~= "kind = '"@);
        lemma_in_where_query(head, cs, tail, limit, "kind = '"@ + k@ + "'"@);
    }
    if args.errors {
        lemma_in_where_query(head, cs, tail, limit, "error_rate > 0"@);
    }
    if args.not_ready {
        lemma_in_where_query(head, cs, tail, limit, "ready = false"@);
    }
}

/// The endpoints query applies each filter that is given, and no other:
/// `--namespace n` adds `server_namespace = 'n'`, `--workload w` adds
/// `server LIKE '%w%'`, `--endpoint e` adds `span_name LIKE '%e%'` and
/// `--errors` adds `error_rate > 0`. With any filter the query has a `WHERE`
/// clause joining them with `AND`; with none it has no `WHERE` at all.
pub proof fn law_api_query_applies_each_given_filter(args: ApiArgs)
    ensures
        ({
            let cs = api_conditions(args);
            let head = "SELECT server_namespace, server, span_name, round(rps, 2) as rps, round(error_rate * 100, 2) as error_pct, round(p50, 1) as p50_ms, round(p99, 1) as p99_ms FROM apm_measurements_resource_refreshable_one_hour "@;
            let tail = " ORDER BY rps DESC NULLS LAST LIMIT "@ + decimal(args.limit as int);
            let any_filter = args.namespace is Some || args.workload is Some || args.endpoint is Some
                || args.errors;
            &&& cs.len() == given(args.namespace) + given(args.workload) + given(args.endpoint) + (
            if args.errors {
                1int
            } else {
                0
            })
            &&& (any_filter ==> api_sql(args) == head + ("WHERE "@ + join(cs, " AND "@)) + tail)
            &&& (!any_filter ==> api_sql(args) == head + tail)
            &&& (args.namespace matches Some(n) ==> cs.contains(
                "server_namespace = '"@ + n@ + "'"@,
            ) && contains(api_sql(args), "server_namespace = '"@ + n@ + "'"@))
            &&& (args.workload matches Some(w) ==> cs.contains("server LIKE '%"@ + w@ + "%'"@)
                && contains(api_sql(args), "server LIKE '%"@ + w@ + "%'"@))
            &&& (args.endpoint matches Some(e) ==> cs.contains("span_name LIKE '%"@ + e@ + "%'"@)
                && contains(api_sql(args), "span_name LIKE '%"@ + e@ + "%'"@))
            &&& (args.errors ==> cs.contains("error_rate > 0"@) && contains(
                api_sql(args),
                "error_rate > 0"@,
            ))
            &&& (args.namespace is None ==> !mentions(cs, "server_namespace"@))
            &&& (args.workload is None ==> !mentions(cs, "server"@))
            &&& (args.endpoint is None ==> !mentions(cs, "span_name"@))
            &&& (!args.errors ==> !mentions(cs, "error_rate"@))
        }),
{
    lemma_pieces();
    lemma_flags_on();
    reveal_strlit("error_rate");
    reveal_strlit("server_namespace");
    reveal_strlit("server");
    reveal_strlit("span_name");
    let cs = api_conditions(args);
    let head = "SELECT server_namespace, server, span_name, round(rps, 2) as rps, round(error_rate * 100, 2) as error_pct, round(p50, 1) as p50_ms, round(p99, 1) as p99_ms FROM apm_measurements_resource_refreshable_one_hour "@;
    let tail = " ORDER BY rps DESC NULLS LAST LIMIT "@;
    let limit = decimal(args.limit as int);
    assert(no_space("server_namespace"@));
    assert(no_space("server"@));
    assert(no_space("span_name"@));
    assert(head + ("WHERE "@ + join(cs, " AND "@)) + tail + limit == head + (
    "WHERE "@ + join(cs, " AND "@)) + (tail + limit));
    assert(head + seq![] + tail + limit =~= head + (tail + limit));
    reveal_strlit(" = '");
    reveal_strlit(" LIKE '%");
    if let Some(n) = args.namespace {
        reveal_strlit("server_namespace = '");
        assert("server_namespace"@ + " = '"@ =~= "server_namespace = '"@);
        lemma_in_where_query(head, cs, tail, limit, "server_namespace = '"@ + n@ + "'"@);
    }
    if let Some(w) = args.workload {
        reveal_strlit("server LIKE '%");
        assert("server"@ + " LIKE '%"@ =~= "server LIKE '%"@);
        lemma_in_where_query(head, cs, tail, limit, "server LIKE '%"@ + w@ + "%'"@);
    }
    if let Some(e) = args.endpoint {
        reveal_strlit("span_name LIKE '%");
        assert("span_name"@ + " LIKE '%"@ =~= "span_name LIKE '%"@);
        lemma_in_where_query(head, cs, tail, limit, "span_name LIKE '%"@ + e@ + "%'"@);
    }
    if args.errors {
        lemma_in_where_query(head, cs, tail, limit, "error_rate > 0"@);
    }
}

/// The logs query keeps log lines within the window and applies each filter
/// that is given, and no other: `--workload w` adds `workload LIKE '%w%'`,
/// `--namespace n` adds `namespace = 'n'`, the level (already in uppercase)
/// `l` adds `level = 'l'` and `--grep g` adds `body LIKE '%g%'`.
pub proof fn law_logs_query_applies_each_given_filter(
    args: LogsArgs,
    secs: int,
    level_upper: Option<Seq<char>>,
)
    ensures
        ({
            let cs = logs_conditions(args, secs, level_upper);
            &&& cs.len() == 1 + given(args.workload) + given(args.namespace) + (
            if level_upper is Some {
                1int
            } else {
                0
            }) + given(args.grep)
            &&& cs[0] == "timestamp > now() - INTERVAL '"@ + decimal(secs) + "' SECOND"@
            &&& logs_sql(args, secs, level_upper)
                == "SELECT timestamp, namespace, workload, level, body FROM logs WHERE "@ + join(
                cs,
                " AND "@,
            ) + " ORDER BY timestamp DESC LIMIT "@ + decimal(args.limit as int)
            &&& (args.workload matches Some(w) ==> cs.contains("workload LIKE '%"@ + w@ + "%'"@)
                && contains(logs_sql(args, secs, level_upper), "workload LIKE '%"@ + w@ + "%'"@))
            &&& (args.namespace matches Some(n) ==> cs.contains("namespace = '"@ + n@ + "'"@)
                && contains(logs_sql(args, secs, level_upper), "namespace = '"@ + n@ + "'"@))
            &&& (level_upper matches Some(l) ==> cs.contains("level = '"@ + l + "'"@) && contains(
                logs_sql(args, secs, level_upper),
                "level = '"@ + l + "'"@,
            ))
            &&& (args.grep matches Some(g) ==> cs.contains("body LIKE '%"@ + g@ + "%'"@)
                && contains(logs_sql(args, secs, level_upper), "body LIKE '%"@ + g@ + "%'"@))
            &&& (args.workload is None ==> !mentions(cs, "workload"@))
            &&& (args.namespace is None ==> !mentions(cs, "namespace"@))
            &&& (level_upper is None ==> !mentions(cs, "level"@))
            &&& (args.grep is None ==> !mentions(cs, "body"@))
        }),
{
    lemma_pieces();
    reveal_strlit("timestamp");
    reveal_strlit("workload");
    reveal_strlit("namespace");
    reveal_strlit("level");
    reveal_strlit("body");
    let cs = logs_conditions(args, secs, level_upper);
    let head = "SELECT timestamp, namespace, workload, level, body FROM logs WHERE "@;
    let tail = " ORDER BY timestamp DESC LIMIT "@;
    let limit = decimal(args.limit as int);
    assert(no_space("timestamp"@));
    assert(no_space("workload"@));
    assert(no_space("namespace"@));
    assert(no_space("level"@));
    assert(no_space("body"@));
    assert("namespace"@[0] != "timestamp"@[0]);
    reveal_strlit("timestamp > now() - INTERVAL '");
    reveal_strlit(" > now() - INTERVAL '");
    assert("timestamp"@ + " > now() - INTERVAL '"@ =~= "timestamp > now() - INTERVAL '"@);
    reveal_strlit(" = '");
    reveal_strlit(" LIKE '%");
    if let Some(w) = args.workload {
        reveal_strlit("workload LIKE '%");
        assert("workload"@ + " LIKE '%"@ =~= "workload LIKE '%"@);
        lemma_in_query(head, cs, tail, limit, "workload LIKE '%"@ + w@ + "%'"@);
    }
    if let Some(n) = args.namespace {
        reveal_strlit("namespace = '");
        assert("namespace"@ + " = '"@ =~= "namespace = '"@);
        lemma_in_query(head, cs, tail, limit, "namespace = '"@ + n@ + "'"@);
    }
    if let Some(l) = level_upper {
        reveal_strlit("level = '");
        assert("level"@ + " = '"@ =~= "level = '"@);
        lemma_in_query(head, cs, tail, limit, "level = '"@ + l + "'"@);
    }
    if let Some(g) = args.grep {
        reveal_strlit("body LIKE '%");
        assert("body"@ + " LIKE '%"@ =~= "body LIKE '%"@);
        lemma_in_query(head, cs, tail, limit, "body LIKE '%"@ + g@ + "%'"@);
    }
}

/// The duration and status conditions are on their columns.
proof fn lemma_trace_pieces_on(min: Option<u64>, status: Option<Seq<char>>)
    ensures
        all_on(min_duration_condition(min), "duration_ms"@),
        all_on(status_condition(status), "status_code"@),
        no_space("duration_ms"@),
        no_space("status_code"@),
{
    reveal_strlit(" ");
    reveal_strlit("duration_ms");
    reveal_strlit("duration_ms >= ");
    reveal_strlit("status_code");
    reveal_strlit("status_code != 0");
    reveal_strlit("status_code = 0");
    if let Some(m) = min {
        assert(("duration_ms >= "@ + decimal(m as int)).take(12) =~= "duration_ms"@ + " "@);
    }
    assert(("status_code != 0"@).take(12) =~= "status_code"@ + " "@);
    assert(("status_code = 0"@).take(12) =~= "status_code"@ + " "@);
}

/// The traces query keeps spans within the window and applies each filter
/// that is given, and no other: `--workload w` adds
/// `service_name LIKE '%w%'`, `--operation o` adds `operation LIKE '%o%'`,
/// `--min-duration m` adds `duration_ms >= m`, `--status error` adds
/// `status_code != 0` and `--status ok` adds `status_code = 0`; any other
/// status puts no condition on the status code.
pub proof fn law_traces_query_applies_each_given_filter(args: TracesArgs, secs: int)
    ensures
        ({
            let cs = traces_conditions(args, secs);
            let status = crate::text::opt_view(args.status);
            &&& cs.len() == 1 + given(args.workload) + given(args.operation) + (
            if args.min_duration is Some {
                1int
            } else {
                0
            }) + (if status == Some("error"@) || status == Some("ok"@) {
                1int
            } else {
                0
            })
            &&& cs[0] == "start_timestamp > now() - INTERVAL '"@ + decimal(secs) + "' SECOND"@
            &&& traces_sql(args, secs)
                == "SELECT start_timestamp, service_name, operation, duration_ms, status_code FROM traces WHERE "@
                + join(cs, " AND "@) + " ORDER BY start_timestamp DESC LIMIT "@ + decimal(
                args.limit as int,
            )
            &&& (args.workload matches Some(w) ==> cs.contains(
                "service_name LIKE '%"@ + w@ + "%'"@,
            ) && contains(traces_sql(args, secs), "service_name LIKE '%"@ + w@ + "%'"@))
            &&& (args.operation matches Some(o) ==> cs.contains("operation LIKE '%"@ + o@ + "%'"@)
                && contains(traces_sql(args, secs), "operation LIKE '%"@ + o@ + "%'"@))
            &&& (args.min_duration matches Some(m) ==> cs.contains(
                "duration_ms >= "@ + decimal(m as int),
            ) && contains(traces_sql(args, secs), "duration_ms >= "@ + decimal(m as int)))
            &&& (status == Some("error"@) ==> cs.contains("status_code != 0"@) && contains(
                traces_sql(args, secs),
                "status_code != 0"@,
            ))
            &&& (status == Some("ok"@) ==> cs.contains("status_code = 0"@) && contains(
                traces_sql(args, secs),
                "status_code = 0"@,
            ))
            &&& (args.workload is None ==> !mentions(cs, "service_name"@))
            &&& (args.operation is None ==> !mentions(cs, "operation"@))
            &&& (args.min_duration is None ==> !mentions(cs, "duration_ms"@))
            &&& (status != Some("error"@) && status != Some("ok"@) ==> !mentions(
                cs,
                "status_code"@,
            ))
        }),
{
    lemma_pieces();
    let status = crate::text::opt_view(args.status);
    lemma_trace_pieces_on(args.min_duration, status);
    reveal_strlit("error");
    reveal_strlit("ok");
    assert("ok"@.len() != "error"@.len());
    reveal_strlit("start_timestamp");
    reveal_strlit("service_name");
    reveal_strlit("operation");
    reveal_strlit("duration_ms");
    reveal_strlit("status_code");
    let cs = traces_conditions(args, secs);
    let head = "SELECT start_timestamp, service_name, operation, duration_ms, status_code FROM traces WHERE "@;
    let tail = " ORDER BY start_timestamp DESC LIMIT "@;
    let limit = decimal(args.limit as int);
    assert(no_space("start_timestamp"@));
    assert(no_space("service_name"@));
    assert(no_space("operation"@));
    assert("duration_ms"@[0] != "status_code"@[0]);
    reveal_strlit("start_timestamp > now() - INTERVAL '");
    reveal_strlit(" > now() - INTERVAL '");
    assert("start_timestamp"@ + " > now() - INTERVAL '"@
        =~= "start_timestamp > now() - INTERVAL '"@);
    reveal_strlit(" LIKE '%");
    if let Some(w) = args.workload {
        reveal_strlit("service_name LIKE '%");
        assert("service_name"@ + " LIKE '%"@ =~= "service_name LIKE '%"@);
        lemma_in_query(head, cs, tail, limit, "service_name LIKE '%"@ + w@ + "%'"@);
    }
    if let Some(o) = args.operation {
        reveal_strlit("operation LIKE '%");
        assert("operation"@ + " LIKE '%"@ =~= "operation LIKE '%"@);
        lemma_in_query(head, cs, tail, limit, "operation LIKE '%"@ + o@ + "%'"@);
    }
    if let Some(m) = args.min_duration {
        lemma_in_query(head, cs, tail, limit, "duration_ms >= "@ + decimal(m as int));
    }
    if status == Some("error"@) {
        lemma_in_query(head, cs, tail, limit, "status_code != 0"@);
    }
    if status == Some("ok"@) {
        lemma_in_query(head, cs, tail, limit, "status_code = 0"@);
    }
}

/// The events query keeps events within the window that have a reason, and
/// applies each filter that is given, and no other: `--namespace n` adds
/// `entity_namespace = 'n'`, `--type t` adds `type = 't'` and `--reason r`
/// adds `k8s_reason LIKE '%r%'`.
pub proof fn law_events_query_applies_each_given_filter(args: EventsArgs, secs: int)
    ensures
        ({
            let cs = events_conditions(args, secs);
            &&& cs.len() == 2 + given(args.namespace) + given(args.event_type) + given(args.reason)
            &&& cs[0] == "timestamp > now() - INTERVAL '"@ + decimal(secs) + "' SECOND"@
            &&& cs[1] == "length(k8s_reason) > 0"@
            &&& events_sql(args, secs)
                == "SELECT timestamp, entity_namespace, type, k8s_reason, k8s_message FROM events WHERE "@
                + join(cs, " AND "@) + " ORDER BY timestamp DESC LIMIT "@ + decimal(
                args.limit as int,
            )
            &&& (args.namespace matches Some(n) ==> cs.contains(
                "entity_namespace = '"@ + n@ + "'"@,
            ) && contains(events_sql(args, secs), "entity_namespace = '"@ + n@ + "'"@))
            &&& (args.event_type matches Some(t) ==> cs.contains("type = '"@ + t@ + "'"@)
                && contains(events_sql(args, secs), "type = '"@ + t@ + "'"@))
            &&& (args.reason matches Some(r) ==> cs.contains("k8s_reason LIKE '%"@ + r@ + "%'"@)
                && contains(events_sql(args, secs), "k8s_reason LIKE '%"@ + r@ + "%'"@))
            &&& (args.namespace is None ==> !mentions(cs, "entity_namespace"@))
            &&& (args.event_type is None ==> !mentions(cs, "type"@))
            &&& (args.reason is None ==> !mentions(cs, "k8s_reason"@))
        }),
{
    lemma_pieces();
    reveal_strlit(" ");
    reveal_strlit("timestamp");
    reveal_strlit("length(k8s_reason)");
    reveal_strlit("length(k8s_reason) > 0");
    reveal_strlit("entity_namespace");
    reveal_strlit("type");
    reveal_strlit("k8s_reason");
    let cs = events_conditions(args, secs);
    let head = "SELECT timestamp, entity_namespace, type, k8s_reason, k8s_message FROM events WHERE "@;
    let tail = " ORDER BY timestamp DESC LIMIT "@;
    let limit = decimal(args.limit as int);
    assert(no_space("timestamp"@));
    assert(no_space("length(k8s_reason)"@));
    assert(no_space("entity_namespace"@));
    assert(no_space("type"@));
    assert(no_space("k8s_reason"@));
    assert(("length(k8s_reason) > 0"@).take(19) =~= "length(k8s_reason)"@ + " "@);
    assert(all_on(seq!["length(k8s_reason) > 0"@], "length(k8s_reason)"@));
    reveal_strlit("timestamp > now() - INTERVAL '");
    reveal_strlit(" > now() - INTERVAL '");
    assert("timestamp"@ + " > now() - INTERVAL '"@ =~= "timestamp > now() - INTERVAL '"@);
    assert(cs =~= seq![since_condition("timestamp"@, secs)] + seq!["length(k8s_reason) > 0"@]
        + opt_eq("entity_namespace"@, crate::text::opt_view(args.namespace)) + opt_eq(
        "type"@,
        crate::text::opt_view(args.event_type),
    ) + opt_like("k8s_reason"@, crate::text::opt_view(args.reason)));
    reveal_strlit(" = '");
    reveal_strlit(" LIKE '%");
    if let Some(n) = args.namespace {
        reveal_strlit("entity_namespace = '");
        assert("entity_namespace"@ + " = '"@ =~= "entity_namespace = '"@);
        lemma_in_query(head, cs, tail, limit, "entity_namespace = '"@ + n@ + "'"@);
    }
    if let Some(t) = args.event_type {
        reveal_strlit("type = '");
        assert("type"@ + " = '"@ =~= "type = '"@);
        lemma_in_query(head, cs, tail, limit, "type = '"@ + t@ + "'"@);
    }
    if let Some(r) = args.reason {
        reveal_strlit("k8s_reason LIKE '%");
        assert("k8s_reason"@ + " LIKE '%"@ =~= "k8s_reason LIKE '%"@);
        lemma_in_query(head, cs, tail, limit, "k8s_reason LIKE '%"@ + r@ + "%'"@);
    }
}

} // verus!
