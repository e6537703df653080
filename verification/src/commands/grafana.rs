//! `grafana`: datasources, dashboards and alert rules.
use vstd::prelude::*;
use vstd::utf8::encode_utf8;

use crate::client::{percent_encode, GrafanaClient, HttpRequest};
use crate::helpers::{derefs, lemma_derefs_push};
use crate::json::{get, items_of, member_str, member_str_or, is_string, Json};
use crate::table::{
    cell_ok, header_line, header_text, row_line, row_text, str_views, Cell, Column,
};
use crate::text::{
    chars_of, push_string, repeat, repeat_char, string_of, string_views,
};

verus! {

/// The `grafana` subcommands.
#[derive(Debug)]
pub enum GrafanaCommands {
    Datasources,
    Datasource { uid: String },
    Dashboards,
    Search { query: String },
    AlertRules { filter: Option<String>, json: bool },
    Alerts { filter: Option<String>, json: bool },
}

/// The request a subcommand sends.
pub open spec fn command_request(client: GrafanaClient, command: GrafanaCommands, r: HttpRequest) -> bool {
    match command {
        GrafanaCommands::Datasources => client.get_request(r, "/api/datasources"@),
        GrafanaCommands::Datasource { uid } => client.get_request(
            r,
            "/api/datasources/uid/"@ + uid@,
        ),
        GrafanaCommands::Dashboards => client.get_request(r, "/api/search?type=dash-db"@),
        GrafanaCommands::Search { query } => client.get_request(
            r,
            "/api/search?type=dash-db&query="@ + percent_encode(encode_utf8(query@)),
        ),
        GrafanaCommands::AlertRules { .. } => client.get_request(
            r,
            "/api/v1/provisioning/alert-rules"@,
        ),
        GrafanaCommands::Alerts { .. } => client.get_request(
            r,
            "/api/ruler/grafana/api/v1/rules"@,
        ),
    }
}

/// An alert rule as the Ruler listing shows it.
pub struct AlertText {
    pub title: Seq<char>,
    pub state: Seq<char>,
    pub folder: Seq<char>,
    pub expr: Seq<char>,
}

/// The `model.expr` text of a rule's query item.
pub open spec fn model_expr(item: Json) -> Option<Seq<char>> {
    match get(item, "model"@) {
        Some(m) => member_str(m, "expr"@),
        None => None,
    }
}

/// The first non-empty `model.expr` among a rule's query items; empty if none.
pub open spec fn first_expr(items: Seq<Json>) -> Seq<char>
    decreases items.len(),
{
    if items.len() == 0 {
        seq![]
    } else {
        match model_expr(items[0]) {
            Some(e) => if e.len() > 0 {
                e
            } else {
                first_expr(items.drop_first())
            },
            None => first_expr(items.drop_first()),
        }
    }
}

/// A Ruler rule in folder `folder`: its `grafana_alert.title` (or `?`), its
/// `state` (or `?`), the folder, and the first query expression of
/// `grafana_alert.data` (or empty).
pub open spec fn alert_text(folder: Seq<char>, rule: Json) -> AlertText {
    let ga = get(rule, "grafana_alert"@);
    AlertText {
        title: match ga {
            Some(g) => member_str_or(g, "title"@, "?"@),
            None => "?"@,
        },
        state: member_str_or(rule, "state"@, "?"@),
        folder,
        expr: match ga {
            Some(g) => match get(g, "data"@) {
                Some(d) => match items_of(d) {
                    Some(items) => first_expr(items),
                    None => seq![],
                },
                None => seq![],
            },
            None => seq![],
        },
    }
}

/// The alerts of some rules in one folder.
pub open spec fn rules_alerts(folder: Seq<char>, rules: Seq<Json>) -> Seq<AlertText>
    decreases rules.len(),
{
    if rules.len() == 0 {
        seq![]
    } else {
        rules_alerts(folder, rules.drop_last()).push(alert_text(folder, rules.last()))
    }
}

/// The alerts of the groups of one folder: each group's `rules` array.
pub open spec fn groups_alerts(folder: Seq<char>, groups: Seq<Json>) -> Seq<AlertText>
    decreases groups.len(),
{
    if groups.len() == 0 {
        seq![]
    } else {
        groups_alerts(folder, groups.drop_last()) + match get(groups.last(), "rules"@) {
            Some(r) => match items_of(r) {
                Some(rules) => rules_alerts(folder, rules),
                None => seq![],
            },
            None => seq![],
        }
    }
}

/// The alerts of the folders: each folder maps to an array of groups.
pub open spec fn folders_alerts(members: Seq<(String, Json)>) -> Seq<AlertText>
    decreases members.len(),
{
    if members.len() == 0 {
        seq![]
    } else {
        folders_alerts(members.drop_last()) + match items_of(members.last().1) {
            Some(groups) => groups_alerts(members.last().0@, groups),
            None => seq![],
        }
    }
}

/// The alerts of a Ruler answer: none unless it is an object of folders.
pub open spec fn ruler_alerts(result: Json) -> Seq<AlertText> {
    match result {
        Json::Object(members) => folders_alerts(members@),
        _ => seq![],
    }
}

/// `j` is the object `{"expr", "folder", "state", "title"}` for `a`, members in
/// that order.
pub open spec fn is_alert_json(j: Json, a: AlertText) -> bool {
    &&& j matches Json::Object(ms)
    &&& ms@.len() == 4
    &&& ms@[0].0@ == "expr"@ && is_string(ms@[0].1, a.expr)
    &&& ms@[1].0@ == "folder"@ && is_string(ms@[1].1, a.folder)
    &&& ms@[2].0@ == "state"@ && is_string(ms@[2].1, a.state)
    &&& ms@[3].0@ == "title"@ && is_string(ms@[3].1, a.title)
}

/// The alerts given are the objects for `texts`, one for one.
pub open spec fn alerts_are(js: Seq<Json>, texts: Seq<AlertText>) -> bool {
    js.len() == texts.len() && forall|i: int| 0 <= i < js.len() ==> is_alert_json(
        #[trigger] js[i],
        texts[i],
    )
}

/// The shown fields of an item: member `keys[i]` as text, else `defaults[i]`.
pub open spec fn json_fields(item: Json, keys: Seq<Seq<char>>, defaults: Seq<Seq<char>>) -> Seq<
    Seq<char>,
> {
    Seq::new(keys.len(), |i: int| member_str_or(item, keys[i], defaults[i]))
}

/// A table of items: header, `rule` dashes, a row per item.
pub open spec fn json_table_text(
    items: Seq<Json>,
    labels: Seq<Seq<char>>,
    keys: Seq<Seq<char>>,
    defaults: Seq<Seq<char>>,
    cols: Seq<Column>,
    rule: nat,
) -> Seq<Seq<char>> {
    seq![header_text(labels, cols), repeat('-', rule)] + items.map_values(
        |it: Json| row_text(json_fields(it, keys, defaults), cols),
    )
}

/// Every item's fields can be shown in their columns.
pub open spec fn json_rows_fit(
    items: Seq<Json>,
    keys: Seq<Seq<char>>,
    defaults: Seq<Seq<char>>,
    cols: Seq<Column>,
) -> bool {
    forall|k: int, i: int|
        0 <= k < items.len() && 0 <= i < cols.len() ==> cell_ok(
            #[trigger] json_fields(items[k], keys, defaults)[i],
            cols[i].cell,
        )
}

/// Columns of the datasources table.
pub open spec fn datasource_columns() -> Seq<Column> {
    seq![
        Column { width: 40, cell: Cell::Plain },
        Column { width: 12, cell: Cell::Plain },
        Column { width: 0, cell: Cell::Plain },
    ]
}

/// Columns of the dashboards tables.
pub open spec fn uid_title_columns() -> Seq<Column> {
    seq![Column { width: 40, cell: Cell::Plain }, Column { width: 0, cell: Cell::Plain }]
}

/// Columns of the alert rules table.
pub open spec fn alert_rule_columns() -> Seq<Column> {
    seq![
        Column { width: 40, cell: Cell::Plain },
        Column { width: 20, cell: Cell::Plain },
        Column { width: 0, cell: Cell::Plain },
    ]
}

/// Columns of the Ruler alerts table: the folder cut to 25 bytes, titles over
/// 38 bytes and expressions over 45 bytes shortened with `...`.
pub open spec fn ruler_columns() -> Seq<Column> {
    seq![
        Column { width: 10, cell: Cell::Plain },
        Column { width: 25, cell: Cell::Cut(25) },
        Column { width: 40, cell: Cell::Ellipsis { over: 38, keep: 35 } },
        Column { width: 0, cell: Cell::Ellipsis { over: 45, keep: 42 } },
    ]
}

/// The request for a subcommand.
pub fn command_request_for(client: &GrafanaClient, command: &GrafanaCommands) -> (r: HttpRequest)
    ensures
        command_request(*client, *command, r),
{
    match command {
        GrafanaCommands::Datasources => client.list_datasources(),
        GrafanaCommands::Datasource { uid } => client.get_datasource(uid.as_str()),
        GrafanaCommands::Dashboards => client.list_dashboards(),
        GrafanaCommands::Search { query } => client.search_dashboards(query.as_str()),
        GrafanaCommands::AlertRules { .. } => client.list_alert_rules(),
        GrafanaCommands::Alerts { .. } => client.get_ruler_rules(),
    }
}

/// A string value.
fn string_json(s: &str) -> (r: Json)
    ensures
        is_string(r, s@),
{
    Json::String(String::from_str(s))
}

/// The object for one Ruler alert.
fn alert_json(title: &str, state: &str, folder: &str, expr: &str) -> (r: Json)
    ensures
        is_alert_json(r, AlertText { title: title@, state: state@, folder: folder@, expr: expr@ }),
{
    let mut ms: Vec<(String, Json)> = Vec::new();
    ms.push((String::from_str("expr"), string_json(expr)));
    ms.push((String::from_str("folder"), string_json(folder)));
    ms.push((String::from_str("state"), string_json(state)));
    ms.push((String::from_str("title"), string_json(title)));
    Json::Object(ms)
}

/// The first non-empty `model.expr` among the items; empty if none.
fn first_expr_of(items: &Vec<Json>) -> (r: &str)
    ensures
        r@ == first_expr(items@),
{
    let mut i: usize = 0;
    assert(items@.skip(0) =~= items@);
    while i < items.len()
        invariant
            i <= items@.len(),
            first_expr(items@) == first_expr(items@.skip(i as int)),
        decreases items.len() - i,
    {
        let ghost rest = items@.skip(i as int);
        assert(rest[0] == items@[i as int]);
        assert(rest.drop_first() =~= items@.skip(i + 1));
        let found = match items[i].get("model") {
            Some(m) => m.member_str("expr"),
            None => None,
        };
        match found {
            Some(e) => {
                if e.unicode_len() > 0 {
                    return e;
                }
            },
            None => {},
        }
        i += 1;
    }
    assert(items@.skip(i as int) =~= Seq::<Json>::empty());
    proof {
        reveal_strlit("");
    }
    ""
}

/// Adds the alert for `rule` in `folder`.
fn push_alert(out: &mut Vec<Json>, folder: &str, rule: &Json)
    ensures
        final(out)@.len() == old(out)@.len() + 1,
        forall|i: int| 0 <= i < old(out)@.len() ==> final(out)@[i] == old(out)@[i],
        is_alert_json(final(out)@[old(out)@.len() as int], alert_text(folder@, *rule)),
{
    let ga = rule.get("grafana_alert");
    let title = match ga {
        Some(g) => match g.member_str("title") {
            Some(t) => t,
            None => "?",
        },
        None => "?",
    };
    let state = match rule.member_str("state") {
        Some(s) => s,
        None => "?",
    };
    let expr = match ga {
        Some(g) => match g.get("data") {
            Some(d) => match d.as_array() {
                Some(items) => first_expr_of(items),
                None => "",
            },
            None => "",
        },
        None => "",
    };
    proof {
        reveal_strlit("");
    }
    let ghost a = alert_text(folder@, *rule);
    assert(title@ == a.title);
    assert(state@ == a.state);
    assert(expr@ == a.expr);
    out.push(alert_json(title, state, folder, expr));
}

/// The alerts of a Ruler answer (`/api/ruler/grafana/api/v1/rules`): for each
/// folder and each of its groups' rules, an object with the rule's title,
/// state, folder and first non-empty query expression.
pub fn parse_ruler_alerts(result: &Json) -> (r: Vec<Json>)
    ensures
        alerts_are(r@, ruler_alerts(*result)),
{
    let mut alerts: Vec<Json> = Vec::new();
    let members = match result {
        Json::Object(ms) => ms,
        _ => return alerts,
    };
    let mut f: usize = 0;
    while f < members.len()
        invariant
            f <= members@.len(),
            *result == Json::Object(*members),
            alerts_are(alerts@, folders_alerts(members@.take(f as int))),
        decreases members.len() - f,
    {
        assert(members@.take(f + 1).drop_last() =~= members@.take(f as int));
        assert(members@.take(f + 1).last() == members@[f as int]);
        let folder = members[f].0.as_str();
        let ghost before = folders_alerts(members@.take(f as int));
        match members[f].1.as_array() {
            Some(groups) => {
                let mut g: usize = 0;
                while g < groups.len()
                    invariant
                        g <= groups@.len(),
                        alerts_are(alerts@, before + groups_alerts(folder@, groups@.take(g as int))),
                    decreases groups.len() - g,
                {
                    assert(groups@.take(g + 1).drop_last() =~= groups@.take(g as int));
                    assert(groups@.take(g + 1).last() == groups@[g as int]);
                    let ghost mid = before + groups_alerts(folder@, groups@.take(g as int));
                    match groups[g].get("rules") {
                        Some(rv) => match rv.as_array() {
                            Some(rules) => {
                                let mut k: usize = 0;
                                while k < rules.len()
                                    invariant
                                        k <= rules@.len(),
                                        alerts_are(alerts@, mid + rules_alerts(folder@, rules@.take(k as int))),
                                    decreases rules.len() - k,
                                {
                                    assert(rules@.take(k + 1).drop_last() =~= rules@.take(k as int));
                                    assert(rules@.take(k + 1).last() == rules@[k as int]);
                                    let ghost prev = mid + rules_alerts(folder@, rules@.take(k as int));
                                    push_alert(&mut alerts, folder, &rules[k]);
                                    k += 1;
                                    assert(mid + rules_alerts(folder@, rules@.take(k as int)) =~= prev.push(
                                        alert_text(folder@, rules@[k - 1]),
                                    ));
                                }
                                assert(rules@.take(rules@.len() as int) =~= rules@);
                            },
                            None => {},
                        },
                        None => {},
                    }
                    g += 1;
                    assert(before + groups_alerts(folder@, groups@.take(g as int)) =~= mid + match get(
                        groups@[g - 1],
                        "rules"@,
                    ) {
                        Some(r) => match items_of(r) {
                            Some(rules) => rules_alerts(folder@, rules),
                            None => seq![],
                        },
                        None => seq![],
                    });
                }
                assert(groups@.take(groups@.len() as int) =~= groups@);
            },
            None => {},
        }
        f += 1;
        assert(folders_alerts(members@.take(f as int)) =~= before + match items_of(members@[f - 1].1) {
            Some(groups) => groups_alerts(members@[f - 1].0@, groups),
            None => seq![],
        });
    }
    assert(members@.take(members@.len() as int) =~= members@);
    alerts
}

/// The shown fields of an item.
fn fields_of(item: &Json, keys: &[&str], defaults: &[&str]) -> (r: Vec<Vec<char>>)
    requires
        keys@.len() == defaults@.len(),
    ensures
        r@.len() == keys@.len(),
        r@.map_values(|p: Vec<char>| p@) == json_fields(*item, str_views(keys@), str_views(defaults@)),
{
    let mut r: Vec<Vec<char>> = Vec::new();
    let mut i: usize = 0;
    while i < keys.len()
        invariant
            i <= keys@.len() == defaults@.len(),
            r@.len() == i,
            forall|k: int| 0 <= k < i ==> #[trigger] r@[k]@ == member_str_or(*item, keys@[k]@, defaults@[k]@),
        decreases keys.len() - i,
    {
        let text = match item.member_str(keys[i]) {
            Some(t) => t,
            None => defaults[i],
        };
        r.push(chars_of(text));
        i += 1;
    }
    assert(r@.map_values(|p: Vec<char>| p@) =~= json_fields(*item, str_views(keys@), str_views(defaults@)));
    r
}

/// A table of items: header, `rule` dashes, one row per item.
pub fn json_table(
    items: &[&Json],
    labels: &[&str],
    keys: &[&str],
    defaults: &[&str],
    cols: &[Column],
    rule: usize,
) -> (r: Vec<String>)
    requires
        labels@.len() == cols@.len() == keys@.len() == defaults@.len(),
        json_rows_fit(derefs(items@), str_views(keys@), str_views(defaults@), cols@),
    ensures
        string_views(r@) == json_table_text(
            derefs(items@),
            str_views(labels@),
            str_views(keys@),
            str_views(defaults@),
            cols@,
            rule as nat,
        ),
{
    let ghost its = derefs(items@);
    let ghost ks = str_views(keys@);
    let ghost ds = str_views(defaults@);
    let mut out: Vec<String> = Vec::new();
    push_string(&mut out, header_line(labels, cols));
    push_string(&mut out, string_of(&repeat_char('-', rule)));
    let ghost head = seq![header_text(str_views(labels@), cols@), repeat('-', rule as nat)];
    assert(string_views(out@) =~= head);
    let mut k: usize = 0;
    while k < items.len()
        invariant
            k <= items@.len(),
            its == derefs(items@),
            ks == str_views(keys@),
            ds == str_views(defaults@),
            cols@.len() == keys@.len() == defaults@.len(),
            json_rows_fit(its, ks, ds, cols@),
            string_views(out@) == head + its.take(k as int).map_values(
                |it: Json| row_text(json_fields(it, ks, ds), cols@),
            ),
        decreases items.len() - k,
    {
        let parts = fields_of(items[k], keys, defaults);
        assert(its[k as int] == *items@[k as int]);
        assert forall|i: int| 0 <= i < cols@.len() implies cell_ok(
            #[trigger] parts@[i]@,
            cols@[i].cell,
        ) by {
            assert(parts@.map_values(|p: Vec<char>| p@)[i] == parts@[i]@);
            assert(cell_ok(json_fields(its[k as int], ks, ds)[i], cols@[i].cell));
        }
        let line = row_line(&parts, cols);
        push_string(&mut out, string_of(&line));
        k += 1;
        assert(string_views(out@) =~= head + its.take(k as int).map_values(
            |it: Json| row_text(json_fields(it, ks, ds), cols@),
        ));
    }
    assert(its.take(items@.len() as int) =~= its);
    out
}

/// References to the items of an array.
fn refs_of(items: &Vec<Json>) -> (r: Vec<&Json>)
    ensures
        derefs(r@) == items@,
{
    let mut r: Vec<&Json> = Vec::new();
    let mut i: usize = 0;
    while i < items.len()
        invariant
            i <= items@.len(),
            derefs(r@) == items@.take(i as int),
        decreases items.len() - i,
    {
        proof {
            lemma_derefs_push(r@, &items[i as int]);
        }
        r.push(&items[i]);
        i += 1;
        assert(derefs(r@) =~= items@.take(i as int));
    }
    assert(items@.take(items@.len() as int) =~= items@);
    r
}

/// The datasources table (UID, type, name); nothing when the answer is no array.
pub fn datasources_table(result: &Json) -> (r: Vec<String>)
    ensures
        match items_of(*result) {
            Some(items) => string_views(r@) == json_table_text(
                items,
                seq!["UID"@, "TYPE"@, "NAME"@],
                seq!["uid"@, "type"@, "name"@],
                seq!["?"@, "?"@, "?"@],
                datasource_columns(),
                80,
            ),
            None => r@.len() == 0,
        },
{
    match result.as_array() {
        Some(items) => {
            let refs = refs_of(items);
            let labels: [&str; 3] = ["UID", "TYPE", "NAME"];
            let keys: [&str; 3] = ["uid", "type", "name"];
            let defaults: [&str; 3] = ["?", "?", "?"];
            let cols: [Column; 3] = [
                Column { width: 40, cell: Cell::Plain },
                Column { width: 12, cell: Cell::Plain },
                Column { width: 0, cell: Cell::Plain },
            ];
            assert(cols@ =~= datasource_columns());
            assert(str_views(labels@) =~= seq!["UID"@, "TYPE"@, "NAME"@]);
            assert(str_views(keys@) =~= seq!["uid"@, "type"@, "name"@]);
            assert(str_views(defaults@) =~= seq!["?"@, "?"@, "?"@]);
            json_table(&refs, &labels, &keys, &defaults, &cols, 80)
        },
        None => Vec::new(),
    }
}

/// The dashboards table (UID, title); nothing when the answer is no array.
pub fn uid_title_table(result: &Json) -> (r: Vec<String>)
    ensures
        match items_of(*result) {
            Some(items) => string_views(r@) == json_table_text(
                items,
                seq!["UID"@, "TITLE"@],
                seq!["uid"@, "title"@],
                seq!["?"@, "?"@],
                uid_title_columns(),
                80,
            ),
            None => r@.len() == 0,
        },
{
    match result.as_array() {
        Some(items) => {
            let refs = refs_of(items);
            let labels: [&str; 2] = ["UID", "TITLE"];
            let keys: [&str; 2] = ["uid", "title"];
            let defaults: [&str; 2] = ["?", "?"];
            let cols: [Column; 2] = [
                Column { width: 40, cell: Cell::Plain },
                Column { width: 0, cell: Cell::Plain },
            ];
            assert(cols@ =~= uid_title_columns());
            assert(str_views(labels@) =~= seq!["UID"@, "TITLE"@]);
            assert(str_views(keys@) =~= seq!["uid"@, "title"@]);
            assert(str_views(defaults@) =~= seq!["?"@, "?"@]);
            json_table(&refs, &labels, &keys, &defaults, &cols, 80)
        },
        None => Vec::new(),
    }
}

/// The provisioned alert rules table (UID, folder UID, title).
pub fn alert_rules_table(rules: &[&Json]) -> (r: Vec<String>)
    ensures
        string_views(r@) == json_table_text(
            derefs(rules@),
            seq!["UID"@, "FOLDER"@, "TITLE"@],
            seq!["uid"@, "folderUID"@, "title"@],
            seq!["?"@, "?"@, "?"@],
            alert_rule_columns(),
            100,
        ),
{
    let labels: [&str; 3] = ["UID", "FOLDER", "TITLE"];
    let keys: [&str; 3] = ["uid", "folderUID", "title"];
    let defaults: [&str; 3] = ["?", "?", "?"];
    let cols: [Column; 3] = [
        Column { width: 40, cell: Cell::Plain },
        Column { width: 20, cell: Cell::Plain },
        Column { width: 0, cell: Cell::Plain },
    ];
    assert(cols@ =~= alert_rule_columns());
    assert(str_views(labels@) =~= seq!["UID"@, "FOLDER"@, "TITLE"@]);
    assert(str_views(keys@) =~= seq!["uid"@, "folderUID"@, "title"@]);
    assert(str_views(defaults@) =~= seq!["?"@, "?"@, "?"@]);
    json_table(rules, &labels, &keys, &defaults, &cols, 100)
}

/// The Ruler alerts table (state, folder, title, expression).
pub fn ruler_alerts_table(alerts: &[&Json]) -> (r: Vec<String>)
    requires
        json_rows_fit(
            derefs(alerts@),
            seq!["state"@, "folder"@, "title"@, "expr"@],
            seq!["?"@, "?"@, "?"@, ""@],
            ruler_columns(),
        ),
    ensures
        string_views(r@) == json_table_text(
            derefs(alerts@),
            seq!["STATE"@, "FOLDER"@, "TITLE"@, "EXPRESSION"@],
            seq!["state"@, "folder"@, "title"@, "expr"@],
            seq!["?"@, "?"@, "?"@, ""@],
            ruler_columns(),
            120,
        ),
{
    let labels: [&str; 4] = ["STATE", "FOLDER", "TITLE", "EXPRESSION"];
    let keys: [&str; 4] = ["state", "folder", "title", "expr"];
    let defaults: [&str; 4] = ["?", "?", "?", ""];
    let cols: [Column; 4] = [
        Column { width: 10, cell: Cell::Plain },
        Column { width: 25, cell: Cell::Cut(25) },
        Column { width: 40, cell: Cell::Ellipsis { over: 38, keep: 35 } },
        Column { width: 0, cell: Cell::Ellipsis { over: 45, keep: 42 } },
    ];
    assert(cols@ =~= ruler_columns());
    assert(str_views(labels@) =~= seq!["STATE"@, "FOLDER"@, "TITLE"@, "EXPRESSION"@]);
    assert(str_views(keys@) =~= seq!["state"@, "folder"@, "title"@, "expr"@]);
    assert(str_views(defaults@) =~= seq!["?"@, "?"@, "?"@, ""@]);
    json_table(alerts, &labels, &keys, &defaults, &cols, 120)
}

} // verus!
