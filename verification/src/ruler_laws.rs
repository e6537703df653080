//! What is read from a Ruler answer: one alert for every rule of every group
//! of every folder, in the order of the answer.
use vstd::prelude::*;

use crate::commands::grafana::{
    alert_text, first_expr, folders_alerts, groups_alerts, model_expr, ruler_alerts, rules_alerts,
};
use crate::json::{get, items_of, member_str, Json};

verus! {

/// The rules of a group: the items of its `rules` array; none without one.
pub open spec fn group_rules(group: Json) -> Seq<Json> {
    match get(group, "rules"@) {
        Some(r) => match items_of(r) {
            Some(rules) => rules,
            None => seq![],
        },
        None => seq![],
    }
}

/// How many rules some groups hold together.
pub open spec fn rules_in_groups(groups: Seq<Json>) -> nat
    decreases groups.len(),
{
    if groups.len() == 0 {
        0
    } else {
        rules_in_groups(groups.drop_last()) + group_rules(groups.last()).len()
    }
}

/// How many rules a folder holds: those of the groups in its array.
pub open spec fn rules_in_folder(member: (String, Json)) -> nat {
    match items_of(member.1) {
        Some(groups) => rules_in_groups(groups),
        None => 0,
    }
}

/// How many rules some folders hold together.
pub open spec fn rules_in_folders(members: Seq<(String, Json)>) -> nat
    decreases members.len(),
{
    if members.len() == 0 {
        0
    } else {
        rules_in_folders(members.drop_last()) + rules_in_folder(members.last())
    }
}

/// How many rules a Ruler answer holds: none unless it is an object.
pub open spec fn rules_in_answer(result: Json) -> nat {
    match result {
        Json::Object(members) => rules_in_folders(members@),
        _ => 0,
    }
}

/// The alerts of some rules are one per rule, in order.
proof fn lemma_rules_alerts_index(folder: Seq<char>, rules: Seq<Json>)
    ensures
        rules_alerts(folder, rules).len() == rules.len(),
        forall|i: int|
            0 <= i < rules.len() ==> #[trigger] rules_alerts(folder, rules)[i] == alert_text(
                folder,
                rules[i],
            ),
    decreases rules.len(),
{
    if rules.len() > 0 {
        lemma_rules_alerts_index(folder, rules.drop_last());
    }
}

/// The alerts that one group adds are those of its rules.
proof fn lemma_group_adds(folder: Seq<char>, groups: Seq<Json>)
    requires
        groups.len() > 0,
    ensures
        groups_alerts(folder, groups) == groups_alerts(folder, groups.drop_last()) + rules_alerts(
            folder,
            group_rules(groups.last()),
        ),
{
    assert(rules_alerts(folder, seq![]) == Seq::<crate::commands::grafana::AlertText>::empty());
}

/// The alerts of some groups: as many as their rules, and rule `r` of group
/// `g` at the place after the rules of the groups before it.
proof fn lemma_groups_alerts_index(folder: Seq<char>, groups: Seq<Json>, g: int, r: int)
    requires
        0 <= g < groups.len(),
        0 <= r < group_rules(groups[g]).len(),
    ensures
        groups_alerts(folder, groups).len() == rules_in_groups(groups),
        rules_in_groups(groups.take(g)) + group_rules(groups[g]).len() <= rules_in_groups(groups),
        groups_alerts(folder, groups)[rules_in_groups(groups.take(g)) + r] == alert_text(
            folder,
            group_rules(groups[g])[r],
        ),
    decreases groups.len(),
{
    lemma_groups_alerts_len(folder, groups);
    lemma_group_adds(folder, groups);
    let prev = groups_alerts(folder, groups.drop_last());
    lemma_groups_alerts_len(folder, groups.drop_last());
    lemma_rules_alerts_index(folder, group_rules(groups.last()));
    if g == groups.len() - 1 {
        assert(groups.take(g) =~= groups.drop_last());
    } else {
        lemma_groups_alerts_index(folder, groups.drop_last(), g, r);
        assert(groups.drop_last().take(g) =~= groups.take(g));
        assert(groups.drop_last()[g] == groups[g]);
    }
}

/// The alerts of some groups are as many as their rules.
proof fn lemma_groups_alerts_len(folder: Seq<char>, groups: Seq<Json>)
    ensures
        groups_alerts(folder, groups).len() == rules_in_groups(groups),
    decreases groups.len(),
{
    if groups.len() > 0 {
        lemma_groups_alerts_len(folder, groups.drop_last());
        lemma_group_adds(folder, groups);
        lemma_rules_alerts_index(folder, group_rules(groups.last()));
    }
}

/// The alerts that one folder adds are those of its groups.
proof fn lemma_folder_adds(members: Seq<(String, Json)>)
    requires
        members.len() > 0,
    ensures
        folders_alerts(members) == folders_alerts(members.drop_last()) + match items_of(
            members.last().1,
        ) {
            Some(groups) => groups_alerts(members.last().0@, groups),
            None => seq![],
        },
{
}

/// The alerts of some folders are as many as their rules.
proof fn lemma_folders_alerts_len(members: Seq<(String, Json)>)
    ensures
        folders_alerts(members).len() == rules_in_folders(members),
    decreases members.len(),
{
    if members.len() > 0 {
        lemma_folders_alerts_len(members.drop_last());
        lemma_folder_adds(members);
        if let Some(groups) = items_of(members.last().1) {
            lemma_groups_alerts_len(members.last().0@, groups);
        }
    }
}

/// The alerts of some folders: rule `r` of group `g` of folder `m` at the
/// place after the rules of the folders and groups before it.
proof fn lemma_folders_alerts_index(
    members: Seq<(String, Json)>,
    m: int,
    groups: Seq<Json>,
    g: int,
    r: int,
)
    requires
        0 <= m < members.len(),
        items_of(members[m].1) == Some(groups),
        0 <= g < groups.len(),
        0 <= r < group_rules(groups[g]).len(),
    ensures
        rules_in_folders(members.take(m)) + rules_in_folder(members[m]) <= rules_in_folders(
            members,
        ),
        folders_alerts(members)[rules_in_folders(members.take(m)) + rules_in_groups(
            groups.take(g),
        ) + r] == alert_text(members[m].0@, group_rules(groups[g])[r]),
    decreases members.len(),
{
    lemma_folders_alerts_len(members.drop_last());
    lemma_folder_adds(members);
    lemma_groups_alerts_index(members[m].0@, groups, g, r);
    if m == members.len() - 1 {
        assert(members.take(m) =~= members.drop_last());
    } else {
        lemma_folders_alerts_index(members.drop_last(), m, groups, g, r);
        assert(members.drop_last().take(m) =~= members.take(m));
        assert(members.drop_last()[m] == members[m]);
    }
}

/// Every rule of a Ruler answer is read as one alert: as many alerts as
/// there are rules in the `rules` arrays of all groups of all folders.
pub proof fn law_ruler_alert_for_every_rule(result: Json)
    ensures
        ruler_alerts(result).len() == rules_in_answer(result),
{
    if let Json::Object(members) = result {
        lemma_folders_alerts_len(members@);
    }
}

/// Rule `r` of group `g` of folder `m` is read, with that folder's name, as
/// the alert that follows those of every rule before it in the answer: the
/// rules of the earlier folders, then of the earlier groups of its folder,
/// then the earlier rules of its group.
pub proof fn law_ruler_alerts_follow_the_answer(
    members: Vec<(String, Json)>,
    m: int,
    groups: Seq<Json>,
    g: int,
    r: int,
)
    requires
        0 <= m < members@.len(),
        items_of(members@[m].1) == Some(groups),
        0 <= g < groups.len(),
        0 <= r < group_rules(groups[g]).len(),
    ensures
        ({
            let k = rules_in_folders(members@.take(m)) + rules_in_groups(groups.take(g)) + r;
            &&& k < ruler_alerts(Json::Object(members)).len()
            &&& ruler_alerts(Json::Object(members))[k] == alert_text(
                members@[m].0@,
                group_rules(groups[g])[r],
            )
        }),
        ruler_alerts(Json::Object(members)).contains(
            alert_text(members@[m].0@, group_rules(groups[g])[r]),
        ),
{
    lemma_folders_alerts_len(members@);
    lemma_folders_alerts_index(members@, m, groups, g, r);
    lemma_groups_alerts_index(members@[m].0@, groups, g, r);
    let k = rules_in_folders(members@.take(m)) + rules_in_groups(groups.take(g)) + r;
    assert(ruler_alerts(Json::Object(members))[k] == alert_text(
        members@[m].0@,
        group_rules(groups[g])[r],
    ));
}

/// The query item `item` has a non-empty `model.expr`.
pub open spec fn has_expr(item: Json) -> bool {
    model_expr(item) matches Some(e) && e.len() > 0
}

/// The expression of a rule is the `model.expr` of the first of its query
/// items that has a non-empty one, and empty when none has.
proof fn lemma_first_expr(items: Seq<Json>)
    ensures
        first_expr(items).len() > 0 ==> exists|k: int|
            0 <= k < items.len() && model_expr(#[trigger] items[k]) == Some(first_expr(items))
                && forall|j: int| 0 <= j < k ==> !has_expr(#[trigger] items[j]),
        first_expr(items).len() == 0 ==> forall|j: int|
            0 <= j < items.len() ==> !has_expr(#[trigger] items[j]),
    decreases items.len(),
{
    if items.len() > 0 {
        let rest = items.drop_first();
        lemma_first_expr(rest);
        if has_expr(items[0]) {
            assert(model_expr(items[0]) == Some(first_expr(items)));
        } else {
            assert(first_expr(items) == first_expr(rest));
            if first_expr(items).len() > 0 {
                let k = choose|k: int|
                    0 <= k < rest.len() && model_expr(#[trigger] rest[k]) == Some(first_expr(rest))
                        && forall|j: int| 0 <= j < k ==> !has_expr(#[trigger] rest[j]);
                assert(items[k + 1] == rest[k]);
                assert forall|j: int| 0 <= j < k + 1 implies !has_expr(#[trigger] items[j]) by {
                    if j > 0 {
                        assert(items[j] == rest[j - 1]);
                    }
                }
            } else {
                assert forall|j: int| 0 <= j < items.len() implies !has_expr(#[trigger] items[j]) by {
                    if j > 0 {
                        assert(items[j] == rest[j - 1]);
                    }
                }
            }
        }
    }
}

/// The query items of a rule: the items of its `grafana_alert.data` array.
pub open spec fn rule_queries(rule: Json) -> Option<Seq<Json>> {
    match get(rule, "grafana_alert"@) {
        Some(g) => match get(g, "data"@) {
            Some(d) => items_of(d),
            None => None,
        },
        None => None,
    }
}

/// The title of a rule: its `grafana_alert.title`, when that is a string.
pub open spec fn rule_title(rule: Json) -> Option<Seq<char>> {
    match get(rule, "grafana_alert"@) {
        Some(g) => member_str(g, "title"@),
        None => None,
    }
}

/// What an alert says of its rule: the `grafana_alert.title` when it is a
/// string, else `?`; the rule's `state` when it is a string, else `?`; its
/// folder; and the first non-empty `model.expr` of the query items in
/// `grafana_alert.data`, empty when there is none.
pub proof fn law_ruler_alert_reads_its_rule(folder: Seq<char>, rule: Json)
    ensures
        alert_text(folder, rule).folder == folder,
        rule_title(rule) matches Some(t) ==> alert_text(folder, rule).title == t,
        rule_title(rule) is None ==> alert_text(folder, rule).title == "?"@,
        member_str(rule, "state"@) matches Some(st) ==> alert_text(folder, rule).state == st,
        member_str(rule, "state"@) is None ==> alert_text(folder, rule).state == "?"@,
        rule_queries(rule) matches Some(items) ==> {
            let e = alert_text(folder, rule).expr;
            &&& (e.len() > 0 ==> exists|k: int|
                0 <= k < items.len() && model_expr(#[trigger] items[k]) == Some(e) && forall|j: int|
                    0 <= j < k ==> !has_expr(#[trigger] items[j]))
            &&& (e.len() == 0 ==> forall|j: int| 0 <= j < items.len() ==> !has_expr(#[trigger] items[j]))
        },
        rule_queries(rule) is None ==> alert_text(folder, rule).expr.len() == 0,
{
    if let Some(items) = rule_queries(rule) {
        lemma_first_expr(items);
    }
}

} // verus!
