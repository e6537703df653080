use groundcover_cli::client::GrafanaClient;
use groundcover_cli::commands::clickhouse::{metrics_lines, MetricsLine};
use groundcover_cli::commands::grafana::{
    alert_rules_table, command_request_for, datasources_table, parse_ruler_alerts,
    ruler_alerts_table, uid_title_table, GrafanaCommands,
};
use groundcover_cli::helpers::filter_by_title;
use groundcover_cli::json::Json;

fn s(x: &str) -> String {
    x.to_string()
}

fn st(x: &str) -> Json {
    Json::String(s(x))
}

fn obj(members: Vec<(&str, Json)>) -> Json {
    Json::Object(members.into_iter().map(|(k, v)| (s(k), v)).collect())
}

fn alert(expr: &str, folder: &str, state: &str, title: &str) -> Json {
    obj(vec![("expr", st(expr)), ("folder", st(folder)), ("state", st(state)), ("title", st(title))])
}

fn ruler_answer() -> Json {
    let rule1 = obj(vec![
        ("state", st("firing")),
        (
            "grafana_alert",
            obj(vec![
                ("title", st("High CPU")),
                (
                    "data",
                    Json::Array(vec![
                        obj(vec![("model", obj(vec![("expr", st(""))]))]),
                        obj(vec![("model", obj(vec![("refId", st("B"))]))]),
                        obj(vec![("model", obj(vec![("expr", st("rate(cpu[5m]) > 0.9"))]))]),
                    ]),
                ),
            ]),
        ),
    ]);
    let rule2 = obj(vec![("grafana_alert", obj(vec![]))]);
    let group = obj(vec![("name", st("g")), ("rules", Json::Array(vec![rule1, rule2]))]);
    let no_rules = obj(vec![("name", st("empty"))]);
    obj(vec![
        ("infra", Json::Array(vec![group, no_rules])),
        ("misc", st("not a list")),
        ("team", Json::Array(vec![obj(vec![("rules", Json::Array(vec![Json::Null]))])])),
    ])
}

#[test]
fn ruler_answer_becomes_alerts() {
    let alerts = parse_ruler_alerts(&ruler_answer());
    assert_eq!(
        alerts,
        vec![
            alert("rate(cpu[5m]) > 0.9", "infra", "firing", "High CPU"),
            alert("", "infra", "?", "?"),
            alert("", "team", "?", "?"),
        ]
    );
    assert!(parse_ruler_alerts(&Json::Array(vec![])).is_empty());
}

#[test]
fn ruler_alerts_filter_and_table() {
    let alerts = parse_ruler_alerts(&ruler_answer());
    let filtered = filter_by_title(&alerts, Some("CPU"));
    assert_eq!(filtered, vec![&alerts[0]]);
    let long_title = "t".repeat(39);
    let long_expr = "e".repeat(46);
    let long = alert(&long_expr, &"f".repeat(30), "ok", &long_title);
    let out = ruler_alerts_table(&[&long, &alerts[0]]);
    assert_eq!(out[0], format!("{:<10} {:<25} {:<40} {}", "STATE", "FOLDER", "TITLE", "EXPRESSION"));
    assert_eq!(out[1], "-".repeat(120));
    assert_eq!(
        out[2],
        format!("{:<10} {:<25} {:<40} {}", "ok", "f".repeat(25), format!("{}...", "t".repeat(35)), format!("{}...", "e".repeat(42)))
    );
    assert_eq!(out[3], format!("{:<10} {:<25} {:<40} {}", "firing", "infra", "High CPU", "rate(cpu[5m]) > 0.9"));
}

#[test]
fn datasource_and_dashboard_tables() {
    let answer = Json::Array(vec![
        obj(vec![("uid", st("u1")), ("type", st("prometheus")), ("name", st("Prom"))]),
        obj(vec![("uid", Json::Number(s("5")))]),
    ]);
    let out = datasources_table(&answer);
    assert_eq!(out[0], format!("{:<40} {:<12} {}", "UID", "TYPE", "NAME"));
    assert_eq!(out[1], "-".repeat(80));
    assert_eq!(out[2], format!("{:<40} {:<12} {}", "u1", "prometheus", "Prom"));
    assert_eq!(out[3], format!("{:<40} {:<12} {}", "?", "?", "?"));
    assert!(datasources_table(&obj(vec![])).is_empty());
    let dash = uid_title_table(&Json::Array(vec![obj(vec![("uid", st("d")), ("title", st("CPU"))])]));
    assert_eq!(dash, vec![format!("{:<40} {}", "UID", "TITLE"), "-".repeat(80), format!("{:<40} {}", "d", "CPU")]);
    let rule = obj(vec![("uid", st("r")), ("folderUID", st("f")), ("title", st("T"))]);
    let rules = alert_rules_table(&[&rule]);
    assert_eq!(rules[2], format!("{:<40} {:<20} {}", "r", "f", "T"));
    assert_eq!(rules[1], "-".repeat(100));
}

#[test]
fn commands_pick_their_requests() {
    let g = GrafanaClient::new(s("tok"));
    let search = command_request_for(&g, &GrafanaCommands::Search { query: s("a b") });
    assert_eq!(search.url, "https://app.groundcover.com/grafana/api/search?type=dash-db&query=a%20b");
    let alerts = command_request_for(&g, &GrafanaCommands::Alerts { filter: None, json: false });
    assert_eq!(alerts.url, "https://app.groundcover.com/grafana/api/ruler/grafana/api/v1/rules");
    let ds = command_request_for(&g, &GrafanaCommands::Datasource { uid: s("x") });
    assert_eq!(ds.url, "https://app.groundcover.com/grafana/api/datasources/uid/x");
}

#[test]
fn metrics_listing_shows_ten_samples() {
    let mut with_short: Vec<Json> = vec![Json::Array(vec![Json::Number(s("1"))])];
    for i in 0..12 {
        with_short.push(Json::Array(vec![Json::Number(i.to_string()), st(&format!("v{i}"))]));
    }
    let series = obj(vec![("metric", obj(vec![("job", st("a"))])), ("values", Json::Array(with_short))]);
    let bare = obj(vec![("values", st("none"))]);
    let answer = obj(vec![("data", obj(vec![("result", Json::Array(vec![series, bare]))]))]);
    let lines = metrics_lines(&answer).unwrap();
    assert_eq!(lines.len(), 1 + 9 + 1);
    assert!(matches!(lines[0], MetricsLine::Series(_)));
    assert!(matches!(lines[1], MetricsLine::Point(Json::Number(n), "v0") if n == "0"));
    assert!(matches!(lines[10], MetricsLine::More(3)));
    assert!(metrics_lines(&obj(vec![("data", st("x"))])).is_none());
}
