use groundcover_cli::client::{Client, GrafanaClient, HttpResponse, Method};
use groundcover_cli::commands::alerts::{build_alerts_sql, build_issues_sql, AlertsArgs, IssuesArgs};
use groundcover_cli::commands::api::{build_api_sql, build_where, build_workloads_sql, ApiArgs, WorkloadsArgs};
use groundcover_cli::commands::clickhouse::{
    build_events_sql, build_logs_sql, build_traces_sql, metrics_window, EventsArgs, LogsArgs,
    TracesArgs,
};
use groundcover_cli::commands::{build_time_conditions, push_optional_eq, push_optional_like};
use groundcover_cli::duration::Duration;
use groundcover_cli::error::{CliError, IntErrorKind, Service};
use groundcover_cli::helpers::tab_separated;

fn s(x: &str) -> String {
    x.to_string()
}

fn logs(since: &str) -> LogsArgs {
    LogsArgs {
        since: s(since),
        workload: None,
        namespace: None,
        level: None,
        grep: None,
        limit: 100,
        json: false,
    }
}

#[test]
fn logs_sql_without_filters_has_only_the_window() {
    assert_eq!(
        build_logs_sql(&logs("15m")).unwrap(),
        "SELECT timestamp, namespace, workload, level, body FROM logs WHERE timestamp > now() - INTERVAL '900' SECOND ORDER BY timestamp DESC LIMIT 100"
    );
}

#[test]
fn logs_sql_with_every_filter_and_uppercased_level() {
    let args = LogsArgs {
        since: s("1h"),
        workload: Some(s("api")),
        namespace: Some(s("default")),
        level: Some(s("error")),
        grep: Some(s("timeout")),
        limit: 5,
        json: false,
    };
    assert_eq!(
        build_logs_sql(&args).unwrap(),
        "SELECT timestamp, namespace, workload, level, body FROM logs WHERE timestamp > now() - INTERVAL '3600' SECOND AND workload LIKE '%api%' AND namespace = 'default' AND level = 'ERROR' AND body LIKE '%timeout%' ORDER BY timestamp DESC LIMIT 5"
    );
}

#[test]
fn logs_grep_is_refused_beyond_a_day() {
    let mut args = logs("25h");
    args.grep = Some(s("x"));
    let err = build_logs_sql(&args).unwrap_err();
    assert_eq!(err, CliError::GrepWindowTooLarge { since: s("25h") });
    assert!(err.message().starts_with("--since 25h too large for -g (max 24h)"));
}

#[test]
fn logs_grep_is_allowed_at_24_hours_59_minutes() {
    let mut args = logs("1499m");
    args.grep = Some(s("x"));
    assert!(build_logs_sql(&args).is_ok());
    let mut over = logs("1500m");
    over.grep = Some(s("x"));
    assert!(build_logs_sql(&over).is_err());
    assert!(build_logs_sql(&logs("7d")).is_ok());
}

#[test]
fn logs_level_uses_unicode_uppercase() {
    let mut args = logs("1m");
    args.level = Some(s("straße"));
    assert!(build_logs_sql(&args).unwrap().contains("level = 'STRASSE'"));
}

#[test]
fn traces_sql_with_status_and_min_duration() {
    let args = TracesArgs {
        since: s("30s"),
        workload: Some(s("svc")),
        operation: Some(s("GET /x")),
        min_duration: Some(250),
        status: Some(s("error")),
        limit: 50,
        json: false,
    };
    assert_eq!(
        build_traces_sql(&args).unwrap(),
        "SELECT start_timestamp, service_name, operation, duration_ms, status_code FROM traces WHERE start_timestamp > now() - INTERVAL '30' SECOND AND service_name LIKE '%svc%' AND operation LIKE '%GET /x%' AND duration_ms >= 250 AND status_code != 0 ORDER BY start_timestamp DESC LIMIT 50"
    );
}

#[test]
fn traces_status_ok_and_unknown() {
    let mut args = TracesArgs {
        since: s("1m"),
        workload: None,
        operation: None,
        min_duration: None,
        status: Some(s("ok")),
        limit: 1,
        json: false,
    };
    assert!(build_traces_sql(&args).unwrap().contains("AND status_code = 0 ORDER"));
    args.status = Some(s("other"));
    assert_eq!(
        build_traces_sql(&args).unwrap(),
        "SELECT start_timestamp, service_name, operation, duration_ms, status_code FROM traces WHERE start_timestamp > now() - INTERVAL '60' SECOND ORDER BY start_timestamp DESC LIMIT 1"
    );
}

#[test]
fn events_sql_always_requires_a_reason() {
    let args = EventsArgs {
        since: s("1h"),
        namespace: Some(s("kube-system")),
        event_type: Some(s("Warning")),
        reason: Some(s("BackOff")),
        limit: 100,
        json: false,
    };
    assert_eq!(
        build_events_sql(&args).unwrap(),
        "SELECT timestamp, entity_namespace, type, k8s_reason, k8s_message FROM events WHERE timestamp > now() - INTERVAL '3600' SECOND AND length(k8s_reason) > 0 AND entity_namespace = 'kube-system' AND type = 'Warning' AND k8s_reason LIKE '%BackOff%' ORDER BY timestamp DESC LIMIT 100"
    );
}

#[test]
fn alerts_sql_with_filters() {
    let args = AlertsArgs {
        since: s("2h"),
        state: Some(s("Alerting")),
        severity: Some(s("S1")),
        namespace: None,
        workload: Some(s("web")),
        monitor: Some(s("cpu")),
        limit: 50,
        json: false,
    };
    assert_eq!(
        build_alerts_sql(&args).unwrap(),
        "SELECT timestamp, monitor_name, state, severity, namespace, workload FROM monitor_state WHERE timestamp > now() - INTERVAL '7200' SECOND AND state = 'Alerting' AND severity = 'S1' AND workload LIKE '%web%' AND monitor_name LIKE '%cpu%' ORDER BY timestamp DESC LIMIT 50"
    );
}

#[test]
fn issues_sql_with_filters() {
    let args = IssuesArgs {
        since: s("1h"),
        namespace: Some(s("prod")),
        workload: None,
        grep: Some(s("timeout")),
        code: Some(s("502")),
        limit: 10,
        json: false,
    };
    assert_eq!(
        build_issues_sql(&args).unwrap(),
        "SELECT last_seen, namespace, workload, issue_description, return_code, sum(incident_count) as total_count FROM traces_issues_list_one_minute_view WHERE last_seen > now() - INTERVAL '3600' SECOND AND namespace = 'prod' AND issue_description LIKE '%timeout%' AND return_code = '502' GROUP BY last_seen, namespace, workload, issue_description, return_code ORDER BY last_seen DESC LIMIT 10"
    );
}

#[test]
fn issues_sql_reports_bad_durations() {
    let args = IssuesArgs {
        since: s("soon"),
        namespace: None,
        workload: None,
        grep: None,
        code: None,
        limit: 10,
        json: false,
    };
    assert_eq!(build_issues_sql(&args).unwrap_err(), CliError::InvalidDuration { input: s("soon") });
}

#[test]
fn api_sql_without_filters_has_no_where() {
    let args = ApiArgs { namespace: None, workload: None, endpoint: None, errors: false, limit: 50, json: false };
    assert_eq!(
        build_api_sql(&args),
        "SELECT server_namespace, server, span_name, round(rps, 2) as rps, round(error_rate * 100, 2) as error_pct, round(p50, 1) as p50_ms, round(p99, 1) as p99_ms FROM apm_measurements_resource_refreshable_one_hour  ORDER BY rps DESC NULLS LAST LIMIT 50"
    );
}

#[test]
fn api_sql_with_filters() {
    let args = ApiArgs {
        namespace: Some(s("ns")),
        workload: Some(s("nginx")),
        endpoint: Some(s("/v1/releases")),
        errors: true,
        limit: 7,
        json: false,
    };
    assert_eq!(
        build_api_sql(&args),
        "SELECT server_namespace, server, span_name, round(rps, 2) as rps, round(error_rate * 100, 2) as error_pct, round(p50, 1) as p50_ms, round(p99, 1) as p99_ms FROM apm_measurements_resource_refreshable_one_hour WHERE server_namespace = 'ns' AND server LIKE '%nginx%' AND span_name LIKE '%/v1/releases%' AND error_rate > 0 ORDER BY rps DESC NULLS LAST LIMIT 7"
    );
}

#[test]
fn workloads_sql_with_flags() {
    let args = WorkloadsArgs {
        namespace: Some(s("default")),
        workload: None,
        kind: Some(s("Deployment")),
        errors: true,
        not_ready: true,
        limit: 50,
        json: false,
    };
    assert_eq!(
        build_workloads_sql(&args),
        "SELECT namespace, workload, kind, ready, pods_count, round(rps, 2) as rps, round(error_rate * 100, 2) as error_pct, round(p50, 1) as p50_ms, round(p99, 1) as p99_ms FROM workloads_refreshable WHERE namespace = 'default' AND kind = 'Deployment' AND error_rate > 0 AND ready = false ORDER BY rps DESC NULLS LAST LIMIT 50"
    );
}

#[test]
fn build_where_joins_with_and() {
    assert_eq!(build_where(&vec![]), "");
    assert_eq!(build_where(&vec![s("a = 1")]), "WHERE a = 1");
    assert_eq!(build_where(&vec![s("a = 1"), s("b = 2")]), "WHERE a = 1 AND b = 2");
}

#[test]
fn optional_conditions_are_added_only_with_a_value() {
    let mut c = vec![];
    push_optional_eq(&mut c, "state", None);
    push_optional_like(&mut c, "workload", None);
    assert!(c.is_empty());
    push_optional_eq(&mut c, "state", Some("Normal"));
    push_optional_like(&mut c, "workload", Some("api"));
    assert_eq!(c, vec![s("state = 'Normal'"), s("workload LIKE '%api%'")]);
}

#[test]
fn time_condition_counts_seconds() {
    assert_eq!(
        build_time_conditions("last_seen", "-2m").unwrap(),
        vec![s("last_seen > now() - INTERVAL '-120' SECOND")]
    );
    assert_eq!(
        build_time_conditions("t", "+9223372036854775s").unwrap(),
        vec![s("t > now() - INTERVAL '9223372036854775' SECOND")]
    );
}

#[test]
fn tab_separated_appends_the_format() {
    assert_eq!(tab_separated("SHOW TABLES"), "SHOW TABLES FORMAT TabSeparated");
}

#[test]
fn clickhouse_request_posts_the_sql_with_the_key() {
    let client = Client::new(s("k123"));
    let r = client.query_clickhouse("SELECT 1");
    assert_eq!(r.method, Method::Post);
    assert_eq!(r.url, "https://ds.groundcover.com");
    assert_eq!(r.headers, vec![(s("X-ClickHouse-Key"), s("k123"))]);
    assert!(r.query.is_empty());
    assert_eq!(r.body, Some(s("SELECT 1")));
}

#[test]
fn clickhouse_json_request_adds_the_format_once() {
    let client = Client::new(s("k"));
    assert_eq!(client.query_clickhouse_json("SELECT 1").body, Some(s("SELECT 1 FORMAT JSON")));
    assert_eq!(
        client.query_clickhouse_json("select 1 format TSV").body,
        Some(s("select 1 format TSV"))
    );
    assert_eq!(
        client.query_clickhouse_json("SELECT 'ﬀormat x'").body,
        Some(s("SELECT 'ﬀormat x'"))
    );
}

#[test]
fn metrics_request_carries_the_range() {
    let client = Client::new(s("key"));
    let r = client.query_metrics("up", -5, 1700000000, None);
    assert_eq!(r.method, Method::Get);
    assert_eq!(r.url, "https://ds.groundcover.com/datasources/prometheus/api/v1/query_range");
    assert_eq!(r.headers, vec![(s("apikey"), s("key"))]);
    assert_eq!(
        r.query,
        vec![
            (s("query"), s("up")),
            (s("start"), s("-5")),
            (s("end"), s("1700000000")),
            (s("step"), s("60s")),
        ]
    );
    assert_eq!(r.body, None);
    let r2 = client.query_metrics("up", i64::MIN, i64::MAX, Some("5m"));
    assert_eq!(r2.query[1].1, i64::MIN.to_string());
    assert_eq!(r2.query[2].1, i64::MAX.to_string());
    assert_eq!(r2.query[3].1, "5m");
}

#[test]
fn metrics_window_ends_now() {
    assert_eq!(metrics_window(1_000_000, &Duration::hours(1)), (996_400, 1_000_000));
    assert_eq!(metrics_window(0, &Duration::seconds(-30)), (30, 0));
}

#[test]
fn grafana_requests_use_bearer_token_and_paths() {
    let g = GrafanaClient::new(s("glsa_x"));
    let r = g.list_datasources();
    assert_eq!(r.method, Method::Get);
    assert_eq!(r.url, "https://app.groundcover.com/grafana/api/datasources");
    assert_eq!(r.headers, vec![(s("Authorization"), s("Bearer glsa_x"))]);
    assert_eq!(g.get_datasource("abc").url, "https://app.groundcover.com/grafana/api/datasources/uid/abc");
    assert_eq!(g.list_dashboards().url, "https://app.groundcover.com/grafana/api/search?type=dash-db");
    assert_eq!(g.list_alert_rules().url, "https://app.groundcover.com/grafana/api/v1/provisioning/alert-rules");
    assert_eq!(g.get_ruler_rules().url, "https://app.groundcover.com/grafana/api/ruler/grafana/api/v1/rules");
}

#[test]
fn grafana_search_is_url_encoded() {
    let g = GrafanaClient::new(s("t"));
    assert_eq!(
        g.search_dashboards("cpu & mem/é~x").url,
        "https://app.groundcover.com/grafana/api/search?type=dash-db&query=cpu%20%26%20mem%2F%C3%A9~x"
    );
}

#[test]
fn responses_outside_2xx_are_errors() {
    let ok = HttpResponse { status: 200, status_line: s("200 OK"), body: s("x") };
    assert_eq!(Client::clickhouse_result(ok).unwrap(), "x");
    let edge = HttpResponse { status: 299, status_line: s("299"), body: s("y") };
    assert_eq!(Client::metrics_result(edge).unwrap(), "y");
    let bad = HttpResponse { status: 404, status_line: s("404 Not Found"), body: s("nope") };
    let err = GrafanaClient::grafana_result(bad).unwrap_err();
    assert_eq!(
        err,
        CliError::RequestFailed { service: Service::Grafana, status: s("404 Not Found"), body: s("nope") }
    );
    assert_eq!(err.message(), "Grafana request failed (404 Not Found): nope");
    let redirect = HttpResponse { status: 300, status_line: s("300 Multiple Choices"), body: s("") };
    assert_eq!(
        Client::clickhouse_result(redirect).unwrap_err().message(),
        "ClickHouse query failed (300 Multiple Choices): "
    );
    let low = HttpResponse { status: 199, status_line: s("199"), body: s("b") };
    assert_eq!(Client::metrics_result(low).unwrap_err().message(), "Metrics query failed (199): b");
}

#[test]
fn error_messages() {
    assert_eq!(
        CliError::InvalidDuration { input: s("10w") }.message(),
        "Invalid duration format: 10w. Use format like 15m, 1h, 24h, 7d"
    );
    assert_eq!(CliError::InvalidNumber(IntErrorKind::Empty).message(), "cannot parse integer from empty string");
    assert_eq!(CliError::InvalidNumber(IntErrorKind::InvalidDigit).message(), "invalid digit found in string");
    assert_eq!(CliError::InvalidNumber(IntErrorKind::PosOverflow).message(), "number too large to fit in target type");
    assert_eq!(CliError::InvalidNumber(IntErrorKind::NegOverflow).message(), "number too small to fit in target type");
    assert_eq!(CliError::MissingApiKey.message(), "No API key configured. Run: groundcover-cli config --fetch");
    assert_eq!(
        CliError::MissingGrafanaToken.message(),
        "No Grafana token configured. Run: groundcover-cli config --fetch"
    );
    assert_eq!(
        CliError::ApiKeyNotFound { output: s("junk") }.message(),
        "Could not parse API key from groundcover output: junk"
    );
    assert_eq!(
        CliError::GrafanaTokenNotFound { output: s("junk") }.message(),
        "Could not parse Grafana token from groundcover output: junk"
    );
}
