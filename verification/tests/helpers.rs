use groundcover_cli::config::Config;
use groundcover_cli::duration::{parse_duration, Duration};
use groundcover_cli::helpers::{build_client, filter_by_title, null_to_dash};
use groundcover_cli::json::Json;

fn titled(key: &str, title: &str) -> Json {
    Json::Object(vec![(key.to_string(), Json::String(title.to_string()))])
}

#[test]
fn parse_duration_supports_seconds_minutes_hours_and_days() {
    assert_eq!(parse_duration("30s").unwrap(), Duration::seconds(30));
    assert_eq!(parse_duration("15m").unwrap(), Duration::minutes(15));
    assert_eq!(parse_duration("2h").unwrap(), Duration::hours(2));
    assert_eq!(parse_duration("7d").unwrap(), Duration::days(7));
}

#[test]
fn parse_duration_trims_input() {
    assert_eq!(parse_duration(" 1h ").unwrap(), Duration::hours(1));
}

#[test]
fn parse_duration_rejects_unknown_suffix() {
    let error = parse_duration("10w").unwrap_err().message();

    assert!(error.contains("Invalid duration format"));
}

#[test]
fn parse_duration_rejects_non_numeric_value() {
    assert!(parse_duration("manyh").is_err());
}

#[test]
fn null_to_dash_maps_clickhouse_null_marker() {
    assert_eq!(null_to_dash("\\N"), "-");
    assert_eq!(null_to_dash("value"), "value");
}

#[test]
fn build_client_requires_api_key() {
    let config = Config::default();

    let error = match build_client(&config) {
        Ok(_) => panic!("expected missing API key to fail"),
        Err(error) => error.message(),
    };

    assert!(error.contains("No API key configured"));
}

#[test]
fn build_client_uses_configured_api_key() {
    let config = Config {
        api_key: Some("api-key".to_string()),
        grafana_token: None,
    };

    assert!(build_client(&config).is_ok());
}

#[test]
fn filter_by_title_returns_all_items_without_filter() {
    let items = vec![titled("title", "Frontend"), titled("title", "Backend")];

    let filtered = filter_by_title(&items, None);

    assert_eq!(filtered.len(), 2);
}

#[test]
fn filter_by_title_matches_case_insensitively() {
    let items = vec![titled("title", "Frontend"), titled("title", "Backend")];

    let filtered = filter_by_title(&items, Some("front"));

    assert_eq!(filtered, vec![&items[0]]);
}

#[test]
fn filter_by_title_ignores_missing_titles() {
    let items = vec![titled("name", "Frontend"), titled("title", "Backend")];

    let filtered = filter_by_title(&items, Some("front"));

    assert!(filtered.is_empty());
}
