use groundcover_cli::commands::clickhouse::metrics_lines;
use groundcover_cli::commands::grafana::parse_ruler_alerts;
use groundcover_cli::duration::{parse_duration, parse_i64_chars};
use groundcover_cli::helpers::{fetch_api_key, filter_by_title};
use groundcover_cli::json::Json;
use groundcover_cli::text::{chars_of, i64_decimal, truncate_bytes_chars};

fn st(x: &str) -> Json {
    Json::String(x.to_string())
}

fn obj(members: Vec<(&str, Json)>) -> Json {
    Json::Object(members.into_iter().map(|(k, v)| (k.to_string(), v)).collect())
}

#[test]
fn surrounding_whitespace_does_not_change_a_duration() {
    assert_eq!(parse_duration(" \t1h\u{3000}"), parse_duration("1h"));
    assert_eq!(parse_duration("\n10w "), parse_duration("10w"));
}

#[test]
fn cut_fields_stay_within_their_bytes() {
    for (text, n) in [("ab€cd", 5), ("ab€cd", 2), ("short", 40), ("€€€", 6)] {
        let cut: String = truncate_bytes_chars(&chars_of(text), n).iter().collect();
        assert!(text.starts_with(&cut));
        assert!(cut.len() <= n);
        if text.len() > n {
            assert_eq!(cut.len(), n);
        }
    }
}

#[test]
fn fetched_key_is_a_whole_trimmed_line() {
    let out = "warning: x\n   K3y  \n";
    let key = fetch_api_key(out).unwrap();
    assert!(out.lines().any(|l| l.trim() == key));
    assert!(key.chars().all(|c| c.is_ascii_alphanumeric()));
}

#[test]
fn title_filter_keeps_exactly_matches() {
    let items = vec![
        obj(vec![("title", st("Disk FULL"))]),
        obj(vec![("name", st("disk"))]),
        obj(vec![("title", st("cpu"))]),
        obj(vec![("title", st("full disk"))]),
    ];
    let kept = filter_by_title(&items, Some("DISK"));
    assert_eq!(kept, vec![&items[0], &items[3]]);
}

#[test]
fn alert_folders_come_from_the_answer() {
    let group = obj(vec![("rules", Json::Array(vec![obj(vec![]), obj(vec![])]))]);
    let answer = obj(vec![("a", Json::Array(vec![group])), ("b", Json::Array(vec![]))]);
    let alerts = parse_ruler_alerts(&answer);
    assert_eq!(alerts.len(), 2);
    for alert in &alerts {
        assert_eq!(alert.member_str("folder"), Some("a"));
    }
}

#[test]
fn a_series_takes_at_most_twelve_lines() {
    let values: Vec<Json> = (0..50).map(|i| Json::Array(vec![Json::Number(i.to_string()), st("1")])).collect();
    let series = obj(vec![("metric", obj(vec![])), ("values", Json::Array(values))]);
    let answer = obj(vec![("data", obj(vec![("result", Json::Array(vec![series]))]))]);
    assert_eq!(metrics_lines(&answer).unwrap().len(), 12);
}

#[test]
fn decimal_numbers_read_back() {
    for n in [0i64, 7, -7, 10, 1_000_000, i64::MAX, i64::MIN] {
        assert_eq!(parse_i64_chars(&i64_decimal(n)), Ok(n));
    }
}

#[test]
fn seconds_text_reads_back() {
    for n in [0i64, 42, -42, 9_223_372_036_854_775] {
        assert_eq!(parse_duration(&format!("{n}s")).unwrap().num_seconds(), n);
    }
}
