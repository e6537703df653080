use groundcover_cli::config::{mask, Config};
use groundcover_cli::duration::{duration_fits_text, parse_duration, parse_i64_chars, Duration};
use groundcover_cli::error::{CliError, IntErrorKind};
use groundcover_cli::helpers::{build_grafana_client, fetch_api_key, fetch_grafana_token, title_contains};
use groundcover_cli::text::{chars_of, lines_chars, split_chars, trim_chars, truncate_bytes_chars};

fn s(x: &str) -> String {
    x.to_string()
}

fn parse(x: &str) -> Result<i64, IntErrorKind> {
    parse_i64_chars(&x.chars().collect::<Vec<char>>())
}

#[test]
fn integers_are_read_like_i64_from_str() {
    assert_eq!(parse("0"), Ok(0));
    assert_eq!(parse("+42"), Ok(42));
    assert_eq!(parse("-42"), Ok(-42));
    assert_eq!(parse("9223372036854775807"), Ok(i64::MAX));
    assert_eq!(parse("-9223372036854775808"), Ok(i64::MIN));
    assert_eq!(parse(""), Err(IntErrorKind::Empty));
    assert_eq!(parse("+"), Err(IntErrorKind::InvalidDigit));
    assert_eq!(parse("-"), Err(IntErrorKind::InvalidDigit));
    assert_eq!(parse("1 2"), Err(IntErrorKind::InvalidDigit));
    assert_eq!(parse("9223372036854775808"), Err(IntErrorKind::PosOverflow));
    assert_eq!(parse("-9223372036854775809"), Err(IntErrorKind::NegOverflow));
    assert_eq!(parse("99999999999999999999x"), Err(IntErrorKind::PosOverflow));
    for x in ["7", "-0", "+00012", "abc", "1_000", "٣"] {
        assert_eq!(parse(x).ok(), x.parse::<i64>().ok(), "{x}");
    }
}

#[test]
fn durations_by_suffix() {
    assert_eq!(parse_duration("0s").unwrap(), Duration::seconds(0));
    assert_eq!(parse_duration("15mm").unwrap(), Duration::minutes(15));
    assert_eq!(parse_duration("-3h").unwrap().num_seconds(), -10800);
    assert_eq!(parse_duration("\t2d\n").unwrap().num_hours(), 48);
    assert_eq!(parse_duration("90m").unwrap().num_hours(), 1);
    assert_eq!(parse_duration("-90m").unwrap().num_hours(), -1);
}

#[test]
fn duration_errors_name_the_problem() {
    assert_eq!(parse_duration("  10w ").unwrap_err(), CliError::InvalidDuration { input: s("10w") });
    assert_eq!(parse_duration("").unwrap_err(), CliError::InvalidDuration { input: s("") });
    assert_eq!(parse_duration("m").unwrap_err(), CliError::InvalidNumber(IntErrorKind::Empty));
    assert_eq!(parse_duration("manyh").unwrap_err(), CliError::InvalidNumber(IntErrorKind::InvalidDigit));
    assert_eq!(parse_duration("1mh").unwrap_err(), CliError::InvalidNumber(IntErrorKind::InvalidDigit));
    assert_eq!(
        parse_duration("99999999999999999999s").unwrap_err().message(),
        "number too large to fit in target type"
    );
}

#[test]
fn duration_limits() {
    assert!(duration_fits_text("9223372036854775s"));
    assert!(!duration_fits_text("9223372036854776s"));
    assert!(duration_fits_text("-9223372036854775s"));
    assert!(!duration_fits_text("153722867280913m"));
    assert!(duration_fits_text("153722867280912m"));
    assert!(duration_fits_text("nonsense"));
    assert!(duration_fits_text("99999999999999999999s"));
}

#[test]
fn api_key_is_the_last_alphanumeric_line() {
    let out = "Fetching key...\n  abcDEF123  \nDone!\n\n";
    assert_eq!(fetch_api_key(out).unwrap(), "abcDEF123");
    let out2 = "key1\r\nkey2\r\n";
    assert_eq!(fetch_api_key(out2).unwrap(), "key2");
    let err = fetch_api_key("no key here!\n").unwrap_err();
    assert_eq!(err, CliError::ApiKeyNotFound { output: s("no key here!\n") });
    assert!(fetch_api_key("").is_err());
}

#[test]
fn grafana_token_is_the_last_glsa_line() {
    let out = "glsa_first\n  glsa_second_token \nother\n";
    assert_eq!(fetch_grafana_token(out).unwrap(), "glsa_second_token");
    assert_eq!(
        fetch_grafana_token("token: glsa_x").unwrap_err(),
        CliError::GrafanaTokenNotFound { output: s("token: glsa_x") }
    );
}

#[test]
fn grafana_client_needs_a_token() {
    let none = Config::default();
    assert_eq!(build_grafana_client(&none).unwrap_err(), CliError::MissingGrafanaToken);
    let some = Config { api_key: None, grafana_token: Some(s("glsa_t")) };
    assert_eq!(build_grafana_client(&some).unwrap().list_datasources().headers[0].1, "Bearer glsa_t");
}

#[test]
fn config_accessors_and_summary() {
    let c = Config { api_key: Some(s("abcdefghijklmnop")), grafana_token: None };
    assert_eq!(c.get_api_key(), Some("abcdefghijklmnop"));
    assert_eq!(c.api_key(), Some("abcdefghijklmnop"));
    assert_eq!(c.grafana_token(), None);
    assert_eq!(
        c.summary(),
        vec![s("Current configuration:"), s("  api_key: abcdefghijkl..."), s("  grafana_token: (not set)")]
    );
    let short = Config { api_key: Some(s("ab")), grafana_token: Some(s("glsa_0123456789abcdefXYZ")) };
    assert_eq!(
        short.summary(),
        vec![s("Current configuration:"), s("  api_key: ab..."), s("  grafana_token: glsa_0123456789abcde...")]
    );
    assert_eq!(mask("héllo", 3), "hé...");
}

#[test]
fn text_helpers() {
    assert_eq!(trim_chars(&chars_of("\u{3000} a b \u{85}")), chars_of("a b"));
    let ls: Vec<String> = lines_chars(&chars_of("a\r\nb\n\nc\r")).iter().map(|l| l.iter().collect()).collect();
    assert_eq!(ls, vec![s("a"), s("b"), s(""), s("c\r")]);
    assert!(lines_chars(&chars_of("")).is_empty());
    let parts: Vec<String> = split_chars(&chars_of("a\t\tb"), '\t').iter().map(|l| l.iter().collect()).collect();
    assert_eq!(parts, vec![s("a"), s(""), s("b")]);
    let cut: String = truncate_bytes_chars(&chars_of("aé"), 3).iter().collect();
    assert_eq!(cut, "aé");
    let cut2: String = truncate_bytes_chars(&chars_of("abcdef"), 4).iter().collect();
    assert_eq!(cut2, "abcd");
    assert!(title_contains("frontend", "front"));
    assert!(!title_contains("backend", "front"));
    assert!(title_contains("x", ""));
}
