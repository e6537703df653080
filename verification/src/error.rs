//! The errors of the client and the messages they are reported with.
use vstd::prelude::*;

use crate::text::{append_str, string_of};

verus! {

/// Why a decimal integer could not be read (the kinds of `ParseIntError`).
#[derive(Debug, Clone, Copy, PartialEq, Eq, Structural)]
pub enum IntErrorKind {
    Empty,
    InvalidDigit,
    PosOverflow,
    NegOverflow,
}

/// The service an HTTP request went to.
#[derive(Debug, Clone, Copy, PartialEq, Eq, Structural)]
pub enum Service {
    ClickHouse,
    Metrics,
    Grafana,
}

/// Everything the client reports as a failure.
#[derive(Debug, PartialEq, Eq)]
pub enum CliError {
    /// A duration without one of the suffixes `s`, `m`, `h`, `d` (the trimmed input).
    InvalidDuration { input: String },
    /// The number in a duration is not a valid `i64`.
    InvalidNumber(IntErrorKind),
    /// `logs -g` was asked for a window longer than a day (the `--since` text).
    GrepWindowTooLarge { since: String },
    /// The configuration holds no API key.
    MissingApiKey,
    /// The configuration holds no Grafana token.
    MissingGrafanaToken,
    /// No line of the `groundcover` output looks like an API key.
    ApiKeyNotFound { output: String },
    /// No line of the `groundcover` output holds a Grafana token.
    GrafanaTokenNotFound { output: String },
    /// A service answered with a status outside 200..=299.
    RequestFailed { service: Service, status: String, body: String },
}

/// The text of `ParseIntError` for each kind.
pub open spec fn int_error_text(k: IntErrorKind) -> Seq<char> {
    match k {
        IntErrorKind::Empty => "cannot parse integer from empty string"@,
        IntErrorKind::InvalidDigit => "invalid digit found in string"@,
        IntErrorKind::PosOverflow => "number too large to fit in target type"@,
        IntErrorKind::NegOverflow => "number too small to fit in target type"@,
    }
}

/// How a failed request names its service.
pub open spec fn service_text(s: Service) -> Seq<char> {
    match s {
        Service::ClickHouse => "ClickHouse query failed ("@,
        Service::Metrics => "Metrics query failed ("@,
        Service::Grafana => "Grafana request failed ("@,
    }
}

/// The message an error is shown with.
pub open spec fn error_text(e: CliError) -> Seq<char> {
    match e {
        CliError::InvalidDuration { input } => "Invalid duration format: "@ + input@
            + ". Use format like 15m, 1h, 24h, 7d"@,
        CliError::InvalidNumber(k) => int_error_text(k),
        CliError::GrepWindowTooLarge { since } => "--since "@ + since@
            + " too large for -g (max 24h): ClickHouse times out on body LIKE scans beyond ~36h. Narrow the window or add -w/--workload to use an indexed filter."@,
        CliError::MissingApiKey => "No API key configured. Run: groundcover-cli config --fetch"@,
        CliError::MissingGrafanaToken => "No Grafana token configured. Run: groundcover-cli config --fetch"@,
        CliError::ApiKeyNotFound { output } => "Could not parse API key from groundcover output: "@
            + output@,
        CliError::GrafanaTokenNotFound { output } =>
            "Could not parse Grafana token from groundcover output: "@ + output@,
        CliError::RequestFailed { service, status, body } => service_text(service) + status@
            + "): "@ + body@,
    }
}

/// The text of `ParseIntError` for `k`.
pub fn int_error_message(k: IntErrorKind) -> (r: String)
    ensures
        r@ == int_error_text(k),
{
    let mut v: Vec<char> = Vec::new();
    match k {
        IntErrorKind::Empty => append_str(&mut v, "cannot parse integer from empty string"),
        IntErrorKind::InvalidDigit => append_str(&mut v, "invalid digit found in string"),
        IntErrorKind::PosOverflow => append_str(&mut v, "number too large to fit in target type"),
        IntErrorKind::NegOverflow => append_str(&mut v, "number too small to fit in target type"),
    }
    assert(v@ =~= int_error_text(k));
    string_of(&v)
}

impl CliError {
    /// The message this error is shown with.
    pub fn message(&self) -> (r: String)
        ensures
            r@ == error_text(*self),
    {
        let mut v: Vec<char> = Vec::new();
        match self {
            CliError::InvalidDuration { input } => {
                append_str(&mut v, "Invalid duration format: ");
                append_str(&mut v, input.as_str());
                append_str(&mut v, ". Use format like 15m, 1h, 24h, 7d");
            },
            CliError::InvalidNumber(k) => {
                let m = int_error_message(*k);
                append_str(&mut v, m.as_str());
            },
            CliError::GrepWindowTooLarge { since } => {
                append_str(&mut v, "--since ");
                append_str(&mut v, since.as_str());
                append_str(
                    &mut v,
                    " too large for -g (max 24h): ClickHouse times out on body LIKE scans beyond ~36h. Narrow the window or add -w/--workload to use an indexed filter.",
                );
            },
            CliError::MissingApiKey => {
                append_str(&mut v, "No API key configured. Run: groundcover-cli config --fetch");
            },
            CliError::MissingGrafanaToken => {
                append_str(
                    &mut v,
                    "No Grafana token configured. Run: groundcover-cli config --fetch",
                );
            },
            CliError::ApiKeyNotFound { output } => {
                append_str(&mut v, "Could not parse API key from groundcover output: ");
                append_str(&mut v, output.as_str());
            },
            CliError::GrafanaTokenNotFound { output } => {
                append_str(&mut v, "Could not parse Grafana token from groundcover output: ");
                append_str(&mut v, output.as_str());
            },
            CliError::RequestFailed { service, status, body } => {
                match service {
                    Service::ClickHouse => append_str(&mut v, "ClickHouse query failed ("),
                    Service::Metrics => append_str(&mut v, "Metrics query failed ("),
                    Service::Grafana => append_str(&mut v, "Grafana request failed ("),
                }
                append_str(&mut v, status.as_str());
                append_str(&mut v, "): ");
                append_str(&mut v, body.as_str());
            },
        }
        assert(v@ =~= error_text(*self));
        string_of(&v)
    }
}

} // verus!
