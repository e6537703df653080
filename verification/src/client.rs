//! The HTTP requests sent to the Groundcover datasources and to Grafana, and
//! how their answers are judged.
use vstd::prelude::*;
use vstd::utf8::encode_utf8;

use crate::error::{CliError, Service};
use crate::text::{
    append_str, chars_of, contains, contains_chars, decimal, i64_decimal, string_of,
    to_uppercase, unicode_uppercase,
};

verus! {

/// The HTTP method of a request.
#[derive(Debug, Clone, Copy, PartialEq, Eq, Structural)]
pub enum Method {
    Get,
    Post,
}

/// A request for the HTTP layer to send: the query pairs are added to the
/// URL form-encoded, the headers as given.
#[derive(Debug)]
pub struct HttpRequest {
    pub method: Method,
    pub url: String,
    pub headers: Vec<(String, String)>,
    pub query: Vec<(String, String)>,
    pub body: Option<String>,
}

/// What came back: the status code, the status as displayed (`404 Not Found`),
/// and the body text.
#[derive(Debug)]
pub struct HttpResponse {
    pub status: u16,
    pub status_line: String,
    pub body: String,
}

/// The texts of name/value pairs.
pub open spec fn pair_views(v: Seq<(String, String)>) -> Seq<(Seq<char>, Seq<char>)> {
    v.map_values(|p: (String, String)| (p.0@, p.1@))
}

/// `r` is the request with these parts.
pub open spec fn request_is(
    r: HttpRequest,
    method: Method,
    url: Seq<char>,
    headers: Seq<(Seq<char>, Seq<char>)>,
    query: Seq<(Seq<char>, Seq<char>)>,
    body: Option<Seq<char>>,
) -> bool {
    &&& r.method == method
    &&& r.url@ == url
    &&& pair_views(r.headers@) == headers
    &&& pair_views(r.query@) == query
    &&& match body {
        Some(b) => r.body matches Some(x) && x@ == b,
        None => r.body is None,
    }
}

/// Where the datasource API lives.
pub open spec fn datasource_base_url() -> Seq<char> {
    "https://ds.groundcover.com"@
}

/// Where the Grafana API lives.
pub open spec fn grafana_base_url() -> Seq<char> {
    "https://app.groundcover.com/grafana"@
}

/// A status in `200..=299`.
pub open spec fn is_success(status: u16) -> bool {
    200 <= status <= 299
}

/// A ClickHouse query asking for JSON: left as it is when its uppercase form
/// (`upper`) already names a format, else with ` FORMAT JSON` appended.
pub open spec fn json_sql(sql: Seq<char>, upper: Seq<char>) -> Seq<char> {
    if contains(upper, "FORMAT "@) {
        sql
    } else {
        sql + " FORMAT JSON"@
    }
}

/// A byte that URL encoding leaves as it is: ASCII letters, digits, `-._~`.
pub open spec fn is_unreserved(b: u8) -> bool {
    ||| 48 <= b <= 57
    ||| 65 <= b <= 90
    ||| 97 <= b <= 122
    ||| b == 45
    ||| b == 46
    ||| b == 95
    ||| b == 126
}

/// The uppercase hexadecimal digit for `d` (0 to 15).
pub open spec fn hex_digit(d: u8) -> char {
    (if d < 10 { 48 + d } else { 55 + d }) as char
}

/// Percent-encoding of bytes: unreserved bytes kept, every other byte as `%XX`.
pub open spec fn percent_encode(bytes: Seq<u8>) -> Seq<char>
    decreases bytes.len(),
{
    if bytes.len() == 0 {
        seq![]
    } else {
        let b = bytes[0];
        (if is_unreserved(b) {
            seq![b as char]
        } else {
            seq!['%', hex_digit(b >> 4), hex_digit(b & 15)]
        }) + percent_encode(bytes.drop_first())
    }
}

/// `urlencoding::encode`: trusted to percent-encode each UTF-8 byte of `s`
/// except ASCII letters, digits and `-`, `.`, `_`, `~`, with uppercase hex.
#[verifier::external_body]
fn url_encode(s: &str) -> (r: String)
    ensures
        r@ == percent_encode(encode_utf8(s@)),
{
    urlencoding::encode(s).into_owned()
}

/// The text of a name/value pair.
fn pair(name: &str, value: &str) -> (r: (String, String))
    ensures
        r.0@ == name@,
        r.1@ == value@,
{
    (String::from_str(name), String::from_str(value))
}

/// A query asking ClickHouse for JSON, given the query's uppercase form.
pub fn json_format_sql(sql: &str, upper: &str) -> (r: String)
    ensures
        r@ == json_sql(sql@, upper@),
{
    let u = chars_of(upper);
    let marker = chars_of("FORMAT ");
    let mut v = chars_of(sql);
    if !contains_chars(&u, &marker) {
        append_str(&mut v, " FORMAT JSON");
    }
    string_of(&v)
}

/// A query asking ClickHouse for JSON, unless it names a format already
/// (checked on its Unicode uppercase form).
pub fn with_json_format(sql: &str) -> (r: String)
    ensures
        r@ == json_sql(sql@, unicode_uppercase(sql@)),
{
    let upper = to_uppercase(sql);
    json_format_sql(sql, upper.as_str())
}

/// The body of a successful answer, or the error for the service.
pub fn check_response(service: Service, response: HttpResponse) -> (r: Result<String, CliError>)
    ensures
        is_success(response.status) ==> r == Ok::<String, CliError>(response.body),
        !is_success(response.status) ==> r == Err::<String, CliError>(
            CliError::RequestFailed {
                service,
                status: response.status_line,
                body: response.body,
            },
        ),
{
    if 200 <= response.status && response.status <= 299 {
        Ok(response.body)
    } else {
        Err(CliError::RequestFailed {
            service,
            status: response.status_line,
            body: response.body,
        })
    }
}

/// The datasource API client: holds the API key.
#[derive(Debug)]
pub struct Client {
    api_key: String,
}

/// The Grafana API client: holds the service account token.
#[derive(Debug)]
pub struct GrafanaClient {
    token: String,
}

impl Client {
    /// The API key requests are sent with.
    pub closed spec fn key(&self) -> Seq<char> {
        self.api_key@
    }

    /// A client that sends `api_key`.
    pub fn new(api_key: String) -> (r: Client)
        ensures
            r.key() == api_key@,
    {
        Client { api_key }
    }

    /// The request that runs `sql` on ClickHouse: a POST of the query to the
    /// datasource URL with the key in `X-ClickHouse-Key`.
    pub fn query_clickhouse(&self, sql: &str) -> (r: HttpRequest)
        ensures
            request_is(
                r,
                Method::Post,
                datasource_base_url(),
                seq![("X-ClickHouse-Key"@, self.key())],
                seq![],
                Some(sql@),
            ),
    {
        let mut headers: Vec<(String, String)> = Vec::new();
        headers.push(pair("X-ClickHouse-Key", self.api_key.as_str()));
        let r = HttpRequest {
            method: Method::Post,
            url: String::from_str("https://ds.groundcover.com"),
            headers,
            query: Vec::new(),
            body: Some(String::from_str(sql)),
        };
        assert(pair_views(r.headers@) =~= seq![("X-ClickHouse-Key"@, self.key())]);
        assert(pair_views(r.query@) =~= seq![]);
        r
    }

    /// The request that runs `sql` on ClickHouse asking for JSON (see
    /// `with_json_format`).
    pub fn query_clickhouse_json(&self, sql: &str) -> (r: HttpRequest)
        ensures
            request_is(
                r,
                Method::Post,
                datasource_base_url(),
                seq![("X-ClickHouse-Key"@, self.key())],
                seq![],
                Some(json_sql(sql@, unicode_uppercase(sql@))),
            ),
    {
        let q = with_json_format(sql);
        self.query_clickhouse(q.as_str())
    }

    /// The PromQL range query on VictoriaMetrics from `start` to `end` (Unix
    /// seconds), at `step` (60s when not given), with the key in `apikey`.
    pub fn query_metrics(&self, query: &str, start: i64, end: i64, step: Option<&str>) -> (r:
        HttpRequest)
        ensures
            request_is(
                r,
                Method::Get,
                datasource_base_url() + "/datasources/prometheus/api/v1/query_range"@,
                seq![("apikey"@, self.key())],
                seq![
                    ("query"@, query@),
                    ("start"@, decimal(start as int)),
                    ("end"@, decimal(end as int)),
                    ("step"@, match step {
                        Some(s) => s@,
                        None => "60s"@,
                    }),
                ],
                None,
            ),
    {
        let step_text = match step {
            Some(s) => s,
            None => "60s",
        };
        let mut url = chars_of("https://ds.groundcover.com");
        append_str(&mut url, "/datasources/prometheus/api/v1/query_range");
        let mut headers: Vec<(String, String)> = Vec::new();
        headers.push(pair("apikey", self.api_key.as_str()));
        let mut params: Vec<(String, String)> = Vec::new();
        params.push(pair("query", query));
        params.push((String::from_str("start"), string_of(&i64_decimal(start))));
        params.push((String::from_str("end"), string_of(&i64_decimal(end))));
        params.push(pair("step", step_text));
        let r = HttpRequest {
            method: Method::Get,
            url: string_of(&url),
            headers,
            query: params,
            body: None,
        };
        assert(pair_views(r.headers@) =~= seq![("apikey"@, self.key())]);
        assert(pair_views(r.query@) =~= seq![
            ("query"@, query@),
            ("start"@, decimal(start as int)),
            ("end"@, decimal(end as int)),
            ("step"@, match step {
                Some(s) => s@,
                None => "60s"@,
            }),
        ]);
        r
    }

    /// The text of a ClickHouse answer, or the error when it failed.
    pub fn clickhouse_result(response: HttpResponse) -> (r: Result<String, CliError>)
        ensures
            is_success(response.status) ==> r == Ok::<String, CliError>(response.body),
            !is_success(response.status) ==> r == Err::<String, CliError>(
                CliError::RequestFailed {
                    service: Service::ClickHouse,
                    status: response.status_line,
                    body: response.body,
                },
            ),
    {
        check_response(Service::ClickHouse, response)
    }

    /// The text of a metrics answer, or the error when it failed.
    pub fn metrics_result(response: HttpResponse) -> (r: Result<String, CliError>)
        ensures
            is_success(response.status) ==> r == Ok::<String, CliError>(response.body),
            !is_success(response.status) ==> r == Err::<String, CliError>(
                CliError::RequestFailed {
                    service: Service::Metrics,
                    status: response.status_line,
                    body: response.body,
                },
            ),
    {
        check_response(Service::Metrics, response)
    }
}

impl GrafanaClient {
    /// The token requests are sent with.
    pub closed spec fn token(&self) -> Seq<char> {
        self.token@
    }

    /// A client that sends `token`.
    pub fn new(token: String) -> (r: GrafanaClient)
        ensures
            r.token() == token@,
    {
        GrafanaClient { token }
    }

    /// The GET of `path` under the Grafana URL, with the token as a bearer.
    pub open spec fn get_request(&self, r: HttpRequest, path: Seq<char>) -> bool {
        request_is(
            r,
            Method::Get,
            grafana_base_url() + path,
            seq![("Authorization"@, "Bearer "@ + self.token())],
            seq![],
            None,
        )
    }

    /// The GET of `path` under the Grafana URL, with the token as a bearer.
    pub fn get(&self, path: &str) -> (r: HttpRequest)
        ensures
            self.get_request(r, path@),
    {
        let mut url = chars_of("https://app.groundcover.com/grafana");
        append_str(&mut url, path);
        let mut auth = chars_of("Bearer ");
        append_str(&mut auth, self.token.as_str());
        let mut headers: Vec<(String, String)> = Vec::new();
        headers.push((String::from_str("Authorization"), string_of(&auth)));
        let r = HttpRequest {
            method: Method::Get,
            url: string_of(&url),
            headers,
            query: Vec::new(),
            body: None,
        };
        assert(pair_views(r.headers@) =~= seq![("Authorization"@, "Bearer "@ + self.token())]);
        assert(pair_views(r.query@) =~= seq![]);
        r
    }

    /// The request listing the datasources.
    pub fn list_datasources(&self) -> (r: HttpRequest)
        ensures
            self.get_request(r, "/api/datasources"@),
    {
        self.get("/api/datasources")
    }

    /// The request for the datasource with this UID.
    pub fn get_datasource(&self, uid: &str) -> (r: HttpRequest)
        ensures
            self.get_request(r, "/api/datasources/uid/"@ + uid@),
    {
        let mut path = chars_of("/api/datasources/uid/");
        append_str(&mut path, uid);
        let p = string_of(&path);
        self.get(p.as_str())
    }

    /// The request listing the dashboards.
    pub fn list_dashboards(&self) -> (r: HttpRequest)
        ensures
            self.get_request(r, "/api/search?type=dash-db"@),
    {
        self.get("/api/search?type=dash-db")
    }

    /// The request searching the dashboards for `query` (URL-encoded).
    pub fn search_dashboards(&self, query: &str) -> (r: HttpRequest)
        ensures
            self.get_request(
                r,
                "/api/search?type=dash-db&query="@ + percent_encode(encode_utf8(query@)),
            ),
    {
        let mut path = chars_of("/api/search?type=dash-db&query=");
        let encoded = url_encode(query);
        append_str(&mut path, encoded.as_str());
        let p = string_of(&path);
        self.get(p.as_str())
    }

    /// The request listing the provisioned alert rules.
    pub fn list_alert_rules(&self) -> (r: HttpRequest)
        ensures
            self.get_request(r, "/api/v1/provisioning/alert-rules"@),
    {
        self.get("/api/v1/provisioning/alert-rules")
    }

    /// The request for the Ruler API's rules (with state and expressions).
    pub fn get_ruler_rules(&self) -> (r: HttpRequest)
        ensures
            self.get_request(r, "/api/ruler/grafana/api/v1/rules"@),
    {
        self.get("/api/ruler/grafana/api/v1/rules")
    }

    /// The text of a Grafana answer, or the error when it failed.
    pub fn grafana_result(response: HttpResponse) -> (r: Result<String, CliError>)
        ensures
            is_success(response.status) ==> r == Ok::<String, CliError>(response.body),
            !is_success(response.status) ==> r == Err::<String, CliError>(
                CliError::RequestFailed {
                    service: Service::Grafana,
                    status: response.status_line,
                    body: response.body,
                },
            ),
    {
        check_response(Service::Grafana, response)
    }
}

} // verus!
