//! Shared helpers: reading credentials out of `groundcover` output, building
//! clients from the configuration, NULL display and title filtering.
use vstd::prelude::*;

use crate::client::{Client, GrafanaClient};
use crate::config::Config;
use crate::error::CliError;
use crate::json::{member_str, Json};
use crate::text::{
    append_str, chars_eq, chars_of, contains, contains_chars, lines, lines_chars, opt_view,
    opt_str_view, starts_with, starts_with_chars, string_of, to_lowercase, trim, trim_chars,
    unicode_lowercase,
};

verus! {

/// `c` is an ASCII letter or digit.
pub open spec fn is_ascii_alnum(c: char) -> bool {
    ||| '0' <= c <= '9'
    ||| 'A' <= c <= 'Z'
    ||| 'a' <= c <= 'z'
}

/// A trimmed line that can be an API key: not empty, letters and digits only.
pub open spec fn looks_like_api_key(t: Seq<char>) -> bool {
    t.len() > 0 && forall|i: int| 0 <= i < t.len() ==> is_ascii_alnum(#[trigger] t[i])
}

/// A trimmed line that holds a Grafana service account token.
pub open spec fn looks_like_grafana_token(t: Seq<char>) -> bool {
    starts_with(t, "glsa_"@)
}

/// A trimmed line that holds a Grafana token (`token`) or an API key.
pub open spec fn is_credential(token: bool, t: Seq<char>) -> bool {
    if token {
        looks_like_grafana_token(t)
    } else {
        looks_like_api_key(t)
    }
}

/// The trimmed text of the last line that, trimmed, holds the credential.
pub open spec fn last_credential(ls: Seq<Seq<char>>, token: bool) -> Option<Seq<char>>
    decreases ls.len(),
{
    if ls.len() == 0 {
        None
    } else if is_credential(token, trim(ls.last())) {
        Some(trim(ls.last()))
    } else {
        last_credential(ls.drop_last(), token)
    }
}

/// The API key in the output of `groundcover auth get-datasources-api-key`.
pub open spec fn api_key_in(output: Seq<char>) -> Option<Seq<char>> {
    last_credential(lines(output), false)
}

/// The token in the output of `groundcover auth generate-service-account-token`.
pub open spec fn grafana_token_in(output: Seq<char>) -> Option<Seq<char>> {
    last_credential(lines(output), true)
}

/// `s` shown with ClickHouse's NULL marker `\N` as a dash.
pub open spec fn null_shown(s: Seq<char>) -> Seq<char> {
    if s == "\\N"@ {
        "-"@
    } else {
        s
    }
}

/// The item's title, lowercased, contains `filter_lower`.
pub open spec fn title_matches(item: Json, filter_lower: Seq<char>) -> bool {
    match member_str(item, "title"@) {
        Some(t) => contains(unicode_lowercase(t), filter_lower),
        None => false,
    }
}

/// The values behind references.
pub open spec fn derefs(s: Seq<&Json>) -> Seq<Json> {
    s.map_values(|x: &Json| *x)
}

/// The items `filter_by_title` keeps: all of them without a filter, else those
/// whose title contains the filter, both lowercased.
pub open spec fn titled(items: Seq<Json>, filter: Option<Seq<char>>) -> Seq<Json> {
    match filter {
        None => items,
        Some(f) => items.filter(|j: Json| title_matches(j, unicode_lowercase(f))),
    }
}

pub proof fn lemma_derefs_push(s: Seq<&Json>, x: &Json)
    ensures
        derefs(s.push(x)) == derefs(s).push(*x),
{
    assert(derefs(s.push(x)) =~= derefs(s).push(*x));
}

/// Shows ClickHouse's NULL marker `\N` as `-`; other values as they are.
pub fn null_to_dash(s: &str) -> (r: &str)
    ensures
        r@ == null_shown(s@),
{
    let cs = chars_of(s);
    let marker = chars_of("\\N");
    if chars_eq(&cs, &marker) {
        "-"
    } else {
        s
    }
}

/// The trimmed text of the last line satisfying the key test (`token` false)
/// or the token test (`token` true).
fn last_credential_line(output: &str, token: bool) -> (r: Option<Vec<char>>)
    ensures
        token ==> match grafana_token_in(output@) {
            Some(k) => r matches Some(v) && v@ == k,
            None => r is None,
        },
        !token ==> match api_key_in(output@) {
            Some(k) => r matches Some(v) && v@ == k,
            None => r is None,
        },
{
    let all = chars_of(output);
    let ls = lines_chars(&all);
    let ghost spec_lines = lines(output@);
    let glsa = chars_of("glsa_");
    let mut j: usize = ls.len();
    assert(spec_lines.take(ls.len() as int) =~= spec_lines);
    while j > 0
        invariant
            j <= ls@.len() == spec_lines.len(),
            forall|k: int| 0 <= k < ls@.len() ==> #[trigger] ls@[k]@ == spec_lines[k],
            glsa@ == "glsa_"@,
            spec_lines == lines(output@),
            last_credential(spec_lines, token) == last_credential(
                spec_lines.take(j as int),
                token,
            ),
        decreases j,
    {
        let t = trim_chars(&ls[j - 1]);
        let ghost pre = spec_lines.take(j as int);
        assert(pre.last() == spec_lines[j - 1]);
        assert(pre.drop_last() =~= spec_lines.take(j - 1));
        let hit = if token {
            starts_with_chars(&t, &glsa)
        } else {
            let mut ok = t.len() > 0;
            let mut i: usize = 0;
            while i < t.len()
                invariant
                    i <= t.len(),
                    ok == (t@.len() > 0 && forall|k: int| 0 <= k < i ==> is_ascii_alnum(
                        #[trigger] t@[k],
                    )),
                decreases t.len() - i,
            {
                let c = t[i];
                if !(('0' <= c && c <= '9') || ('A' <= c && c <= 'Z') || ('a' <= c && c <= 'z')) {
                    ok = false;
                }
                i += 1;
            }
            ok
        };
        assert(hit == is_credential(token, trim(pre.last())));
        if hit {
            return Some(t);
        }
        j -= 1;
    }
    None
}

/// The API key in the output of `groundcover auth get-datasources-api-key`:
/// the last line that, trimmed, is a non-empty run of ASCII letters and digits.
pub fn fetch_api_key(output: &str) -> (r: Result<String, CliError>)
    ensures
        match api_key_in(output@) {
            Some(k) => r matches Ok(s) && s@ == k,
            None => r matches Err(CliError::ApiKeyNotFound { output: o }) && o@ == output@,
        },
{
    match last_credential_line(output, false) {
        Some(k) => Ok(string_of(&k)),
        None => Err(CliError::ApiKeyNotFound { output: String::from_str(output) }),
    }
}

/// The token in the output of `groundcover auth generate-service-account-token`:
/// the last line that, trimmed, starts with `glsa_`.
pub fn fetch_grafana_token(output: &str) -> (r: Result<String, CliError>)
    ensures
        match grafana_token_in(output@) {
            Some(k) => r matches Ok(s) && s@ == k,
            None => r matches Err(CliError::GrafanaTokenNotFound { output: o }) && o@ == output@,
        },
{
    match last_credential_line(output, true) {
        Some(k) => Ok(string_of(&k)),
        None => Err(CliError::GrafanaTokenNotFound { output: String::from_str(output) }),
    }
}

/// A datasource client for the configured API key.
pub fn build_client(config: &Config) -> (r: Result<Client, CliError>)
    ensures
        match opt_view(config.api_key) {
            Some(k) => r matches Ok(c) && c.key() == k,
            None => r == Err::<Client, CliError>(CliError::MissingApiKey),
        },
{
    match config.api_key() {
        Some(k) => Ok(Client::new(String::from_str(k))),
        None => Err(CliError::MissingApiKey),
    }
}

/// A Grafana client for the configured token.
pub fn build_grafana_client(config: &Config) -> (r: Result<GrafanaClient, CliError>)
    ensures
        match opt_view(config.grafana_token) {
            Some(t) => r matches Ok(c) && c.token() == t,
            None => r == Err::<GrafanaClient, CliError>(CliError::MissingGrafanaToken),
        },
{
    match config.grafana_token() {
        Some(t) => Ok(GrafanaClient::new(String::from_str(t))),
        None => Err(CliError::MissingGrafanaToken),
    }
}

/// A query asking ClickHouse for tab-separated rows.
pub fn tab_separated(sql: &str) -> (r: String)
    ensures
        r@ == sql@ + " FORMAT TabSeparated"@,
{
    let mut v = chars_of(sql);
    append_str(&mut v, " FORMAT TabSeparated");
    string_of(&v)
}

/// A lowercased title contains the lowercased filter.
pub fn title_contains(title_lower: &str, filter_lower: &str) -> (r: bool)
    ensures
        r == contains(title_lower@, filter_lower@),
{
    let t = chars_of(title_lower);
    let f = chars_of(filter_lower);
    contains_chars(&t, &f)
}

/// The items whose `title` contains `filter`, compared in lowercase; all items
/// when there is no filter. Order is kept.
pub fn filter_by_title<'a>(items: &'a [Json], filter: Option<&str>) -> (r: Vec<&'a Json>)
    ensures
        derefs(r@) == titled(items@, opt_str_view(filter)),
{
    let mut r: Vec<&'a Json> = Vec::new();
    let mut i: usize = 0;
    match filter {
        None => {
            while i < items.len()
                invariant
                    i <= items.len(),
                    derefs(r@) == items@.take(i as int),
                decreases items.len() - i,
            {
                proof {
                    lemma_derefs_push(r@, &items[i as int]);
                }
                r.push(&items[i]);
                i += 1;
                assert(derefs(r@) =~= items@.take(i as int));
            }
            assert(items@.take(items.len() as int) =~= items@);
        },
        Some(f) => {
            let fl = to_lowercase(f);
            let ghost pred = |j: Json| title_matches(j, unicode_lowercase(f@));
            while i < items.len()
                invariant
                    i <= items.len(),
                    fl@ == unicode_lowercase(f@),
                    pred == (|j: Json| title_matches(j, unicode_lowercase(f@))),
                    derefs(r@) == items@.take(i as int).filter(pred),
                decreases items.len() - i,
            {
                let item = &items[i];
                let keep = match item.member_str("title") {
                    Some(t) => {
                        let tl = to_lowercase(t);
                        title_contains(tl.as_str(), fl.as_str())
                    },
                    None => false,
                };
                assert(keep == pred(items@[i as int]));
                proof {
                    reveal_with_fuel(Seq::<_>::filter, 1);
                    assert(items@.take(i + 1).drop_last() =~= items@.take(i as int));
                    assert(items@.take(i + 1).last() == items@[i as int]);
                }
                proof {
                    lemma_derefs_push(r@, item);
                }
                if keep {
                    r.push(item);
                }
                i += 1;
                assert(derefs(r@) =~= items@.take(i as int).filter(pred));
            }
            assert(items@.take(items.len() as int) =~= items@);
        },
    }
    r
}

} // verus!
