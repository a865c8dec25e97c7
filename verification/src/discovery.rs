use vstd::prelude::*;

use crate::display::{entries_view, ev, push_entry, push_heading, push_kv, push_text, Entry, EntryView, Line, LineView};
use crate::error::{Error, ErrorView};
use crate::text::{join_strings, join_with, nat_to_decimal, push_str, str_eq, string_from_str, u64_to_decimal};

verus! {

// ---------------------------------------------------------------------------
// Parsed URLs
// ---------------------------------------------------------------------------

/// The parts of a parsed URL that the library reads.
pub struct UrlParts {
    /// The scheme, in lower case.
    pub scheme: String,
    /// The host, as text.
    pub host: Option<String>,
    /// The port, where the URL gives one other than the scheme's default.
    pub port: Option<u16>,
    /// The decoded `key=value` pairs of the query, in order.
    pub query: Vec<(String, String)>,
}

/// The mathematical value of [`UrlParts`].
pub struct UrlPartsView {
    pub scheme: Seq<char>,
    pub host: Option<Seq<char>>,
    pub port: Option<u16>,
    pub query: Seq<(Seq<char>, Seq<char>)>,
}

impl View for UrlParts {
    type V = UrlPartsView;

    open spec fn view(&self) -> UrlPartsView {
        UrlPartsView {
            scheme: self.scheme@,
            host: match self.host {
                Some(h) => Some(h@),
                None => None,
            },
            port: self.port,
            query: self.query@.map_values(|p: (String, String)| (p.0@, p.1@)),
        }
    }
}

/// The mathematical value of the outcome of parsing a URL.
pub open spec fn url_result_view(r: Result<UrlParts, String>) -> Result<UrlPartsView, Seq<char>> {
    match r {
        Ok(u) => Ok(u@),
        Err(e) => Err(e@),
    }
}

/// What the `url` crate makes of a text: the parts of the URL, or the
/// message its parse error is displayed with.
pub uninterp spec fn url_parse(input: Seq<char>) -> Result<UrlPartsView, Seq<char>>;

/// Parses `input` with `url::Url::parse` and reads its scheme, host, port
/// and query pairs. The contract claims only that the outcome is a
/// function of the text.
#[verifier::external_body]
fn parse_url(input: &str) -> (r: Result<UrlParts, String>)
    ensures
        url_result_view(r) == url_parse(input@),
{
    match url::Url::parse(input) {
        Ok(u) => Ok(UrlParts {
            scheme: u.scheme().to_string(),
            host: u.host_str().map(|h| h.to_string()),
            port: u.port(),
            query: u.query_pairs().map(|(k, v)| (k.into_owned(), v.into_owned())).collect(),
        }),
        Err(e) => Err(e.to_string()),
    }
}

// ---------------------------------------------------------------------------
// The authorization base URL
// ---------------------------------------------------------------------------

/// `:` and the port, where there is one.
pub open spec fn port_suffix(port: Option<u16>) -> Seq<char> {
    match port {
        Some(p) => seq![':'] + nat_to_decimal(p as nat),
        None => Seq::empty(),
    }
}

/// The authorization base URL of a parsed server URL: its scheme, host and
/// port, without path or query.
pub open spec fn base_url_spec(parsed: Result<UrlPartsView, Seq<char>>) -> Result<Seq<char>, ErrorView> {
    match parsed {
        Err(e) => Err(ErrorView::Format("Invalid server URL: "@ + e)),
        Ok(u) => match u.host {
            None => Err(ErrorView::Format("Server URL must have a host"@)),
            Some(h) => Ok(u.scheme + "://"@ + h + port_suffix(u.port)),
        },
    }
}

/// The mathematical value of a `Result<String, Error>`.
pub open spec fn string_result_view(r: Result<String, Error>) -> Result<Seq<char>, ErrorView> {
    match r {
        Ok(s) => Ok(s@),
        Err(e) => Err(e@),
    }
}

/// The authorization base URL, given how the server URL parsed.
pub fn base_url_from_parts(parsed: Result<UrlParts, String>) -> (r: Result<String, Error>)
    ensures
        string_result_view(r) == base_url_spec(url_result_view(parsed)),
{
    match parsed {
        Err(e) => {
            let mut m = string_from_str("Invalid server URL: ");
            push_str(&mut m, e.as_str());
            Err(Error::Format(m))
        },
        Ok(u) => match u.host {
            None => Err(Error::Format(string_from_str("Server URL must have a host"))),
            Some(h) => {
                let mut s = string_from_str(u.scheme.as_str());
                push_str(&mut s, "://");
                push_str(&mut s, h.as_str());
                match u.port {
                    Some(p) => {
                        push_str(&mut s, ":");
                        let d = u64_to_decimal(p as u64);
                        push_str(&mut s, d.as_str());
                        proof {
                            reveal_strlit(":");
                        }
                    },
                    None => {},
                }
                assert(s@ =~= u@.scheme + "://"@ + h@ + port_suffix(u.port));
                Ok(s)
            },
        },
    }
}

/// Extracts the authorization base URL from an MCP server URL: per the MCP
/// specification, the server URL without any path.
pub fn get_authorization_base_url(server_url: &str) -> (r: Result<String, Error>)
    ensures
        string_result_view(r) == base_url_spec(url_parse(server_url@)),
{
    base_url_from_parts(parse_url(server_url))
}

/// The authorization base URL depends on the server URL's scheme, host and
/// port alone: two server URLs that differ only in path, query or fragment
/// give the same base URL.
pub proof fn lemma_base_url_ignores_path(a: Seq<char>, b: Seq<char>)
    requires
        url_parse(a) is Ok,
        url_parse(b) is Ok,
        url_parse(a)->Ok_0.scheme == url_parse(b)->Ok_0.scheme,
        url_parse(a)->Ok_0.host == url_parse(b)->Ok_0.host,
        url_parse(a)->Ok_0.port == url_parse(b)->Ok_0.port,
    ensures
        base_url_spec(url_parse(a)) == base_url_spec(url_parse(b)),
{
}

// ---------------------------------------------------------------------------
// The OAuth callback
// ---------------------------------------------------------------------------

/// The value of the last pair with key `key`.
pub open spec fn last_value(pairs: Seq<(Seq<char>, Seq<char>)>, key: Seq<char>) -> Option<Seq<char>>
    decreases pairs.len(),
{
    if pairs.len() == 0 {
        None
    } else if pairs.last().0 == key {
        Some(pairs.last().1)
    } else {
        last_value(pairs.drop_last(), key)
    }
}

/// Whether the state returned by the server is the one that was sent.
pub open spec fn state_check_spec(state: Seq<char>, expected: Seq<char>) -> Result<(), ErrorView> {
    if state == expected {
        Ok(())
    } else {
        Err(ErrorView::Other("State parameter mismatch - possible CSRF attack"@))
    }
}

/// The mathematical value of a `Result<(), Error>`.
pub open spec fn unit_view(r: Result<(), Error>) -> Result<(), ErrorView> {
    match r {
        Ok(()) => Ok(()),
        Err(e) => Err(e@),
    }
}

/// Checks the state returned by the server against the one that was sent,
/// against request forgery.
pub fn check_state(state: &str, expected: &str) -> (r: Result<(), Error>)
    ensures
        unit_view(r) == state_check_spec(state@, expected@),
{
    if str_eq(state, expected) {
        Ok(())
    } else {
        Err(Error::Other(string_from_str("State parameter mismatch - possible CSRF attack")))
    }
}

/// The authorization code in the query of a callback URL: an error the
/// server reported comes first, then the code and state must both be there
/// and the state must be the expected one. Where a key repeats, its last
/// value counts.
pub open spec fn callback_spec(pairs: Seq<(Seq<char>, Seq<char>)>, expected: Seq<char>) -> Result<
    Seq<char>,
    ErrorView,
> {
    match last_value(pairs, "error"@) {
        Some(e) => Err(
            ErrorView::Other(
                "OAuth authorization failed: "@ + e + " - "@ + match last_value(
                    pairs,
                    "error_description"@,
                ) {
                    Some(d) => d,
                    None => "No description provided"@,
                },
            ),
        ),
        None => match last_value(pairs, "code"@) {
            None => Err(ErrorView::Other("No authorization code found in callback URL"@)),
            Some(c) => match last_value(pairs, "state"@) {
                None => Err(ErrorView::Other("No state parameter found in callback URL"@)),
                Some(s) => match state_check_spec(s, expected) {
                    Ok(()) => Ok(c),
                    Err(e) => Err(e),
                },
            },
        },
    }
}

/// A callback is only accepted when the server reported no error and
/// returned exactly the state that was sent; the code accepted is the last
/// one in the query.
pub proof fn lemma_callback_accepts_only_sent_state(
    pairs: Seq<(Seq<char>, Seq<char>)>,
    expected: Seq<char>,
)
    requires
        callback_spec(pairs, expected) is Ok,
    ensures
        last_value(pairs, "error"@) is None,
        last_value(pairs, "state"@) == Some(expected),
        last_value(pairs, "code"@) == Some(callback_spec(pairs, expected)->Ok_0),
{
}

fn find_last(pairs: &Vec<(String, String)>, key: &str) -> (r: Option<String>)
    ensures
        match r {
            Some(v) => last_value(pairs@.map_values(|p: (String, String)| (p.0@, p.1@)), key@)
                == Some(v@),
            None => last_value(pairs@.map_values(|p: (String, String)| (p.0@, p.1@)), key@) is None,
        },
{
    let ghost all = pairs@.map_values(|p: (String, String)| (p.0@, p.1@));
    let mut i = pairs.len();
    assert(all.subrange(0, pairs@.len() as int) =~= all);
    while i > 0
        invariant
            i <= pairs@.len(),
            all == pairs@.map_values(|p: (String, String)| (p.0@, p.1@)),
            last_value(all, key@) == last_value(all.subrange(0, i as int), key@),
        decreases i,
    {
        let ghost cur = all.subrange(0, i as int);
        assert(cur.drop_last() =~= all.subrange(0, i - 1));
        assert(cur.last() == (pairs@[i - 1].0@, pairs@[i - 1].1@));
        if str_eq(pairs[i - 1].0.as_str(), key) {
            return Some(pairs[i - 1].1.clone());
        }
        i = i - 1;
    }
    assert(all.subrange(0, 0) =~= Seq::<(Seq<char>, Seq<char>)>::empty());
    None
}

/// The authorization code, given the query pairs of the callback URL.
pub fn code_from_query(pairs: &Vec<(String, String)>, expected_state: &str) -> (r: Result<String, Error>)
    ensures
        string_result_view(r) == callback_spec(
            pairs@.map_values(|p: (String, String)| (p.0@, p.1@)),
            expected_state@,
        ),
{
    match find_last(pairs, "error") {
        Some(e) => {
            let mut m = string_from_str("OAuth authorization failed: ");
            push_str(&mut m, e.as_str());
            push_str(&mut m, " - ");
            match find_last(pairs, "error_description") {
                Some(d) => push_str(&mut m, d.as_str()),
                None => push_str(&mut m, "No description provided"),
            }
            return Err(Error::Other(m));
        },
        None => {},
    }
    let code = match find_last(pairs, "code") {
        Some(c) => c,
        None => {
            return Err(Error::Other(string_from_str("No authorization code found in callback URL")));
        },
    };
    let state = match find_last(pairs, "state") {
        Some(s) => s,
        None => {
            return Err(Error::Other(string_from_str("No state parameter found in callback URL")));
        },
    };
    match check_state(state.as_str(), expected_state) {
        Ok(()) => Ok(code),
        Err(e) => Err(e),
    }
}

/// The outcome of reading a callback URL pasted by the user.
pub open spec fn callback_url_spec(parsed: Result<UrlPartsView, Seq<char>>, expected: Seq<char>) -> Result<
    Seq<char>,
    ErrorView,
> {
    match parsed {
        Err(e) => Err(ErrorView::Other("Invalid URL format: "@ + e)),
        Ok(u) => callback_spec(u.query, expected),
    }
}

/// The authorization code, given how the callback URL parsed.
pub fn code_from_parts(parsed: Result<UrlParts, String>, expected_state: &str) -> (r: Result<String, Error>)
    ensures
        string_result_view(r) == callback_url_spec(url_result_view(parsed), expected_state@),
{
    match parsed {
        Err(e) => {
            let mut m = string_from_str("Invalid URL format: ");
            push_str(&mut m, e.as_str());
            Err(Error::Other(m))
        },
        Ok(u) => code_from_query(&u.query, expected_state),
    }
}

/// Reads the authorization code out of the callback URL that the browser
/// was sent to, checking the state against the one that was sent.
pub fn parse_callback_url(callback_url: &str, expected_state: &str) -> (r: Result<String, Error>)
    ensures
        string_result_view(r) == callback_url_spec(url_parse(callback_url@), expected_state@),
{
    code_from_parts(parse_url(callback_url), expected_state)
}

// ---------------------------------------------------------------------------
// Server metadata
// ---------------------------------------------------------------------------

/// What an OAuth authorization server publishes about itself.
pub struct ServerMetadata {
    pub issuer: Option<String>,
    pub authorization_endpoint: Option<String>,
    pub token_endpoint: Option<String>,
    pub registration_endpoint: Option<String>,
    pub response_types_supported: Option<Vec<String>>,
    pub grant_types_supported: Option<Vec<String>>,
    pub token_endpoint_auth_methods_supported: Option<Vec<String>>,
    pub scopes_supported: Option<Vec<String>>,
}

/// A key-value entry shown only where there is a value.
pub open spec fn kv_opt_spec(key: Seq<char>, v: Option<String>) -> Seq<EntryView> {
    match v {
        Some(s) => seq![ev(0, LineView::Kv(key, s@))],
        None => Seq::empty(),
    }
}

/// A key-value entry listing values, shown only where there is a list.
pub open spec fn kv_list_spec(key: Seq<char>, v: Option<Vec<String>>) -> Seq<EntryView> {
    match v {
        Some(l) => seq![ev(0, LineView::Kv(key, join_with(l.deep_view(), ", "@)))],
        None => Seq::empty(),
    }
}

/// The endpoints the metadata names, and whether clients can register.
pub open spec fn endpoints_spec(m: ServerMetadata) -> Seq<EntryView> {
    kv_opt_spec("Issuer"@, m.issuer) + kv_opt_spec("Authorization Endpoint"@, m.authorization_endpoint)
        + kv_opt_spec("Token Endpoint"@, m.token_endpoint) + match m.registration_endpoint {
        Some(r) => seq![
            ev(0, LineView::Kv("Registration Endpoint"@, r@)),
            ev(0, LineView::TraceSuccess("Dynamic client registration is supported"@)),
        ],
        None => seq![ev(0, LineView::TraceWarn("Dynamic client registration is NOT supported"@))],
    }
}

/// The lists of supported options the metadata gives.
pub open spec fn supported_spec(m: ServerMetadata) -> Seq<EntryView> {
    kv_list_spec("Response Types Supported"@, m.response_types_supported) + kv_list_spec(
        "Grant Types Supported"@,
        m.grant_types_supported,
    ) + kv_list_spec("Token Auth Methods"@, m.token_endpoint_auth_methods_supported)
        + kv_list_spec("Scopes Supported"@, m.scopes_supported)
}

/// What the metadata display shows.
pub open spec fn metadata_spec(m: ServerMetadata) -> Seq<EntryView> {
    seq![
        ev(0, LineView::Heading(1, "OAuth Authorization Server Metadata"@)),
        ev(0, LineView::Text(Seq::empty())),
    ] + endpoints_spec(m) + seq![ev(0, LineView::Text(Seq::empty()))] + supported_spec(m)
}

fn push_kv_opt(out: &mut Vec<Entry>, key: &str, v: &Option<String>)
    ensures
        entries_view(final(out)@) == entries_view(old(out)@) + kv_opt_spec(key@, *v),
{
    let ghost before = entries_view(out@);
    match v {
        Some(s) => push_kv(out, 0, key, s.as_str()),
        None => {},
    }
    assert(entries_view(out@) =~= before + kv_opt_spec(key@, *v));
}

fn push_kv_list(out: &mut Vec<Entry>, key: &str, v: &Option<Vec<String>>)
    ensures
        entries_view(final(out)@) == entries_view(old(out)@) + kv_list_spec(key@, *v),
{
    let ghost before = entries_view(out@);
    match v {
        Some(l) => {
            let j = join_strings(l, ", ");
            push_kv(out, 0, key, j.as_str());
        },
        None => {},
    }
    assert(entries_view(out@) =~= before + kv_list_spec(key@, *v));
}

fn push_endpoints(out: &mut Vec<Entry>, m: &ServerMetadata)
    ensures
        entries_view(final(out)@) == entries_view(old(out)@) + endpoints_spec(*m),
{
    let ghost before = entries_view(out@);
    push_kv_opt(out, "Issuer", &m.issuer);
    push_kv_opt(out, "Authorization Endpoint", &m.authorization_endpoint);
    push_kv_opt(out, "Token Endpoint", &m.token_endpoint);
    match &m.registration_endpoint {
        Some(r) => {
            push_kv(out, 0, "Registration Endpoint", r.as_str());
            push_entry(
                out,
                0,
                Line::TraceSuccess(string_from_str("Dynamic client registration is supported")),
            );
        },
        None => {
            push_entry(
                out,
                0,
                Line::TraceWarn(string_from_str("Dynamic client registration is NOT supported")),
            );
        },
    }
    assert(entries_view(out@) =~= before + endpoints_spec(*m));
}

fn push_supported(out: &mut Vec<Entry>, m: &ServerMetadata)
    ensures
        entries_view(final(out)@) == entries_view(old(out)@) + supported_spec(*m),
{
    let ghost before = entries_view(out@);
    push_kv_list(out, "Response Types Supported", &m.response_types_supported);
    push_kv_list(out, "Grant Types Supported", &m.grant_types_supported);
    push_kv_list(out, "Token Auth Methods", &m.token_endpoint_auth_methods_supported);
    push_kv_list(out, "Scopes Supported", &m.scopes_supported);
    assert(entries_view(out@) =~= before + supported_spec(*m));
}

/// Shows what an authorization server publishes about itself.
pub fn display_metadata(out: &mut Vec<Entry>, m: &ServerMetadata)
    ensures
        entries_view(final(out)@) == entries_view(old(out)@) + metadata_spec(*m),
{
    let ghost before = entries_view(out@);
    push_heading(out, 0, 1, "OAuth Authorization Server Metadata");
    push_text(out, 0, "");
    push_endpoints(out, m);
    push_text(out, 0, "");
    push_supported(out, m);
    assert(Seq::<char>::empty() =~= ""@) by {
        reveal_strlit("");
    }
    assert(entries_view(out@) =~= before + metadata_spec(*m));
}

/// The line that says where metadata is looked for.
pub open spec fn discovery_notice_spec(base_url: Seq<char>) -> Seq<char> {
    "Discovering OAuth metadata from: "@ + base_url + "/.well-known/oauth-authorization-server"@
}

/// Builds the line that says where metadata is looked for.
pub fn discovery_notice(base_url: &str) -> (s: String)
    ensures
        s@ == discovery_notice_spec(base_url@),
{
    let mut s = string_from_str("Discovering OAuth metadata from: ");
    push_str(&mut s, base_url);
    push_str(&mut s, "/.well-known/oauth-authorization-server");
    s
}

} // verus!
