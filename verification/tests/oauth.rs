use libmcptool::auth::{
    accepts_registration, auth_table, check_entry_exists, check_new_entry, check_refresh_token,
    client_secret_from_input, confirms_removal, expiry_line, handle_oauth_error,
    local_redirect_url, oauth_error, removal_notice, renewal_redirect_url, resolve_endpoint,
    resolve_resource, resolve_scopes, token_status, AddCommandArgs, AuthSummary, EndpointChoice,
    TokenExpiry,
};
use libmcptool::display::{Entry, Line};
use libmcptool::error::Error;

fn args(scopes: Option<&str>, resource: Option<&str>) -> AddCommandArgs {
    AddCommandArgs {
        name: "test".to_string(),
        server_url: None,
        auth_url: None,
        token_url: None,
        client_id: None,
        client_secret: None,
        redirect_url: None,
        resource: resource.map(|s| s.to_string()),
        scopes: scopes.map(|s| s.to_string()),
        show_redirect_url: false,
        no_discover: false,
        auto_register: false,
    }
}

fn text(s: &str) -> Line {
    Line::Text(s.to_string())
}

#[test]
fn scopes_are_split_at_commas_and_trimmed() {
    assert_eq!(resolve_scopes(&args(Some("read, write ,admin"), None)), vec!["read", "write", "admin"]);
    assert_eq!(resolve_scopes(&args(Some(""), None)), vec![""]);
    assert_eq!(resolve_scopes(&args(Some("a,,b"), None)), vec!["a", "", "b"]);
    assert!(resolve_scopes(&args(None, None)).is_empty());
}

#[test]
fn resource_defaults_to_the_server_url() {
    assert_eq!(resolve_resource(&args(None, None), "https://s"), "https://s");
    assert_eq!(resolve_resource(&args(None, Some("aud")), "https://s"), "aud");
}

#[test]
fn endpoints_given_win_over_discovered_ones() {
    let given = Some("https://given".to_string());
    let found = Some("https://found".to_string());
    assert_eq!(
        resolve_endpoint(&given, &found),
        EndpointChoice::Given("https://given".to_string())
    );
    assert_eq!(
        resolve_endpoint(&None, &found),
        EndpointChoice::Discovered("https://found".to_string())
    );
    assert_eq!(resolve_endpoint(&None, &None), EndpointChoice::Ask);
}

#[test]
fn local_redirect_urls_name_the_port() {
    assert_eq!(local_redirect_url(8080), "http://127.0.0.1:8080/callback");
    assert_eq!(local_redirect_url(0), "http://127.0.0.1:0/callback");
}

#[test]
fn answers_typed_by_the_user() {
    assert_eq!(client_secret_from_input("   "), None);
    assert_eq!(client_secret_from_input(" s3cret "), Some(" s3cret ".to_string()));
    assert!(accepts_registration(""));
    assert!(accepts_registration("  Yes"));
    assert!(accepts_registration("y"));
    assert!(!accepts_registration("no"));
    assert!(confirms_removal(" y\n"));
    assert!(confirms_removal("Y"));
    assert!(!confirms_removal("yes"));
    assert!(!confirms_removal(""));
}

#[test]
fn new_entries_may_not_reuse_a_name() {
    let existing = vec!["work".to_string(), "home".to_string()];
    assert!(check_new_entry("other", &existing).is_ok());
    assert_eq!(
        check_new_entry("work", &existing).unwrap_err(),
        Error::Other("Authentication entry 'work' already exists".to_string())
    );
    assert!(check_entry_exists("home", &existing).is_ok());
    assert_eq!(
        check_entry_exists("gone", &existing).unwrap_err(),
        "Authentication entry 'gone' not found"
    );
}

#[test]
fn oauth_failures_get_hints() {
    let mut out: Vec<Entry> = Vec::new();
    handle_oauth_error(&mut out, "invalid redirect_uri", "http://127.0.0.1:8080/callback");
    let shown: Vec<Line> = out.into_iter().map(|e| e.line).collect();
    assert_eq!(shown.len(), 9);
    assert_eq!(shown[1], Line::TraceError("OAuth Error: Redirect URL not registered".to_string()));
    assert_eq!(shown[6], text("2. Add this redirect URL: http://127.0.0.1:8080/callback"));

    let mut out: Vec<Entry> = Vec::new();
    handle_oauth_error(&mut out, "error: incorrect_client_credentials", "r");
    let shown: Vec<Line> = out.into_iter().map(|e| e.line).collect();
    assert_eq!(shown.len(), 10);
    assert_eq!(shown[1], Line::TraceError("OAuth Error: Invalid client credentials".to_string()));

    let mut out: Vec<Entry> = Vec::new();
    handle_oauth_error(&mut out, "something else", "r");
    assert_eq!(out.len(), 1);
    assert_eq!(
        oauth_error("boom"),
        Error::Other("OAuth error: boom".to_string())
    );
}

#[test]
fn token_status_and_expiry_lines() {
    assert_eq!(token_status(false, TokenExpiry::In(10)), "No token");
    assert_eq!(token_status(true, TokenExpiry::Unknown), "Valid");
    assert_eq!(token_status(true, TokenExpiry::In(3 * 3600 + 25 * 60 + 7)), "Valid (3h 25m)");
    assert_eq!(token_status(true, TokenExpiry::In(59)), "Valid (0m)");
    assert_eq!(token_status(true, TokenExpiry::Passed), "Expired");
    assert_eq!(expiry_line(TokenExpiry::In(7200), false), "  Token expires in 2h 0m");
    assert_eq!(expiry_line(TokenExpiry::Passed, false), "  Token is expired");
    assert_eq!(expiry_line(TokenExpiry::Passed, true), "  Token is already expired");
    assert_eq!(
        expiry_line(TokenExpiry::Unknown, true),
        "  No expiration information available"
    );
    assert!(check_refresh_token(true).is_ok());
    assert_eq!(
        check_refresh_token(false).unwrap_err(),
        Error::Other("No refresh token available for this authentication entry".to_string())
    );
    assert_eq!(renewal_redirect_url(&None), "http://localhost:0");
    assert_eq!(renewal_redirect_url(&Some("x".to_string())), "x");
}

#[test]
fn entries_are_listed_in_a_table() {
    let entries = vec![
        AuthSummary {
            name: "a".to_string(),
            server_url: "https://example.com".to_string(),
            client_id: "cid".to_string(),
            has_token: true,
            expiry: TokenExpiry::In(90 * 60),
        },
        AuthSummary {
            name: "longer_name".to_string(),
            server_url: "s".to_string(),
            client_id: "client-identifier".to_string(),
            has_token: false,
            expiry: TokenExpiry::Unknown,
        },
    ];
    let mut out: Vec<Entry> = Vec::new();
    auth_table(&mut out, &entries);
    let shown: Vec<Line> = out.into_iter().map(|e| e.line).collect();
    assert_eq!(
        shown,
        vec![
            Line::Heading(0, "Authentication entries (2):".to_string()),
            text(""),
            text(&format!("{:<11}  {:<19}  {:<17}  {}", "Name", "Server", "Client ID", "Status")),
            text(&format!("{:-<11}  {:-<19}  {:-<17}  {:-<10}", "", "", "", "")),
            text(&format!("{:<11}  {:<19}  {:<17}  {}", "a", "https://example.com", "cid", "Valid (1h 30m)")),
            text(&format!(
                "{:<11}  {:<19}  {:<17}  {}",
                "longer_name", "s", "client-identifier", "No token"
            )),
        ]
    );
    let mut out: Vec<Entry> = Vec::new();
    auth_table(&mut out, &vec![]);
    assert_eq!(out.len(), 3);
    assert_eq!(out[0].line, text("No authentication entries found."));
}

#[test]
fn removal_is_announced() {
    let mut out: Vec<Entry> = Vec::new();
    removal_notice(&mut out, "work", "https://s", "cid");
    let shown: Vec<Line> = out.into_iter().map(|e| e.line).collect();
    assert_eq!(
        shown,
        vec![
            Line::Warn("About to remove authentication entry 'work'".to_string()),
            text("  Server: https://s"),
            text("  Client ID: cid"),
            text(""),
        ]
    );
}
