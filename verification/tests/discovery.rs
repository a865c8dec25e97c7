use libmcptool::discovery::{
    base_url_from_parts, check_state, code_from_query, discovery_notice, display_metadata,
    get_authorization_base_url, parse_callback_url, ServerMetadata, UrlParts,
};
use libmcptool::display::{Entry, Line};
use libmcptool::error::Error;

#[test]
fn test_get_authorization_base_url() {
    // Simple URL without path
    assert_eq!(
        get_authorization_base_url("https://mcp.linear.app").unwrap(),
        "https://mcp.linear.app"
    );

    // URL with trailing slash
    assert_eq!(
        get_authorization_base_url("https://mcp.linear.app/").unwrap(),
        "https://mcp.linear.app"
    );

    // URL with path (should strip path per MCP spec)
    assert_eq!(
        get_authorization_base_url("https://api.example.com/v1/mcp").unwrap(),
        "https://api.example.com"
    );

    // URL with port
    assert_eq!(
        get_authorization_base_url("https://localhost:8080/mcp").unwrap(),
        "https://localhost:8080"
    );

    // HTTP URL
    assert_eq!(
        get_authorization_base_url("http://localhost:3000").unwrap(),
        "http://localhost:3000"
    );
}

#[test]
fn test_get_authorization_base_url_invalid() {
    // Invalid URL
    assert!(get_authorization_base_url("not-a-url").is_err());

    // Missing scheme
    assert!(get_authorization_base_url("mcp.linear.app").is_err());
}

#[test]
fn base_url_drops_default_ports_query_and_fragment() {
    assert_eq!(
        get_authorization_base_url("https://example.com:443/a?b=c#d").unwrap(),
        "https://example.com"
    );
    assert_eq!(
        get_authorization_base_url("HTTP://Example.COM:8080").unwrap(),
        "http://example.com:8080"
    );
}

#[test]
fn base_url_errors_name_the_problem() {
    match get_authorization_base_url("not-a-url") {
        Err(Error::Format(m)) => assert!(m.starts_with("Invalid server URL: ")),
        other => panic!("unexpected: {:?}", other),
    }
    match get_authorization_base_url("mailto:someone@example.com") {
        Err(Error::Format(m)) => assert_eq!(m, "Server URL must have a host"),
        other => panic!("unexpected: {:?}", other),
    }
}

#[test]
fn base_url_from_given_parts() {
    let parts = UrlParts {
        scheme: "https".to_string(),
        host: Some("h".to_string()),
        port: Some(9),
        query: vec![],
    };
    assert_eq!(base_url_from_parts(Ok(parts)).unwrap(), "https://h:9");
    assert_eq!(
        base_url_from_parts(Err("bad".to_string())).unwrap_err(),
        Error::Format("Invalid server URL: bad".to_string())
    );
}

#[test]
fn callback_url_gives_the_code_when_the_state_matches() {
    let code = parse_callback_url("http://127.0.0.1:8080/callback?code=abc&state=xyz", "xyz");
    assert_eq!(code.unwrap(), "abc");
    let e = parse_callback_url("http://127.0.0.1:8080/callback?code=abc&state=other", "xyz")
        .unwrap_err();
    assert_eq!(
        e,
        Error::Other("State parameter mismatch - possible CSRF attack".to_string())
    );
}

#[test]
fn callback_url_errors() {
    let e = parse_callback_url("http://h/cb?error=access_denied", "s").unwrap_err();
    assert_eq!(
        e,
        Error::Other("OAuth authorization failed: access_denied - No description provided".to_string())
    );
    let e = parse_callback_url("http://h/cb?error=x&error_description=Denied%20here", "s")
        .unwrap_err();
    assert_eq!(
        e,
        Error::Other("OAuth authorization failed: x - Denied here".to_string())
    );
    let e = parse_callback_url("http://h/cb?state=s", "s").unwrap_err();
    assert_eq!(
        e,
        Error::Other("No authorization code found in callback URL".to_string())
    );
    let e = parse_callback_url("http://h/cb?code=c", "s").unwrap_err();
    assert_eq!(
        e,
        Error::Other("No state parameter found in callback URL".to_string())
    );
    match parse_callback_url("not a url", "s") {
        Err(Error::Other(m)) => assert!(m.starts_with("Invalid URL format: ")),
        other => panic!("unexpected: {:?}", other),
    }
}

#[test]
fn callback_query_takes_the_last_value_of_a_key() {
    let pairs = vec![
        ("code".to_string(), "first".to_string()),
        ("state".to_string(), "s".to_string()),
        ("code".to_string(), "second".to_string()),
    ];
    assert_eq!(code_from_query(&pairs, "s").unwrap(), "second");
    assert!(check_state("a", "a").is_ok());
    assert!(check_state("a", "b").is_err());
}

#[test]
fn metadata_display_lists_what_is_known() {
    let m = ServerMetadata {
        issuer: Some("https://issuer".to_string()),
        authorization_endpoint: Some("https://issuer/authorize".to_string()),
        token_endpoint: None,
        registration_endpoint: None,
        response_types_supported: Some(vec!["code".to_string(), "token".to_string()]),
        grant_types_supported: None,
        token_endpoint_auth_methods_supported: None,
        scopes_supported: Some(vec![]),
    };
    let mut out: Vec<Entry> = Vec::new();
    display_metadata(&mut out, &m);
    let lines: Vec<Line> = out.into_iter().map(|e| e.line).collect();
    assert_eq!(
        lines,
        vec![
            Line::Heading(1, "OAuth Authorization Server Metadata".to_string()),
            Line::Text("".to_string()),
            Line::Kv("Issuer".to_string(), "https://issuer".to_string()),
            Line::Kv(
                "Authorization Endpoint".to_string(),
                "https://issuer/authorize".to_string()
            ),
            Line::TraceWarn("Dynamic client registration is NOT supported".to_string()),
            Line::Text("".to_string()),
            Line::Kv("Response Types Supported".to_string(), "code, token".to_string()),
            Line::Kv("Scopes Supported".to_string(), "".to_string()),
        ]
    );
    assert_eq!(
        discovery_notice("https://a.b"),
        "Discovering OAuth metadata from: https://a.b/.well-known/oauth-authorization-server"
    );
}
