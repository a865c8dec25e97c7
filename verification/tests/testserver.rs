use libmcptool::display::{Entry, Line};
use libmcptool::mcp::LoggingLevel;
use libmcptool::testserver::{
    call_test_tool, check_server_options, console_help, console_prompt, list_clients, log_text,
    metrics_text, render_test_prompt, sample_users, server_status, set_level_messages,
    test_resource, ClientSummary, TestResource,
};

fn text(s: &str) -> Line {
    Line::Text(s.to_string())
}

#[test]
fn server_options_allow_one_transport() {
    assert!(check_server_options(false, false, false).is_ok());
    assert!(check_server_options(false, true, true).is_ok());
    assert_eq!(
        check_server_options(true, true, false).unwrap_err(),
        "Only one transport can be specified: --stdio, --tcp, or HTTP (default)"
    );
    assert_eq!(
        check_server_options(true, false, true).unwrap_err(),
        "Interactive mode is not compatible with stdio transport"
    );
}

#[test]
fn set_level_sends_only_messages_severe_enough() {
    let at_warning = set_level_messages(LoggingLevel::Warning);
    assert_eq!(
        at_warning,
        vec![
            (LoggingLevel::Warning, "This is a warning message".to_string()),
            (LoggingLevel::Error, "This is an error message".to_string()),
        ]
    );
    let at_debug = set_level_messages(LoggingLevel::Debug);
    assert_eq!(at_debug.len(), 5);
    assert_eq!(at_debug[0], (LoggingLevel::Info, "Log level changed to: Debug".to_string()));
    assert!(set_level_messages(LoggingLevel::Emergency).is_empty());
}

#[test]
fn echo_tool_echoes() {
    assert_eq!(
        call_test_tool("echo", &Some("hi".to_string())).unwrap(),
        "Echo: hi"
    );
    assert_eq!(call_test_tool("echo", &None).unwrap(), "Echo: No message provided");
    assert_eq!(call_test_tool("other", &None).unwrap_err(), "Unknown tool: other");
}

#[test]
fn prompts_render_with_defaults() {
    let p = render_test_prompt("greeting", &vec![]).unwrap();
    assert_eq!(p.description, "A personalized greeting");
    assert_eq!(p.message, "Hey World! What's up?");
    let args = vec![
        ("name".to_string(), "Ada".to_string()),
        ("style".to_string(), "formal".to_string()),
    ];
    let p = render_test_prompt("greeting", &args).unwrap();
    assert_eq!(p.message, "Good day, Ada. How may I assist you today?");
    let args = vec![("language".to_string(), "rust".to_string()), ("code".to_string(), "fn x() {}".to_string())];
    let p = render_test_prompt("code_review", &args).unwrap();
    assert_eq!(p.description, "Code review request");
    assert_eq!(
        p.message,
        "Please review the following rust code:\n\n```rust\nfn x() {}\n```\n\nProvide feedback on code quality, potential bugs, and improvements."
    );
    assert_eq!(
        render_test_prompt("nope", &vec![]).err().unwrap(),
        "Unknown prompt: nope"
    );
}

#[test]
fn resources_are_found_by_uri() {
    assert_eq!(test_resource("log://testserver/current"), Some(TestResource::Log));
    assert_eq!(test_resource("data://testserver/users.json"), Some(TestResource::Users));
    assert_eq!(test_resource("metrics://testserver/stats"), Some(TestResource::Metrics));
    assert_eq!(test_resource("metrics://testserver/other"), None);
    assert_eq!(
        metrics_text(7),
        "Server Metrics\n==============\n\nTotal requests processed: 7\nUptime: N/A\nMemory usage: N/A\nActive connections: 1"
    );
    assert_eq!(
        log_text("t1", "t2", "t3"),
        "Test Server Log\n===============\n\nt1 - Server started\nt2 - Listening for connections\nt3 - Processing requests..."
    );
    let users = sample_users();
    assert_eq!(users.len(), 3);
    assert_eq!(users[1].name, "Bob Smith");
    assert_eq!(users[2].role, "moderator");
}

#[test]
fn console_shows_prompt_help_status_and_clients() {
    assert_eq!(console_prompt(2), "testserver[2]> ");
    let mut out: Vec<Entry> = Vec::new();
    console_help(&mut out);
    assert_eq!(out.len(), 18);
    assert_eq!(out[0].line, Line::Heading(1, "Available commands".to_string()));

    let mut out: Vec<Entry> = Vec::new();
    server_status(&mut out, "tcp://127.0.0.1:3000", 12, 1, LoggingLevel::Warning);
    let shown: Vec<Line> = out.into_iter().map(|e| e.line).collect();
    assert_eq!(
        shown,
        vec![
            Line::Heading(1, "Server Status".to_string()),
            text("Server Address: tcp://127.0.0.1:3000"),
            text("Total Requests: 12"),
            text("Connected Clients: 1"),
            text("Current Log Level: Warning"),
        ]
    );

    let mut out: Vec<Entry> = Vec::new();
    list_clients(
        &mut out,
        &vec![ClientSummary {
            name: "mcptool".to_string(),
            version: "0.1.0".to_string(),
            address: "client_connection".to_string(),
            connected_secs: 5,
        }],
    );
    assert_eq!(
        out[1].line,
        text("1. mcptool v0.1.0 from client_connection (connected 5s ago)")
    );
    let mut out: Vec<Entry> = Vec::new();
    list_clients(&mut out, &vec![]);
    assert_eq!(out[1].line, text("No clients connected"));
}
