use libmcptool::client::{check_oauth_target, connection_plan, proxy_plan, ConnectionPlan};
use libmcptool::console::{classify_repl_line, console_step, parse_console_command, ConsoleCommand, ReplLine};
use libmcptool::error::Error;
use libmcptool::mcp::{
    find_tool, parse_completion_reference, parse_logging_level, select_argument_mode,
    should_log_message, ArgumentMode, CompletionReference, LoggingLevel,
};
use libmcptool::output::{heading_line, LogLevel};
use libmcptool::shell::{shell_join, shell_split};
use libmcptool::target::Target;

#[test]
fn repl_lines_are_classified() {
    assert_eq!(classify_repl_line("   "), ReplLine::Empty);
    assert_eq!(classify_repl_line(" quit "), ReplLine::Quit);
    assert_eq!(classify_repl_line("exit"), ReplLine::Quit);
    assert_eq!(classify_repl_line("help"), ReplLine::Help);
    assert_eq!(classify_repl_line("init"), ReplLine::Init);
    assert_eq!(
        classify_repl_line("quit now"),
        ReplLine::Command(vec!["quit".to_string(), "now".to_string()])
    );
    assert_eq!(
        classify_repl_line("calltool echo --arg message=hi"),
        ReplLine::Command(vec![
            "calltool".to_string(),
            "echo".to_string(),
            "--arg".to_string(),
            "message=hi".to_string()
        ])
    );
}

#[test]
fn console_commands_are_parsed() {
    assert_eq!(parse_console_command(""), ConsoleCommand::Empty);
    assert_eq!(parse_console_command("status"), ConsoleCommand::Status);
    assert_eq!(
        parse_console_command("notify warning disk   almost full"),
        ConsoleCommand::Notify {
            level: LoggingLevel::Warning,
            message: "disk almost full".to_string()
        }
    );
    assert_eq!(
        parse_console_command("notify loud hello"),
        ConsoleCommand::Invalid("Invalid level. Use: debug, info, warning, error".to_string())
    );
    assert_eq!(
        parse_console_command("notify info"),
        ConsoleCommand::Invalid("Usage: notify <level> <message>".to_string())
    );
    assert_eq!(
        parse_console_command("progress op1 0.5"),
        ConsoleCommand::Progress { operation: "op1".to_string(), progress: "0.5".to_string() }
    );
    assert_eq!(
        parse_console_command("resource file:///x"),
        ConsoleCommand::Resource { uri: "file:///x".to_string() }
    );
    assert_eq!(
        parse_console_command("setlevel error"),
        ConsoleCommand::SetLevel { level: LoggingLevel::Error }
    );
    assert_eq!(
        parse_console_command("setlevel notice"),
        ConsoleCommand::Invalid("Invalid level. Use: debug, info, warning, error".to_string())
    );
    assert_eq!(parse_console_command("frobnicate"), ConsoleCommand::Unknown("frobnicate".to_string()));
}

#[test]
fn logging_levels_are_read_and_ordered() {
    assert_eq!(parse_logging_level("WARNING").unwrap(), LoggingLevel::Warning);
    assert_eq!(
        parse_logging_level("loud").unwrap_err(),
        Error::Other(
            "Invalid logging level: loud. Valid levels are: debug, info, notice, warning, error, critical, alert, emergency"
                .to_string()
        )
    );
    assert!(should_log_message(LoggingLevel::Error, LoggingLevel::Warning));
    assert!(should_log_message(LoggingLevel::Warning, LoggingLevel::Warning));
    assert!(!should_log_message(LoggingLevel::Info, LoggingLevel::Warning));
    assert_eq!(LoggingLevel::Emergency.severity(), 7);
}

#[test]
fn completion_references_and_argument_modes() {
    assert_eq!(
        parse_completion_reference("prompt://greeting").unwrap(),
        CompletionReference::Prompt { name: "greeting".to_string() }
    );
    assert_eq!(
        parse_completion_reference("resource://file/{path}").unwrap(),
        CompletionReference::Resource { uri: "resource://file/{path}".to_string() }
    );
    assert_eq!(
        parse_completion_reference("file://x").unwrap_err(),
        Error::Other("Invalid reference format: 'file://x'. Expected resource:// or prompt:// prefix".to_string())
    );
    assert_eq!(select_argument_mode(true, false, false).unwrap(), ArgumentMode::CommandLine);
    assert_eq!(select_argument_mode(false, true, false).unwrap(), ArgumentMode::Interactive);
    assert_eq!(select_argument_mode(false, false, true).unwrap(), ArgumentMode::Json);
    assert_eq!(
        select_argument_mode(false, false, false).unwrap_err(),
        Error::Other("Must specify one of: --interactive, --json, or --arg key=value arguments".to_string())
    );
    assert_eq!(
        select_argument_mode(true, true, false).unwrap_err(),
        Error::Other("Cannot combine --interactive, --json, and --arg modes".to_string())
    );
    let names = vec!["a".to_string(), "echo".to_string()];
    assert_eq!(find_tool(&names, "echo").unwrap(), 1);
    assert_eq!(
        find_tool(&names, "nope").unwrap_err(),
        Error::Other("Tool 'nope' not found".to_string())
    );
}

#[test]
fn connection_plans_follow_the_target() {
    let t = Target::parse("localhost:3000").unwrap();
    assert_eq!(
        connection_plan(&t).unwrap(),
        ConnectionPlan::Tcp { address: "localhost:3000".to_string() }
    );
    let t = Target::parse("cmd://./server --port 8080").unwrap();
    assert_eq!(
        connection_plan(&t).unwrap(),
        ConnectionPlan::Process {
            command: "./server".to_string(),
            args: vec!["--port".to_string(), "8080".to_string()]
        }
    );
    let t = Target::parse("https://example.com/mcp").unwrap();
    assert_eq!(
        connection_plan(&t).unwrap(),
        ConnectionPlan::Https { url: "https://example.com:443".to_string() }
    );
    assert!(check_oauth_target(&t).is_ok());
    assert_eq!(
        proxy_plan(&t).unwrap_err(),
        Error::Other("HTTP/HTTPS connections are not yet supported for proxy".to_string())
    );
    let a = Target::parse("auth://work").unwrap();
    assert!(connection_plan(&a).is_err());
    assert_eq!(
        check_oauth_target(&Target::parse("tcp://h:1").unwrap()).unwrap_err(),
        Error::Other("OAuth authentication is only supported for HTTP/HTTPS targets".to_string())
    );
}

#[test]
fn shell_words_round_trip() {
    let words = shell_split("server --path '/some path/'").unwrap();
    assert_eq!(words, vec!["server", "--path", "/some path/"]);
    assert_eq!(shell_join(&words), "server --path '/some path/'");
    assert!(shell_split("unclosed 'quote").is_err());
}

#[test]
fn log_levels_and_headings() {
    assert_eq!(LogLevel::Warn.as_str(), "warn");
    assert_eq!(LogLevel::from_name("DEBUG").unwrap(), LogLevel::Debug);
    assert_eq!(LogLevel::from_name("loud").unwrap_err(), "Invalid log level: loud");
    assert_eq!("trace".parse::<LogLevel>().unwrap(), LogLevel::Trace);
    assert_eq!(LogLevel::Error.to_tracing_level(), tracing::Level::ERROR);
    assert_eq!(LogLevel::Trace.to_tracing_level(), tracing::Level::TRACE);
    assert_eq!(heading_line("Hi", 10), "    Hi    ");
    assert_eq!(heading_line("Hi", 11), "    Hi     ");
    assert_eq!(heading_line("a long message", 4), " a long message ");
    let e = Error::Format("bad".to_string());
    assert_eq!(e.message(), "Invalid format: bad");
}

#[test]
fn documented_log_levels_are_accepted() {
    for (name, level) in [
        ("debug", LogLevel::Debug),
        ("info", LogLevel::Info),
        ("notice", LogLevel::Info),
        ("warning", LogLevel::Warn),
        ("error", LogLevel::Error),
        ("critical", LogLevel::Error),
        ("alert", LogLevel::Error),
        ("emergency", LogLevel::Error),
        ("Warning", LogLevel::Warn),
    ] {
        assert_eq!(name.parse::<LogLevel>().unwrap(), level);
        assert_eq!(LogLevel::from_name(name).unwrap(), level);
    }
}

#[test]
fn console_steps_track_the_level_and_the_end() {
    let (c, l, quit) = console_step(LoggingLevel::Error, "setlevel debug");
    assert_eq!(c, ConsoleCommand::SetLevel { level: LoggingLevel::Debug });
    assert_eq!(l, LoggingLevel::Debug);
    assert!(!quit);
    let (c, l, quit) = console_step(LoggingLevel::Info, "setlevel loud");
    assert!(matches!(c, ConsoleCommand::Invalid(_)));
    assert_eq!(l, LoggingLevel::Info);
    assert!(!quit);
    let (_, l, quit) = console_step(LoggingLevel::Info, "frobnicate");
    assert_eq!(l, LoggingLevel::Info);
    assert!(!quit);
    let (c, l, quit) = console_step(LoggingLevel::Warning, "  exit ");
    assert_eq!(c, ConsoleCommand::Quit);
    assert_eq!(l, LoggingLevel::Warning);
    assert!(quit);
}

#[test]
fn tracing_levels_are_named_and_ordered() {
    let levels = [LogLevel::Error, LogLevel::Warn, LogLevel::Info, LogLevel::Debug, LogLevel::Trace];
    let names = ["ERROR", "WARN", "INFO", "DEBUG", "TRACE"];
    for (l, n) in levels.iter().zip(names.iter()) {
        assert_eq!(l.to_tracing_level().as_str(), *n);
    }
    for w in levels.windows(2) {
        assert!(w[0].to_tracing_level() < w[1].to_tracing_level());
    }
}
