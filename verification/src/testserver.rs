use vstd::prelude::*;

use crate::display::{entries_view, ev, push_entry, push_heading, push_text, Entry, EntryView, Line, LineView};
use crate::mcp::{severity, should_log_message, LoggingLevel};
use crate::text::{nat_to_decimal, push_str, str_eq, string_from_str, u64_to_decimal};

verus! {

// ---------------------------------------------------------------------------
// Options
// ---------------------------------------------------------------------------

/// The test server serves one transport; interactive mode needs the
/// terminal, which the stdio transport takes.
pub open spec fn server_options_spec(stdio: bool, tcp: bool, interactive: bool) -> Result<(), Seq<char>> {
    if stdio && tcp {
        Err("Only one transport can be specified: --stdio, --tcp, or HTTP (default)"@)
    } else if interactive && stdio {
        Err("Interactive mode is not compatible with stdio transport"@)
    } else {
        Ok(())
    }
}

/// Checks the test server's options; the error is the configuration
/// problem's message.
pub fn check_server_options(stdio: bool, tcp: bool, interactive: bool) -> (r: Result<(), String>)
    ensures
        match r {
            Ok(()) => server_options_spec(stdio, tcp, interactive) is Ok,
            Err(m) => server_options_spec(stdio, tcp, interactive) == Err::<(), Seq<char>>(m@),
        },
{
    let count: u8 = (if stdio { 1u8 } else { 0u8 }) + (if tcp { 1u8 } else { 0u8 });
    if count > 1 {
        Err(string_from_str("Only one transport can be specified: --stdio, --tcp, or HTTP (default)"))
    } else if interactive && stdio {
        Err(string_from_str("Interactive mode is not compatible with stdio transport"))
    } else {
        Ok(())
    }
}

/// How a logging level is shown, as its debug form prints it.
pub open spec fn level_debug_name(l: LoggingLevel) -> Seq<char> {
    match l {
        LoggingLevel::Debug => "Debug"@,
        LoggingLevel::Info => "Info"@,
        LoggingLevel::Notice => "Notice"@,
        LoggingLevel::Warning => "Warning"@,
        LoggingLevel::Error => "Error"@,
        LoggingLevel::Critical => "Critical"@,
        LoggingLevel::Alert => "Alert"@,
        LoggingLevel::Emergency => "Emergency"@,
    }
}

/// Appends how a logging level is shown.
pub fn push_level_name(s: &mut String, l: LoggingLevel)
    ensures
        final(s)@ == old(s)@ + level_debug_name(l),
{
    let n = match l {
        LoggingLevel::Debug => "Debug",
        LoggingLevel::Info => "Info",
        LoggingLevel::Notice => "Notice",
        LoggingLevel::Warning => "Warning",
        LoggingLevel::Error => "Error",
        LoggingLevel::Critical => "Critical",
        LoggingLevel::Alert => "Alert",
        LoggingLevel::Emergency => "Emergency",
    };
    push_str(s, n);
}

// ---------------------------------------------------------------------------
// Log messages sent to clients
// ---------------------------------------------------------------------------

/// The messages a level change sends, before filtering by level.
pub open spec fn set_level_candidates(level: LoggingLevel) -> Seq<(LoggingLevel, Seq<char>)> {
    seq![
        (LoggingLevel::Info, "Log level changed to: "@ + level_debug_name(level)),
        (LoggingLevel::Debug, "This is a debug message"@),
        (LoggingLevel::Info, "This is an info message"@),
        (LoggingLevel::Warning, "This is a warning message"@),
        (LoggingLevel::Error, "This is an error message"@),
    ]
}

/// The messages of `ms` at least as severe as `current`, in order.
pub open spec fn filter_by_level(ms: Seq<(LoggingLevel, Seq<char>)>, current: LoggingLevel) -> Seq<
    (LoggingLevel, Seq<char>),
> {
    ms.filter(|m: (LoggingLevel, Seq<char>)| severity(m.0) >= severity(current))
}

/// A level change only ever sends messages at least as severe as the new
/// level, and among the candidates it drops none that are.
pub proof fn lemma_set_level_sends_severe_enough(level: LoggingLevel)
    ensures
        forall|i: int|
            0 <= i < filter_by_level(set_level_candidates(level), level).len() ==> severity(
                #[trigger] filter_by_level(set_level_candidates(level), level)[i].0,
            ) >= severity(level),
        forall|i: int|
            0 <= i < set_level_candidates(level).len() && severity(
                #[trigger] set_level_candidates(level)[i].0,
            ) >= severity(level) ==> filter_by_level(set_level_candidates(level), level).contains(
                set_level_candidates(level)[i],
            ),
{
    broadcast use vstd::seq_lib::group_filter_ensures;

    let ms = set_level_candidates(level);
    let keep = |m: (LoggingLevel, Seq<char>)| severity(m.0) >= severity(level);
    assert forall|i: int|
        0 <= i < ms.len() && severity(#[trigger] ms[i].0) >= severity(level) implies ms.filter(
        keep,
    ).contains(ms[i]) by {
        assert(keep(ms[i]));
    }
}

/// The mathematical value of a list of log messages.
pub open spec fn messages_view(v: Seq<(LoggingLevel, String)>) -> Seq<(LoggingLevel, Seq<char>)> {
    v.map_values(|m: (LoggingLevel, String)| (m.0, m.1@))
}

/// The log messages a change of the server's level to `level` sends: an
/// acknowledgement, then one demonstration message per level, each only if
/// it is at least as severe as the new level.
pub fn set_level_messages(level: LoggingLevel) -> (r: Vec<(LoggingLevel, String)>)
    ensures
        messages_view(r@) == filter_by_level(set_level_candidates(level), level),
{
    let mut ack = string_from_str("Log level changed to: ");
    push_level_name(&mut ack, level);
    let candidates: Vec<(LoggingLevel, String)> = vec![
        (LoggingLevel::Info, ack),
        (LoggingLevel::Debug, string_from_str("This is a debug message")),
        (LoggingLevel::Info, string_from_str("This is an info message")),
        (LoggingLevel::Warning, string_from_str("This is a warning message")),
        (LoggingLevel::Error, string_from_str("This is an error message")),
    ];
    let ghost cv = messages_view(candidates@);
    assert(cv =~= set_level_candidates(level));
    let ghost keep = |m: (LoggingLevel, Seq<char>)| severity(m.0) >= severity(level);
    let mut r: Vec<(LoggingLevel, String)> = Vec::new();
    let mut i: usize = 0;
    while i < candidates.len()
        invariant
            i <= candidates@.len(),
            cv == messages_view(candidates@),
            keep == (|m: (LoggingLevel, Seq<char>)| severity(m.0) >= severity(level)),
            messages_view(r@) == cv.subrange(0, i as int).filter(keep),
        decreases candidates@.len() - i,
    {
        let (l, m) = (candidates[i].0, &candidates[i].1);
        proof {
            let next = cv.subrange(0, i + 1);
            assert(next.drop_last() =~= cv.subrange(0, i as int));
            reveal(Seq::filter);
        }
        if should_log_message(l, level) {
            let ghost before = messages_view(r@);
            r.push((l, m.clone()));
            assert(messages_view(r@) =~= before.push((l, m@)));
        }
        i = i + 1;
    }
    assert(cv.subrange(0, candidates@.len() as int) =~= cv);
    r
}

// ---------------------------------------------------------------------------
// Tools, prompts and resources the test server offers
// ---------------------------------------------------------------------------

/// What calling a tool on the test server gives: its only tool, `echo`,
/// echoes its `message` argument; any other tool is unknown.
pub open spec fn echo_spec(name: Seq<char>, message: Option<Seq<char>>) -> Result<Seq<char>, Seq<char>> {
    if name == "echo"@ {
        Ok(
            "Echo: "@ + match message {
                Some(m) => m,
                None => "No message provided"@,
            },
        )
    } else {
        Err("Unknown tool: "@ + name)
    }
}

/// The mathematical value of a `Result<String, String>`.
pub open spec fn text_result_view(r: Result<String, String>) -> Result<Seq<char>, Seq<char>> {
    match r {
        Ok(s) => Ok(s@),
        Err(e) => Err(e@),
    }
}

/// Runs a tool of the test server; the error is the message of the
/// tool-not-found error.
pub fn call_test_tool(name: &str, message: &Option<String>) -> (r: Result<String, String>)
    ensures
        text_result_view(r) == echo_spec(
            name@,
            match *message {
                Some(m) => Some(m@),
                None => None,
            },
        ),
{
    if str_eq(name, "echo") {
        let mut s = string_from_str("Echo: ");
        match message {
            Some(m) => push_str(&mut s, m.as_str()),
            None => push_str(&mut s, "No message provided"),
        }
        Ok(s)
    } else {
        let mut e = string_from_str("Unknown tool: ");
        push_str(&mut e, name);
        Err(e)
    }
}

/// The value of the first argument named `key`.
pub open spec fn arg_value(args: Seq<(Seq<char>, Seq<char>)>, key: Seq<char>) -> Option<Seq<char>>
    decreases args.len(),
{
    if args.len() == 0 {
        None
    } else if args[0].0 == key {
        Some(args[0].1)
    } else {
        arg_value(args.drop_first(), key)
    }
}

/// The mathematical value of a list of prompt arguments.
pub open spec fn args_view(v: Seq<(String, String)>) -> Seq<(Seq<char>, Seq<char>)> {
    v.map_values(|p: (String, String)| (p.0@, p.1@))
}

fn lookup(args: &Vec<(String, String)>, key: &str, default: &str) -> (r: String)
    ensures
        r@ == match arg_value(args_view(args@), key@) {
            Some(v) => v,
            None => default@,
        },
{
    let ghost all = args_view(args@);
    let mut i: usize = 0;
    assert(all.skip(0) =~= all);
    while i < args.len()
        invariant
            i <= args@.len(),
            all == args_view(args@),
            arg_value(all, key@) == arg_value(all.skip(i as int), key@),
        decreases args@.len() - i,
    {
        assert(all.skip(i as int).drop_first() =~= all.skip(i + 1));
        assert(all.skip(i as int)[0] == (args@[i as int].0@, args@[i as int].1@));
        if str_eq(args[i].0.as_str(), key) {
            return args[i].1.clone();
        }
        i = i + 1;
    }
    string_from_str(default)
}

/// A prompt rendered by the test server: its description and the text of
/// its one user message.
pub struct RenderedPrompt {
    pub description: String,
    pub message: String,
}

/// The greeting for `name` in `style`.
pub open spec fn greeting_spec(name: Seq<char>, style: Seq<char>) -> Seq<char> {
    if style == "formal"@ {
        "Good day, "@ + name + ". How may I assist you today?"@
    } else {
        "Hey "@ + name + "! What's up?"@
    }
}

/// The request to review `code` written in `language`.
pub open spec fn review_spec(language: Seq<char>, code: Seq<char>) -> Seq<char> {
    "Please review the following "@ + language + " code:\n\n```"@ + language + "\n"@ + code
        + "\n```\n\nProvide feedback on code quality, potential bugs, and improvements."@
}

/// What the test server's prompts give: a greeting (by default for
/// `World`, casual) and a code review request (by default of `unknown`
/// code, empty); any other prompt is unknown.
pub open spec fn prompt_spec(name: Seq<char>, args: Seq<(Seq<char>, Seq<char>)>) -> Result<
    (Seq<char>, Seq<char>),
    Seq<char>,
> {
    let or = |k: Seq<char>, d: Seq<char>|
        match arg_value(args, k) {
            Some(v) => v,
            None => d,
        };
    if name == "greeting"@ {
        Ok(("A personalized greeting"@, greeting_spec(or("name"@, "World"@), or("style"@, "casual"@))))
    } else if name == "code_review"@ {
        Ok(("Code review request"@, review_spec(or("language"@, "unknown"@), or("code"@, ""@))))
    } else {
        Err("Unknown prompt: "@ + name)
    }
}

/// Renders a prompt of the test server; the error is the message of the
/// method-not-found error.
pub fn render_test_prompt(name: &str, args: &Vec<(String, String)>) -> (r: Result<RenderedPrompt, String>)
    ensures
        match r {
            Ok(p) => prompt_spec(name@, args_view(args@)) == Ok::<(Seq<char>, Seq<char>), Seq<char>>(
                (p.description@, p.message@),
            ),
            Err(e) => prompt_spec(name@, args_view(args@)) == Err::<(Seq<char>, Seq<char>), Seq<char>>(
                e@,
            ),
        },
{
    if str_eq(name, "greeting") {
        let who = lookup(args, "name", "World");
        let style = lookup(args, "style", "casual");
        let message = if str_eq(style.as_str(), "formal") {
            let mut m = string_from_str("Good day, ");
            push_str(&mut m, who.as_str());
            push_str(&mut m, ". How may I assist you today?");
            m
        } else {
            let mut m = string_from_str("Hey ");
            push_str(&mut m, who.as_str());
            push_str(&mut m, "! What's up?");
            m
        };
        Ok(RenderedPrompt { description: string_from_str("A personalized greeting"), message })
    } else if str_eq(name, "code_review") {
        let language = lookup(args, "language", "unknown");
        let code = lookup(args, "code", "");
        let mut m = string_from_str("Please review the following ");
        push_str(&mut m, language.as_str());
        push_str(&mut m, " code:\n\n```");
        push_str(&mut m, language.as_str());
        push_str(&mut m, "\n");
        push_str(&mut m, code.as_str());
        push_str(
            &mut m,
            "\n```\n\nProvide feedback on code quality, potential bugs, and improvements.",
        );
        Ok(RenderedPrompt { description: string_from_str("Code review request"), message: m })
    } else {
        let mut e = string_from_str("Unknown prompt: ");
        push_str(&mut e, name);
        Err(e)
    }
}

/// The resources the test server serves.
#[derive(Debug, Clone, Copy, PartialEq, Eq, Structural)]
pub enum TestResource {
    /// `log://testserver/current`: the server log.
    Log,
    /// `data://testserver/users.json`: sample user data.
    Users,
    /// `metrics://testserver/stats`: request counts.
    Metrics,
}

/// The resource a URI names.
pub open spec fn test_resource_spec(uri: Seq<char>) -> Option<TestResource> {
    if uri == "log://testserver/current"@ {
        Some(TestResource::Log)
    } else if uri == "data://testserver/users.json"@ {
        Some(TestResource::Users)
    } else if uri == "metrics://testserver/stats"@ {
        Some(TestResource::Metrics)
    } else {
        None
    }
}

/// Finds the resource a URI names.
pub fn test_resource(uri: &str) -> (r: Option<TestResource>)
    ensures
        r == test_resource_spec(uri@),
{
    if str_eq(uri, "log://testserver/current") {
        Some(TestResource::Log)
    } else if str_eq(uri, "data://testserver/users.json") {
        Some(TestResource::Users)
    } else if str_eq(uri, "metrics://testserver/stats") {
        Some(TestResource::Metrics)
    } else {
        None
    }
}

/// The text of the metrics resource.
pub open spec fn metrics_spec(requests: u64) -> Seq<char> {
    "Server Metrics\n==============\n\nTotal requests processed: "@ + nat_to_decimal(requests as nat)
        + "\nUptime: N/A\nMemory usage: N/A\nActive connections: 1"@
}

/// Builds the text of the metrics resource.
pub fn metrics_text(requests: u64) -> (s: String)
    ensures
        s@ == metrics_spec(requests),
{
    let mut s = string_from_str("Server Metrics\n==============\n\nTotal requests processed: ");
    let d = u64_to_decimal(requests);
    push_str(&mut s, d.as_str());
    push_str(&mut s, "\nUptime: N/A\nMemory usage: N/A\nActive connections: 1");
    s
}

/// The text of the log resource, with the time of each line.
pub open spec fn log_spec(t1: Seq<char>, t2: Seq<char>, t3: Seq<char>) -> Seq<char> {
    "Test Server Log\n===============\n\n"@ + t1 + " - Server started\n"@ + t2
        + " - Listening for connections\n"@ + t3 + " - Processing requests..."@
}

/// Builds the text of the log resource.
pub fn log_text(t1: &str, t2: &str, t3: &str) -> (s: String)
    ensures
        s@ == log_spec(t1@, t2@, t3@),
{
    let mut s = string_from_str("Test Server Log\n===============\n\n");
    push_str(&mut s, t1);
    push_str(&mut s, " - Server started\n");
    push_str(&mut s, t2);
    push_str(&mut s, " - Listening for connections\n");
    push_str(&mut s, t3);
    push_str(&mut s, " - Processing requests...");
    s
}

/// A user of the sample data.
pub struct User {
    pub id: u32,
    pub name: String,
    pub email: String,
    pub role: String,
    pub last_login: String,
}

/// The sample users, in order.
pub open spec fn sample_users_spec() -> Seq<(u32, Seq<char>, Seq<char>, Seq<char>, Seq<char>)> {
    seq![
        (1u32, "Alice Johnson"@, "alice@example.com"@, "admin"@, "2024-01-15T10:30:00Z"@),
        (2u32, "Bob Smith"@, "bob@example.com"@, "user"@, "2024-01-14T15:45:00Z"@),
        (3u32, "Charlie Davis"@, "charlie@example.com"@, "moderator"@, "2024-01-13T09:00:00Z"@),
    ]
}

/// The sample users the users resource lists.
pub fn sample_users() -> (r: Vec<User>)
    ensures
        r@.map_values(|u: User| (u.id, u.name@, u.email@, u.role@, u.last_login@))
            == sample_users_spec(),
{
    let r = vec![
        User {
            id: 1,
            name: string_from_str("Alice Johnson"),
            email: string_from_str("alice@example.com"),
            role: string_from_str("admin"),
            last_login: string_from_str("2024-01-15T10:30:00Z"),
        },
        User {
            id: 2,
            name: string_from_str("Bob Smith"),
            email: string_from_str("bob@example.com"),
            role: string_from_str("user"),
            last_login: string_from_str("2024-01-14T15:45:00Z"),
        },
        User {
            id: 3,
            name: string_from_str("Charlie Davis"),
            email: string_from_str("charlie@example.com"),
            role: string_from_str("moderator"),
            last_login: string_from_str("2024-01-13T09:00:00Z"),
        },
    ];
    assert(r@.map_values(|u: User| (u.id, u.name@, u.email@, u.role@, u.last_login@))
        =~= sample_users_spec());
    r
}

// ---------------------------------------------------------------------------
// The console
// ---------------------------------------------------------------------------

/// The console's prompt, with the number of connected clients.
pub open spec fn console_prompt_spec(clients: u64) -> Seq<char> {
    "testserver["@ + nat_to_decimal(clients as nat) + "]> "@
}

/// Builds the console's prompt.
pub fn console_prompt(clients: u64) -> (s: String)
    ensures
        s@ == console_prompt_spec(clients),
{
    let mut s = string_from_str("testserver[");
    let d = u64_to_decimal(clients);
    push_str(&mut s, d.as_str());
    push_str(&mut s, "]> ");
    s
}

/// The console's help text.
pub open spec fn console_help_spec() -> Seq<EntryView> {
    seq![
        ev(0, LineView::Heading(1, "Available commands"@)),
        ev(0, LineView::Text("Server Management:"@)),
        ev(0, LineView::Text("  status                     - Show server status and connected clients"@)),
        ev(0, LineView::Text("  clients                    - List all connected clients"@)),
        ev(0, LineView::Text(Seq::empty())),
        ev(0, LineView::Text("Notifications:"@)),
        ev(0, LineView::Text("  notify <level> <message>   - Send log notification to all clients"@)),
        ev(0, LineView::Text("                               Levels: debug, info, warning, error"@)),
        ev(0, LineView::Text("  progress <id> <progress>   - Send progress notification (0.0-1.0)"@)),
        ev(0, LineView::Text("  resource <uri>             - Send resource update notification"@)),
        ev(0, LineView::Text(Seq::empty())),
        ev(0, LineView::Text("Server Configuration:"@)),
        ev(0, LineView::Text("  setlevel <level>           - Set global logging level"@)),
        ev(0, LineView::Text("                               Levels: debug, info, warning, error"@)),
        ev(0, LineView::Text(Seq::empty())),
        ev(0, LineView::Text("General:"@)),
        ev(0, LineView::Text("  help                       - Show this help message"@)),
        ev(0, LineView::Text("  quit/exit                  - Exit the interactive console"@)),
    ]
}

/// Shows the console's help text.
pub fn console_help(out: &mut Vec<Entry>)
    ensures
        entries_view(final(out)@) == entries_view(old(out)@) + console_help_spec(),
{
    let ghost before = entries_view(out@);
    push_heading(out, 0, 1, "Available commands");
    push_text(out, 0, "Server Management:");
    push_text(out, 0, "  status                     - Show server status and connected clients");
    push_text(out, 0, "  clients                    - List all connected clients");
    push_text(out, 0, "");
    push_text(out, 0, "Notifications:");
    push_text(out, 0, "  notify <level> <message>   - Send log notification to all clients");
    push_text(out, 0, "                               Levels: debug, info, warning, error");
    push_text(out, 0, "  progress <id> <progress>   - Send progress notification (0.0-1.0)");
    push_text(out, 0, "  resource <uri>             - Send resource update notification");
    push_text(out, 0, "");
    push_text(out, 0, "Server Configuration:");
    push_text(out, 0, "  setlevel <level>           - Set global logging level");
    push_text(out, 0, "                               Levels: debug, info, warning, error");
    push_text(out, 0, "");
    push_text(out, 0, "General:");
    push_text(out, 0, "  help                       - Show this help message");
    push_text(out, 0, "  quit/exit                  - Exit the interactive console");
    assert(Seq::<char>::empty() =~= ""@) by {
        reveal_strlit("");
    }
    assert(entries_view(out@) =~= before + console_help_spec());
}

/// The server's status.
pub open spec fn status_spec(address: Seq<char>, requests: u64, clients: u64, level: LoggingLevel) -> Seq<EntryView> {
    seq![
        ev(0, LineView::Heading(1, "Server Status"@)),
        ev(0, LineView::Text("Server Address: "@ + address)),
        ev(0, LineView::Text("Total Requests: "@ + nat_to_decimal(requests as nat))),
        ev(0, LineView::Text("Connected Clients: "@ + nat_to_decimal(clients as nat))),
        ev(0, LineView::Text("Current Log Level: "@ + level_debug_name(level))),
    ]
}

fn labelled_number(label: &str, n: u64) -> (s: String)
    ensures
        s@ == label@ + nat_to_decimal(n as nat),
{
    let mut s = string_from_str(label);
    let d = u64_to_decimal(n);
    push_str(&mut s, d.as_str());
    s
}

/// Shows the server's status.
pub fn server_status(out: &mut Vec<Entry>, address: &str, requests: u64, clients: u64, level: LoggingLevel)
    ensures
        entries_view(final(out)@) == entries_view(old(out)@) + status_spec(address@, requests, clients, level),
{
    let ghost before = entries_view(out@);
    push_heading(out, 0, 1, "Server Status");
    let mut a = string_from_str("Server Address: ");
    push_str(&mut a, address);
    push_entry(out, 0, Line::Text(a));
    push_entry(out, 0, Line::Text(labelled_number("Total Requests: ", requests)));
    push_entry(out, 0, Line::Text(labelled_number("Connected Clients: ", clients)));
    let mut l = string_from_str("Current Log Level: ");
    push_level_name(&mut l, level);
    push_entry(out, 0, Line::Text(l));
    assert(entries_view(out@) =~= before + status_spec(address@, requests, clients, level));
}

/// A connected client, as the console lists it.
pub struct ClientSummary {
    pub name: String,
    pub version: String,
    pub address: String,
    /// Whole seconds since it connected.
    pub connected_secs: u64,
}

/// The line for the client at position `i` (from zero).
pub open spec fn client_line_spec(i: nat, c: ClientSummary) -> Seq<char> {
    nat_to_decimal(i + 1) + ". "@ + c.name@ + " v"@ + c.version@ + " from "@ + c.address@
        + " (connected "@ + nat_to_decimal(c.connected_secs as nat) + "s ago)"@
}

/// The lines for the clients.
pub open spec fn client_lines_spec(cs: Seq<ClientSummary>) -> Seq<EntryView>
    decreases cs.len(),
{
    if cs.len() == 0 {
        Seq::empty()
    } else {
        client_lines_spec(cs.drop_last()) + seq![
            ev(0, LineView::Text(client_line_spec((cs.len() - 1) as nat, cs.last()))),
        ]
    }
}

/// The list of connected clients.
pub open spec fn clients_spec(cs: Seq<ClientSummary>) -> Seq<EntryView> {
    seq![ev(0, LineView::Heading(1, "Connected Clients"@))] + if cs.len() == 0 {
        seq![ev(0, LineView::Text("No clients connected"@))]
    } else {
        client_lines_spec(cs)
    }
}

/// Shows the connected clients.
pub fn list_clients(out: &mut Vec<Entry>, clients: &Vec<ClientSummary>)
    ensures
        entries_view(final(out)@) == entries_view(old(out)@) + clients_spec(clients@),
{
    let ghost before = entries_view(out@);
    push_heading(out, 0, 1, "Connected Clients");
    if clients.len() == 0 {
        push_text(out, 0, "No clients connected");
        assert(entries_view(out@) =~= before + clients_spec(clients@));
        return;
    }
    let ghost head = entries_view(out@);
    let mut i: usize = 0;
    while i < clients.len()
        invariant
            i <= clients@.len(),
            clients@.len() > 0,
            entries_view(out@) == head + client_lines_spec(clients@.subrange(0, i as int)),
        decreases clients@.len() - i,
    {
        let c = &clients[i];
        let mut s = u64_to_decimal((i + 1) as u64);
        push_str(&mut s, ". ");
        push_str(&mut s, c.name.as_str());
        push_str(&mut s, " v");
        push_str(&mut s, c.version.as_str());
        push_str(&mut s, " from ");
        push_str(&mut s, c.address.as_str());
        push_str(&mut s, " (connected ");
        let d = u64_to_decimal(c.connected_secs);
        push_str(&mut s, d.as_str());
        push_str(&mut s, "s ago)");
        push_entry(out, 0, Line::Text(s));
        proof {
            let next = clients@.subrange(0, i + 1);
            assert(next.drop_last() =~= clients@.subrange(0, i as int));
        }
        i = i + 1;
    }
    assert(clients@.subrange(0, clients@.len() as int) =~= clients@);
    assert(entries_view(out@) =~= before + clients_spec(clients@));
}

} // verus!
