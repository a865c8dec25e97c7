use vstd::prelude::*;

use crate::mcp::{logging_level_from_name, logging_level_name, LoggingLevel};
use crate::text::{push_str, split_whitespace, split_whitespace_spec, str_eq, string_from_str};

verus! {

// ---------------------------------------------------------------------------
// The MCP REPL
// ---------------------------------------------------------------------------

/// What a line typed into the MCP REPL asks for.
#[derive(Debug, Clone, PartialEq)]
pub enum ReplLine {
    /// Nothing but white space: ignored.
    Empty,
    /// `quit` or `exit`.
    Quit,
    /// `help`.
    Help,
    /// `init`: show the result of the initial handshake again.
    Init,
    /// Anything else: the words of an MCP command, to be parsed as one.
    Command(Vec<String>),
}

/// The mathematical value of a [`ReplLine`].
pub enum ReplLineView {
    Empty,
    Quit,
    Help,
    Init,
    Command(Seq<Seq<char>>),
}

impl View for ReplLine {
    type V = ReplLineView;

    open spec fn view(&self) -> ReplLineView {
        match self {
            ReplLine::Empty => ReplLineView::Empty,
            ReplLine::Quit => ReplLineView::Quit,
            ReplLine::Help => ReplLineView::Help,
            ReplLine::Init => ReplLineView::Init,
            ReplLine::Command(w) => ReplLineView::Command(w.deep_view()),
        }
    }
}

/// A line that is one word and nothing else besides white space is that
/// word; the REPL's own commands are recognised so, the rest are MCP
/// commands split into words.
pub open spec fn repl_line_spec(line: Seq<char>) -> ReplLineView {
    let w = split_whitespace_spec(line);
    if w.len() == 0 {
        ReplLineView::Empty
    } else if w.len() == 1 && (w[0] == "quit"@ || w[0] == "exit"@) {
        ReplLineView::Quit
    } else if w.len() == 1 && w[0] == "help"@ {
        ReplLineView::Help
    } else if w.len() == 1 && w[0] == "init"@ {
        ReplLineView::Init
    } else {
        ReplLineView::Command(w)
    }
}

/// Decides what a line typed into the MCP REPL asks for.
pub fn classify_repl_line(line: &str) -> (r: ReplLine)
    ensures
        r@ == repl_line_spec(line@),
{
    let words = split_whitespace(line);
    if words.len() == 0 {
        return ReplLine::Empty;
    }
    if words.len() == 1 {
        let w = words[0].as_str();
        if str_eq(w, "quit") || str_eq(w, "exit") {
            return ReplLine::Quit;
        }
        if str_eq(w, "help") {
            return ReplLine::Help;
        }
        if str_eq(w, "init") {
            return ReplLine::Init;
        }
    }
    ReplLine::Command(words)
}

// ---------------------------------------------------------------------------
// The test server's console
// ---------------------------------------------------------------------------

/// What a line typed into the test server's console asks for.
#[derive(Debug, Clone, PartialEq)]
pub enum ConsoleCommand {
    /// Nothing but white space: ignored.
    Empty,
    /// `quit` or `exit`.
    Quit,
    /// `help`.
    Help,
    /// `status`: show the server's state.
    Status,
    /// `clients`: list the connected clients.
    Clients,
    /// `notify <level> <message>`: send a log message to every client.
    Notify { level: LoggingLevel, message: String },
    /// `progress <id> <progress>`: send a progress notification; the
    /// progress is still to be read as a number between 0 and 1.
    Progress { operation: String, progress: String },
    /// `resource <uri>`: send a resource update notification.
    Resource { uri: String },
    /// `setlevel <level>`: change the server's log level.
    SetLevel { level: LoggingLevel },
    /// A known command used wrongly, with the message to show.
    Invalid(String),
    /// A command that does not exist, by its name.
    Unknown(String),
}

/// The mathematical value of a [`ConsoleCommand`].
pub enum ConsoleCommandView {
    Empty,
    Quit,
    Help,
    Status,
    Clients,
    Notify { level: LoggingLevel, message: Seq<char> },
    Progress { operation: Seq<char>, progress: Seq<char> },
    Resource { uri: Seq<char> },
    SetLevel { level: LoggingLevel },
    Invalid(Seq<char>),
    Unknown(Seq<char>),
}

impl View for ConsoleCommand {
    type V = ConsoleCommandView;

    open spec fn view(&self) -> ConsoleCommandView {
        match self {
            ConsoleCommand::Empty => ConsoleCommandView::Empty,
            ConsoleCommand::Quit => ConsoleCommandView::Quit,
            ConsoleCommand::Help => ConsoleCommandView::Help,
            ConsoleCommand::Status => ConsoleCommandView::Status,
            ConsoleCommand::Clients => ConsoleCommandView::Clients,
            ConsoleCommand::Notify { level, message } => ConsoleCommandView::Notify {
                level: *level,
                message: message@,
            },
            ConsoleCommand::Progress { operation, progress } => ConsoleCommandView::Progress {
                operation: operation@,
                progress: progress@,
            },
            ConsoleCommand::Resource { uri } => ConsoleCommandView::Resource { uri: uri@ },
            ConsoleCommand::SetLevel { level } => ConsoleCommandView::SetLevel { level: *level },
            ConsoleCommand::Invalid(m) => ConsoleCommandView::Invalid(m@),
            ConsoleCommand::Unknown(c) => ConsoleCommandView::Unknown(c@),
        }
    }
}

/// The levels the console accepts, by their exact names.
pub open spec fn console_level_spec(w: Seq<char>) -> Option<LoggingLevel> {
    if w == "debug"@ {
        Some(LoggingLevel::Debug)
    } else if w == "info"@ {
        Some(LoggingLevel::Info)
    } else if w == "warning"@ {
        Some(LoggingLevel::Warning)
    } else if w == "error"@ {
        Some(LoggingLevel::Error)
    } else {
        None
    }
}

/// Words joined with single spaces.
pub open spec fn join_words(w: Seq<Seq<char>>) -> Seq<char>
    decreases w.len(),
{
    if w.len() == 0 {
        Seq::empty()
    } else if w.len() == 1 {
        w[0]
    } else {
        join_words(w.drop_last()) + seq![' '] + w.last()
    }
}

/// The message shown for a level the console does not know.
pub open spec fn invalid_level_message() -> Seq<char> {
    "Invalid level. Use: debug, info, warning, error"@
}

/// What a console line asks for: its first word names the command, the
/// following words are its arguments; the message of `notify` is the rest
/// of the words joined by single spaces.
pub open spec fn console_command_spec(line: Seq<char>) -> ConsoleCommandView {
    let w = split_whitespace_spec(line);
    if w.len() == 0 {
        ConsoleCommandView::Empty
    } else if w[0] == "quit"@ || w[0] == "exit"@ {
        ConsoleCommandView::Quit
    } else if w[0] == "help"@ {
        ConsoleCommandView::Help
    } else if w[0] == "status"@ {
        ConsoleCommandView::Status
    } else if w[0] == "clients"@ {
        ConsoleCommandView::Clients
    } else if w[0] == "notify"@ {
        if w.len() < 3 {
            ConsoleCommandView::Invalid("Usage: notify <level> <message>"@)
        } else {
            match console_level_spec(w[1]) {
                Some(level) => ConsoleCommandView::Notify {
                    level,
                    message: join_words(w.subrange(2, w.len() as int)),
                },
                None => ConsoleCommandView::Invalid(invalid_level_message()),
            }
        }
    } else if w[0] == "progress"@ {
        if w.len() < 3 {
            ConsoleCommandView::Invalid("Usage: progress <operation_id> <progress>"@)
        } else {
            ConsoleCommandView::Progress { operation: w[1], progress: w[2] }
        }
    } else if w[0] == "resource"@ {
        if w.len() < 2 {
            ConsoleCommandView::Invalid("Usage: resource <uri>"@)
        } else {
            ConsoleCommandView::Resource { uri: w[1] }
        }
    } else if w[0] == "setlevel"@ {
        if w.len() < 2 {
            ConsoleCommandView::Invalid("Usage: setlevel <level>"@)
        } else {
            match console_level_spec(w[1]) {
                Some(level) => ConsoleCommandView::SetLevel { level },
                None => ConsoleCommandView::Invalid(invalid_level_message()),
            }
        }
    } else {
        ConsoleCommandView::Unknown(w[0])
    }
}

fn console_level(w: &str) -> (r: Option<LoggingLevel>)
    ensures
        r == console_level_spec(w@),
{
    if str_eq(w, "debug") {
        Some(LoggingLevel::Debug)
    } else if str_eq(w, "info") {
        Some(LoggingLevel::Info)
    } else if str_eq(w, "warning") {
        Some(LoggingLevel::Warning)
    } else if str_eq(w, "error") {
        Some(LoggingLevel::Error)
    } else {
        None
    }
}

/// Joins `w[from..]` with single spaces.
fn join_from(w: &Vec<String>, from: usize) -> (s: String)
    requires
        from <= w@.len(),
    ensures
        s@ == join_words(w.deep_view().subrange(from as int, w@.len() as int)),
{
    let ghost all = w.deep_view();
    let mut s = String::new();
    let mut i = from;
    while i < w.len()
        invariant
            from <= i <= w@.len(),
            all == w.deep_view(),
            s@ == join_words(all.subrange(from as int, i as int)),
        decreases w@.len() - i,
    {
        let ghost part = all.subrange(from as int, i as int + 1);
        assert(part.drop_last() =~= all.subrange(from as int, i as int));
        assert(part.last() == w@[i as int]@);
        if i > from {
            push_str(&mut s, " ");
            proof {
                reveal_strlit(" ");
            }
        } else {
            assert(part =~= seq![w@[i as int]@]);
        }
        push_str(&mut s, w[i].as_str());
        i = i + 1;
    }
    s
}

/// Decides what a line typed into the test server's console asks for.
pub fn parse_console_command(line: &str) -> (r: ConsoleCommand)
    ensures
        r@ == console_command_spec(line@),
{
    let w = split_whitespace(line);
    if w.len() == 0 {
        return ConsoleCommand::Empty;
    }
    let ghost ws = w.deep_view();
    assert(ws[0] == w@[0]@);
    let cmd = w[0].as_str();
    if str_eq(cmd, "quit") || str_eq(cmd, "exit") {
        ConsoleCommand::Quit
    } else if str_eq(cmd, "help") {
        ConsoleCommand::Help
    } else if str_eq(cmd, "status") {
        ConsoleCommand::Status
    } else if str_eq(cmd, "clients") {
        ConsoleCommand::Clients
    } else if str_eq(cmd, "notify") {
        if w.len() < 3 {
            ConsoleCommand::Invalid(string_from_str("Usage: notify <level> <message>"))
        } else {
            assert(ws[1] == w@[1]@);
            match console_level(w[1].as_str()) {
                Some(level) => ConsoleCommand::Notify { level, message: join_from(&w, 2) },
                None => ConsoleCommand::Invalid(
                    string_from_str("Invalid level. Use: debug, info, warning, error"),
                ),
            }
        }
    } else if str_eq(cmd, "progress") {
        if w.len() < 3 {
            ConsoleCommand::Invalid(string_from_str("Usage: progress <operation_id> <progress>"))
        } else {
            assert(ws[1] == w@[1]@ && ws[2] == w@[2]@);
            ConsoleCommand::Progress { operation: w[1].clone(), progress: w[2].clone() }
        }
    } else if str_eq(cmd, "resource") {
        if w.len() < 2 {
            ConsoleCommand::Invalid(string_from_str("Usage: resource <uri>"))
        } else {
            assert(ws[1] == w@[1]@);
            ConsoleCommand::Resource { uri: w[1].clone() }
        }
    } else if str_eq(cmd, "setlevel") {
        if w.len() < 2 {
            ConsoleCommand::Invalid(string_from_str("Usage: setlevel <level>"))
        } else {
            assert(ws[1] == w@[1]@);
            match console_level(w[1].as_str()) {
                Some(level) => ConsoleCommand::SetLevel { level },
                None => ConsoleCommand::Invalid(
                    string_from_str("Invalid level. Use: debug, info, warning, error"),
                ),
            }
        }
    } else {
        ConsoleCommand::Unknown(w[0].clone())
    }
}

/// The server's log level once a console command has run: `setlevel`
/// changes it, nothing else does.
pub open spec fn console_level_after(level: LoggingLevel, c: ConsoleCommandView) -> LoggingLevel {
    match c {
        ConsoleCommandView::SetLevel { level: l } => l,
        _ => level,
    }
}

/// The level a console line sets, if it sets one.
pub open spec fn sets_level(line: Seq<char>) -> Option<LoggingLevel> {
    match console_command_spec(line) {
        ConsoleCommandView::SetLevel { level } => Some(level),
        _ => None,
    }
}

/// A console session over `lines`, from log level `level`: each line is run
/// in turn until one asks to quit. The result is the log level at the end
/// and how many lines were read.
pub open spec fn console_run(level: LoggingLevel, lines: Seq<Seq<char>>) -> (LoggingLevel, nat)
    decreases lines.len(),
{
    if lines.len() == 0 {
        (level, 0)
    } else {
        let c = console_command_spec(lines[0]);
        if c is Quit {
            (level, 1)
        } else {
            let rest = console_run(console_level_after(level, c), lines.drop_first());
            (rest.0, rest.1 + 1)
        }
    }
}

/// Runs one line of the test server's console from log level `level`: what
/// the line asks for, the log level afterwards, and whether the console
/// ends.
pub fn console_step(level: LoggingLevel, line: &str) -> (r: (ConsoleCommand, LoggingLevel, bool))
    ensures
        r.0@ == console_command_spec(line@),
        r.1 == console_level_after(level, r.0@),
        r.2 == (r.0@ is Quit),
{
    let c = parse_console_command(line);
    let next = match &c {
        ConsoleCommand::SetLevel { level: l } => *l,
        _ => level,
    };
    let quit = match &c {
        ConsoleCommand::Quit => true,
        _ => false,
    };
    (c, next, quit)
}

/// A console session reads lines up to the first that asks to quit (or all
/// of them) and no further; no other line, whether unknown, misused or with
/// an invalid level, ends it. Afterwards the log level is the one set by
/// the last `setlevel` line read, or the starting level where none was.
pub proof fn lemma_console_run(level: LoggingLevel, lines: Seq<Seq<char>>)
    ensures
        console_run(level, lines).1 <= lines.len(),
        console_run(level, lines).1 < lines.len() ==> console_run(level, lines).1 >= 1
            && console_command_spec(lines[console_run(level, lines).1 - 1]) is Quit,
        forall|i: int|
            0 <= i < console_run(level, lines).1 - 1 ==> !(console_command_spec(#[trigger] lines[i]) is Quit),
        (forall|i: int| 0 <= i < console_run(level, lines).1 ==> #[trigger] sets_level(lines[i]) is None)
            ==> console_run(level, lines).0 == level,
        forall|k: int|
            0 <= k < console_run(level, lines).1 && #[trigger] sets_level(lines[k]) is Some && (forall|j: int|
                k < j < console_run(level, lines).1 ==> #[trigger] sets_level(lines[j]) is None)
                ==> console_run(level, lines).0 == sets_level(lines[k])->0,
    decreases lines.len(),
{
    if lines.len() == 0 {
        return;
    }
    let c = console_command_spec(lines[0]);
    if c is Quit {
        return;
    }
    let next = console_level_after(level, c);
    let rest = lines.drop_first();
    lemma_console_run(next, rest);
    let (l, n) = console_run(level, lines);
    let m = console_run(next, rest).1;
    assert(n == m + 1 && l == console_run(next, rest).0);
    assert forall|i: int| 0 <= i < m + 1 implies #[trigger] lines[i] == if i == 0 {
        lines[0]
    } else {
        rest[i - 1]
    } by {}
    assert forall|i: int| 0 <= i < n - 1 implies !(console_command_spec(#[trigger] lines[i]) is Quit) by {
        if i > 0 {
            assert(lines[i] == rest[i - 1]);
        }
    }
    if n < lines.len() {
        assert(m < rest.len());
        assert(lines[n - 1] == rest[m - 1]);
    }
    if forall|i: int| 0 <= i < n ==> #[trigger] sets_level(lines[i]) is None {
        assert(sets_level(lines[0]) is None);
        assert(next == level);
        assert forall|i: int| 0 <= i < m implies #[trigger] sets_level(rest[i]) is None by {
            assert(lines[i + 1] == rest[i]);
        }
    }
    assert forall|k: int|
        0 <= k < n && #[trigger] sets_level(lines[k]) is Some && (forall|j: int|
            k < j < n ==> #[trigger] sets_level(lines[j]) is None) implies l == sets_level(
        lines[k],
    )->0 by {
        if k == 0 {
            assert forall|i: int| 0 <= i < m implies #[trigger] sets_level(rest[i]) is None by {
                assert(lines[i + 1] == rest[i]);
                assert(sets_level(lines[i + 1]) is None);
            }
            assert(next == sets_level(lines[0])->0);
        } else {
            assert(lines[k] == rest[k - 1]);
            assert forall|j: int| k - 1 < j < m implies #[trigger] sets_level(rest[j]) is None by {
                assert(lines[j + 1] == rest[j]);
                assert(sets_level(lines[j + 1]) is None);
            }
            assert(sets_level(rest[k - 1]) is Some);
        }
    }
}

/// The level words of the console are the names of MCP logging levels: each
/// of debug, info, warning and error denotes the level of that name, and a
/// word the console accepts denotes the level `setlevel` on a client (read
/// with [`logging_level_from_name`]) would give for it.
pub proof fn lemma_console_levels_are_mcp_levels(l: LoggingLevel, w: Seq<char>)
    ensures
        (l == LoggingLevel::Debug || l == LoggingLevel::Info || l == LoggingLevel::Warning || l
            == LoggingLevel::Error) ==> console_level_spec(logging_level_name(l)) == Some(l),
        console_level_spec(w) == Some(l) ==> w == logging_level_name(l) && logging_level_from_name(w)
            == Some(l),
{
    reveal_strlit("debug");
    reveal_strlit("info");
    reveal_strlit("warning");
    reveal_strlit("error");
    crate::mcp::lemma_logging_level_name_roundtrip(l);
    assert("debug"@[0] == 'd' && "info"@[0] == 'i' && "warning"@[0] == 'w' && "error"@[0] == 'e');
}

} // verus!
