use vstd::prelude::*;

use crate::error::{Error, ErrorView};
use crate::text::{
    ascii_lowercase, chars_of, push_str, starts_with, starts_with_at, str_eq, string_from_range,
    string_from_str, to_ascii_lowercase,
};

verus! {

/// The severity of an MCP log message, from least to most severe.
#[derive(Debug, Clone, Copy, PartialEq, Eq, Structural)]
pub enum LoggingLevel {
    Debug,
    Info,
    Notice,
    Warning,
    Error,
    Critical,
    Alert,
    Emergency,
}

/// The position of a level in the order of severity.
pub open spec fn severity(l: LoggingLevel) -> nat {
    match l {
        LoggingLevel::Debug => 0,
        LoggingLevel::Info => 1,
        LoggingLevel::Notice => 2,
        LoggingLevel::Warning => 3,
        LoggingLevel::Error => 4,
        LoggingLevel::Critical => 5,
        LoggingLevel::Alert => 6,
        LoggingLevel::Emergency => 7,
    }
}

/// The name of each MCP logging level.
pub open spec fn logging_level_name(l: LoggingLevel) -> Seq<char> {
    match l {
        LoggingLevel::Debug => "debug"@,
        LoggingLevel::Info => "info"@,
        LoggingLevel::Notice => "notice"@,
        LoggingLevel::Warning => "warning"@,
        LoggingLevel::Error => "error"@,
        LoggingLevel::Critical => "critical"@,
        LoggingLevel::Alert => "alert"@,
        LoggingLevel::Emergency => "emergency"@,
    }
}

/// The level a name denotes, ignoring ASCII case.
pub open spec fn logging_level_from_name(s: Seq<char>) -> Option<LoggingLevel> {
    let l = ascii_lowercase(s);
    if l == "debug"@ {
        Some(LoggingLevel::Debug)
    } else if l == "info"@ {
        Some(LoggingLevel::Info)
    } else if l == "notice"@ {
        Some(LoggingLevel::Notice)
    } else if l == "warning"@ {
        Some(LoggingLevel::Warning)
    } else if l == "error"@ {
        Some(LoggingLevel::Error)
    } else if l == "critical"@ {
        Some(LoggingLevel::Critical)
    } else if l == "alert"@ {
        Some(LoggingLevel::Alert)
    } else if l == "emergency"@ {
        Some(LoggingLevel::Emergency)
    } else {
        None
    }
}

impl LoggingLevel {
    /// The position of this level in the order of severity.
    pub fn severity(&self) -> (n: u8)
        ensures
            n == severity(*self),
    {
        match self {
            LoggingLevel::Debug => 0,
            LoggingLevel::Info => 1,
            LoggingLevel::Notice => 2,
            LoggingLevel::Warning => 3,
            LoggingLevel::Error => 4,
            LoggingLevel::Critical => 5,
            LoggingLevel::Alert => 6,
            LoggingLevel::Emergency => 7,
        }
    }
}

/// Reads the level given to `setlevel`, ignoring ASCII case.
pub fn parse_logging_level(level: &str) -> (r: Result<LoggingLevel, Error>)
    ensures
        match r {
            Ok(l) => logging_level_from_name(level@) == Some(l),
            Err(e) => logging_level_from_name(level@) is None && e@ == ErrorView::Other(
                "Invalid logging level: "@ + level@
                    + ". Valid levels are: debug, info, notice, warning, error, critical, alert, emergency"@,
            ),
        },
{
    let l = to_ascii_lowercase(level);
    let l = l.as_str();
    if str_eq(l, "debug") {
        Ok(LoggingLevel::Debug)
    } else if str_eq(l, "info") {
        Ok(LoggingLevel::Info)
    } else if str_eq(l, "notice") {
        Ok(LoggingLevel::Notice)
    } else if str_eq(l, "warning") {
        Ok(LoggingLevel::Warning)
    } else if str_eq(l, "error") {
        Ok(LoggingLevel::Error)
    } else if str_eq(l, "critical") {
        Ok(LoggingLevel::Critical)
    } else if str_eq(l, "alert") {
        Ok(LoggingLevel::Alert)
    } else if str_eq(l, "emergency") {
        Ok(LoggingLevel::Emergency)
    } else {
        let mut m = string_from_str("Invalid logging level: ");
        push_str(&mut m, level);
        push_str(
            &mut m,
            ". Valid levels are: debug, info, notice, warning, error, critical, alert, emergency",
        );
        Err(Error::Other(m))
    }
}

/// Whether a message at `message_level` passes a filter set to `current_level`:
/// it does when it is at least as severe.
pub fn should_log_message(message_level: LoggingLevel, current_level: LoggingLevel) -> (b: bool)
    ensures
        b == (severity(message_level) >= severity(current_level)),
{
    message_level.severity() >= current_level.severity()
}

/// The MCP logging levels from the least to the most severe.
pub open spec fn mcp_level_order() -> Seq<LoggingLevel> {
    seq![
        LoggingLevel::Debug,
        LoggingLevel::Info,
        LoggingLevel::Notice,
        LoggingLevel::Warning,
        LoggingLevel::Error,
        LoggingLevel::Critical,
        LoggingLevel::Alert,
        LoggingLevel::Emergency,
    ]
}

/// Severity follows the MCP order debug < info < notice < warning < error <
/// critical < alert < emergency strictly, so a message passes a filter
/// exactly when its level comes no earlier in that order than the filter's:
/// an info message never passes a notice filter, and a warning one does.
pub proof fn lemma_severity_follows_mcp_order(i: int, j: int)
    requires
        0 <= i < 8,
        0 <= j < 8,
    ensures
        i < j ==> severity(mcp_level_order()[i]) < severity(mcp_level_order()[j]),
        (severity(mcp_level_order()[i]) >= severity(mcp_level_order()[j])) <==> i >= j,
{
}

/// Reading back the name of a logging level gives that level.
pub proof fn lemma_logging_level_name_roundtrip(l: LoggingLevel)
    ensures
        logging_level_from_name(logging_level_name(l)) == Some(l),
{
    reveal_strlit("debug");
    reveal_strlit("info");
    reveal_strlit("notice");
    reveal_strlit("warning");
    reveal_strlit("error");
    reveal_strlit("critical");
    reveal_strlit("alert");
    reveal_strlit("emergency");
    let n = logging_level_name(l);
    assert(ascii_lowercase(n) =~= n);
    let names = seq![
        "debug"@,
        "info"@,
        "notice"@,
        "warning"@,
        "error"@,
        "critical"@,
        "alert"@,
        "emergency"@,
    ];
    assert forall|i: int, j: int| 0 <= i < j < 8 implies names[i] != names[j] by {
        if names[i][0] == names[j][0] {
            assert(names[i].len() != names[j].len() || names[i][1] != names[j][1]);
        } else {
            assert(names[i][0] != names[j][0]);
        }
    }
    assert(names[0] == "debug"@ && names[1] == "info"@ && names[2] == "notice"@ && names[3]
        == "warning"@ && names[4] == "error"@ && names[5] == "critical"@ && names[6] == "alert"@
        && names[7] == "emergency"@);
}

// ---------------------------------------------------------------------------
// Completion references
// ---------------------------------------------------------------------------

/// What a completion request refers to.
#[derive(Debug, Clone, PartialEq)]
pub enum CompletionReference {
    /// A resource template, by its URI.
    Resource { uri: String },
    /// A prompt, by its name.
    Prompt { name: String },
}

/// The mathematical value of a [`CompletionReference`].
pub enum CompletionReferenceView {
    Resource { uri: Seq<char> },
    Prompt { name: Seq<char> },
}

impl View for CompletionReference {
    type V = CompletionReferenceView;

    open spec fn view(&self) -> CompletionReferenceView {
        match self {
            CompletionReference::Resource { uri } => CompletionReferenceView::Resource { uri: uri@ },
            CompletionReference::Prompt { name } => CompletionReferenceView::Prompt { name: name@ },
        }
    }
}

/// `resource://...` refers to that resource (the whole text is the URI),
/// `prompt://name` to the prompt `name`; anything else is an error.
pub open spec fn completion_reference_spec(reference: Seq<char>) -> Result<
    CompletionReferenceView,
    ErrorView,
> {
    if starts_with(reference, "resource://"@) {
        Ok(CompletionReferenceView::Resource { uri: reference })
    } else if starts_with(reference, "prompt://"@) {
        Ok(
            CompletionReferenceView::Prompt {
                name: reference.subrange("prompt://"@.len() as int, reference.len() as int),
            },
        )
    } else {
        Err(
            ErrorView::Other(
                "Invalid reference format: '"@ + reference
                    + "'. Expected resource:// or prompt:// prefix"@,
            ),
        )
    }
}

/// Reads the reference of a completion request.
pub fn parse_completion_reference(reference: &str) -> (r: Result<CompletionReference, Error>)
    ensures
        match r {
            Ok(c) => completion_reference_spec(reference@) == Ok::<
                CompletionReferenceView,
                ErrorView,
            >(c@),
            Err(e) => completion_reference_spec(reference@) == Err::<
                CompletionReferenceView,
                ErrorView,
            >(e@),
        },
{
    let v = chars_of(reference);
    let n = v.len();
    assert(v@.subrange(0, n as int) =~= reference@);
    if starts_with_at(&v, 0, "resource://") {
        Ok(CompletionReference::Resource { uri: string_from_str(reference) })
    } else if starts_with_at(&v, 0, "prompt://") {
        proof {
            reveal_strlit("prompt://");
        }
        Ok(CompletionReference::Prompt { name: string_from_range(&v, 9, n) })
    } else {
        let mut m = string_from_str("Invalid reference format: '");
        push_str(&mut m, reference);
        push_str(&mut m, "'. Expected resource:// or prompt:// prefix");
        Err(Error::Other(m))
    }
}

// ---------------------------------------------------------------------------
// Tool calls
// ---------------------------------------------------------------------------

/// Where the arguments of a tool call come from.
#[derive(Debug, Clone, Copy, PartialEq, Eq, Structural)]
pub enum ArgumentMode {
    /// `--arg key=value` on the command line.
    CommandLine,
    /// Prompted for, one parameter at a time.
    Interactive,
    /// A JSON object read from standard input.
    Json,
}

/// Exactly one source of arguments must be chosen.
pub open spec fn argument_mode_spec(has_args: bool, interactive: bool, json: bool) -> Result<
    ArgumentMode,
    ErrorView,
> {
    let count = (if has_args { 1int } else { 0 }) + (if interactive { 1int } else { 0 }) + (if json {
        1int
    } else {
        0
    });
    if count == 0 {
        Err(
            ErrorView::Other(
                "Must specify one of: --interactive, --json, or --arg key=value arguments"@,
            ),
        )
    } else if count > 1 {
        Err(ErrorView::Other("Cannot combine --interactive, --json, and --arg modes"@))
    } else if json {
        Ok(ArgumentMode::Json)
    } else if interactive {
        Ok(ArgumentMode::Interactive)
    } else {
        Ok(ArgumentMode::CommandLine)
    }
}

/// Chooses where the arguments of a tool call come from.
pub fn select_argument_mode(has_args: bool, interactive: bool, json: bool) -> (r: Result<
    ArgumentMode,
    Error,
>)
    ensures
        match r {
            Ok(m) => argument_mode_spec(has_args, interactive, json) == Ok::<
                ArgumentMode,
                ErrorView,
            >(m),
            Err(e) => argument_mode_spec(has_args, interactive, json) == Err::<
                ArgumentMode,
                ErrorView,
            >(e@),
        },
{
    let count: u8 = (if has_args { 1 } else { 0 }) + (if interactive { 1 } else { 0 }) + (if json {
        1
    } else {
        0
    });
    if count == 0 {
        Err(
            Error::Other(
                string_from_str(
                    "Must specify one of: --interactive, --json, or --arg key=value arguments",
                ),
            ),
        )
    } else if count > 1 {
        Err(Error::Other(string_from_str("Cannot combine --interactive, --json, and --arg modes")))
    } else if json {
        Ok(ArgumentMode::Json)
    } else if interactive {
        Ok(ArgumentMode::Interactive)
    } else {
        Ok(ArgumentMode::CommandLine)
    }
}

/// The first tool with the given name, or an error naming it.
pub fn find_tool(names: &Vec<String>, tool_name: &str) -> (r: Result<usize, Error>)
    ensures
        match r {
            Ok(i) => i < names@.len() && names@[i as int]@ == tool_name@ && forall|j: int|
                0 <= j < i ==> names@[j]@ != tool_name@,
            Err(e) => (forall|j: int| 0 <= j < names@.len() ==> names@[j]@ != tool_name@) && e@
                == ErrorView::Other("Tool '"@ + tool_name@ + "' not found"@),
        },
{
    let mut i: usize = 0;
    while i < names.len()
        invariant
            i <= names@.len(),
            forall|j: int| 0 <= j < i ==> names@[j]@ != tool_name@,
        decreases names@.len() - i,
    {
        if str_eq(names[i].as_str(), tool_name) {
            return Ok(i);
        }
        i = i + 1;
    }
    let mut m = string_from_str("Tool '");
    push_str(&mut m, tool_name);
    push_str(&mut m, "' not found");
    Err(Error::Other(m))
}

} // verus!
