use vstd::prelude::*;
use vstd::utf8::encode_utf8;

use crate::text::{
    ascii_lowercase, push_char, push_repeated, push_str, spaces, str_eq, string_from_str,
    to_ascii_lowercase,
};

verus! {

/// Log level configuration for the application.
#[derive(Debug, Clone, Copy, PartialEq, Eq, Structural)]
pub enum LogLevel {
    Error,
    Warn,
    Info,
    Debug,
    Trace,
}

/// The name of a log level, as given on the command line and to the log filter.
pub open spec fn log_level_name(l: LogLevel) -> Seq<char> {
    match l {
        LogLevel::Error => "error"@,
        LogLevel::Warn => "warn"@,
        LogLevel::Info => "info"@,
        LogLevel::Debug => "debug"@,
        LogLevel::Trace => "trace"@,
    }
}

/// How `tracing` shows the level of the same name: the name in upper case.
pub open spec fn tracing_name(l: LogLevel) -> Seq<char> {
    match l {
        LogLevel::Error => "ERROR"@,
        LogLevel::Warn => "WARN"@,
        LogLevel::Info => "INFO"@,
        LogLevel::Debug => "DEBUG"@,
        LogLevel::Trace => "TRACE"@,
    }
}

/// The position of a log level in its declaration: from the most severe
/// (`Error`) to the most verbose (`Trace`).
pub open spec fn log_level_rank(l: LogLevel) -> nat {
    match l {
        LogLevel::Error => 0,
        LogLevel::Warn => 1,
        LogLevel::Info => 2,
        LogLevel::Debug => 3,
        LogLevel::Trace => 4,
    }
}

/// The position of a `tracing` level in `tracing`'s own order, in which
/// `ERROR < WARN < INFO < DEBUG < TRACE`, by the text it is shown with.
pub open spec fn tracing_text_rank(t: Seq<char>) -> int {
    if t == "ERROR"@ {
        0
    } else if t == "WARN"@ {
        1
    } else if t == "INFO"@ {
        2
    } else if t == "DEBUG"@ {
        3
    } else if t == "TRACE"@ {
        4
    } else {
        -1
    }
}

/// The log level a name denotes, whatever the case of its ASCII letters.
/// Besides the names of the five levels, the names of the MCP logging levels
/// are accepted, each for the nearest level at or below it in severity:
/// `notice` for info, `warning` for warn, and `critical`, `alert` and
/// `emergency` for error.
pub open spec fn log_level_from_name(s: Seq<char>) -> Option<LogLevel> {
    let l = ascii_lowercase(s);
    if l == "error"@ || l == "critical"@ || l == "alert"@ || l == "emergency"@ {
        Some(LogLevel::Error)
    } else if l == "warn"@ || l == "warning"@ {
        Some(LogLevel::Warn)
    } else if l == "info"@ || l == "notice"@ {
        Some(LogLevel::Info)
    } else if l == "debug"@ {
        Some(LogLevel::Debug)
    } else if l == "trace"@ {
        Some(LogLevel::Trace)
    } else {
        None
    }
}

#[verifier::external_type_specification]
#[verifier::external_body]
pub struct ExTracingLevel(tracing::Level);

/// The `tracing` level that `tracing` reads from a level name.
pub uninterp spec fn tracing_level_named(name: Seq<char>) -> tracing::Level;

/// The text `tracing` shows a level with (`Level::as_str`).
pub uninterp spec fn tracing_level_text(l: tracing::Level) -> Seq<char>;

/// The `tracing` level with the given name.
/// Trusted: calls `<tracing::Level as FromStr>::from_str`, which accepts the
/// names `error`, `warn`, `info`, `debug` and `trace` (in any case) and
/// returns the level of that name (`Level::ERROR` and so on); the result
/// depends on the name alone. `Level::as_str` shows those levels as the name
/// in upper case (`ERROR` and so on).
#[verifier::external_body]
fn tracing_level_from_name(name: &str) -> (l: tracing::Level)
    requires
        name@ == "error"@ || name@ == "warn"@ || name@ == "info"@ || name@ == "debug"@ || name@
            == "trace"@,
    ensures
        l == tracing_level_named(name@),
        name@ == "error"@ ==> tracing_level_text(l) == "ERROR"@,
        name@ == "warn"@ ==> tracing_level_text(l) == "WARN"@,
        name@ == "info"@ ==> tracing_level_text(l) == "INFO"@,
        name@ == "debug"@ ==> tracing_level_text(l) == "DEBUG"@,
        name@ == "trace"@ ==> tracing_level_text(l) == "TRACE"@,
{
    name.parse().unwrap()
}

impl LogLevel {
    /// The level `tracing` uses for this log level: the one of the same name,
    /// which `tracing` shows in upper case.
    pub fn to_tracing_level(&self) -> (l: tracing::Level)
        ensures
            l == tracing_level_named(log_level_name(*self)),
            tracing_level_text(l) == tracing_name(*self),
    {
        proof {
            reveal_strlit("error");
            reveal_strlit("warn");
            reveal_strlit("info");
            reveal_strlit("debug");
            reveal_strlit("trace");
        }
        tracing_level_from_name(self.as_str())
    }

    /// The level as a string for the log filter.
    pub fn as_str(&self) -> (s: &'static str)
        ensures
            s@ == log_level_name(*self),
    {
        match self {
            LogLevel::Error => "error",
            LogLevel::Warn => "warn",
            LogLevel::Info => "info",
            LogLevel::Debug => "debug",
            LogLevel::Trace => "trace",
        }
    }

    /// Reads a log level from its name, ignoring ASCII case.
    pub fn from_name(s: &str) -> (r: Result<LogLevel, String>)
        ensures
            match r {
                Ok(l) => log_level_from_name(s@) == Some(l),
                Err(m) => log_level_from_name(s@) is None && m@ == "Invalid log level: "@ + s@,
            },
    {
        let l = to_ascii_lowercase(s);
        let l = l.as_str();
        if str_eq(l, "error") || str_eq(l, "critical") || str_eq(l, "alert") || str_eq(l, "emergency") {
            Ok(LogLevel::Error)
        } else if str_eq(l, "warn") || str_eq(l, "warning") {
            Ok(LogLevel::Warn)
        } else if str_eq(l, "info") || str_eq(l, "notice") {
            Ok(LogLevel::Info)
        } else if str_eq(l, "debug") {
            Ok(LogLevel::Debug)
        } else if str_eq(l, "trace") {
            Ok(LogLevel::Trace)
        } else {
            let mut m = string_from_str("Invalid log level: ");
            push_str(&mut m, s);
            Err(m)
        }
    }
}

impl std::str::FromStr for LogLevel {
    type Err = String;

    fn from_str(s: &str) -> (r: Result<LogLevel, String>)
        ensures
            match r {
                Ok(l) => log_level_from_name(s@) == Some(l),
                Err(m) => log_level_from_name(s@) is None && m@ == "Invalid log level: "@ + s@,
            },
    {
        LogLevel::from_name(s)
    }
}

/// Reading back the name of a log level gives that level.
pub proof fn lemma_log_level_name_roundtrip(l: LogLevel)
    ensures
        log_level_from_name(log_level_name(l)) == Some(l),
{
    reveal_strlit("error");
    reveal_strlit("critical");
    reveal_strlit("alert");
    reveal_strlit("emergency");
    reveal_strlit("warn");
    reveal_strlit("warning");
    reveal_strlit("info");
    reveal_strlit("notice");
    reveal_strlit("debug");
    reveal_strlit("trace");
    let n = log_level_name(l);
    assert(ascii_lowercase(n) =~= n);
    let names = seq![
        "error"@, "critical"@, "alert"@, "emergency"@, "warn"@, "warning"@, "info"@, "notice"@,
        "debug"@, "trace"@,
    ];
    assert(names[0][0] == 'e' && names[1][0] == 'c' && names[2][0] == 'a' && names[3][0] == 'e'
        && names[4][0] == 'w' && names[5][0] == 'w' && names[6][0] == 'i' && names[7][0] == 'n'
        && names[8][0] == 'd' && names[9][0] == 't');
    assert(names[4].len() != names[5].len());
}

/// The `tracing` levels of the log levels are shown as their names in upper
/// case, and they follow `tracing`'s order in the order the log levels are
/// declared: a level declared later maps to a strictly later `tracing` level.
pub proof fn lemma_tracing_levels_in_order(a: LogLevel, b: LogLevel)
    requires
        log_level_rank(a) < log_level_rank(b),
    ensures
        tracing_text_rank(tracing_name(a)) < tracing_text_rank(tracing_name(b)),
        tracing_text_rank(tracing_name(a)) == log_level_rank(a),
{
    reveal_strlit("ERROR");
    reveal_strlit("WARN");
    reveal_strlit("INFO");
    reveal_strlit("DEBUG");
    reveal_strlit("TRACE");
    let names = seq!["ERROR"@, "WARN"@, "INFO"@, "DEBUG"@, "TRACE"@];
    assert(names[0][0] == 'E' && names[1][0] == 'W' && names[2][0] == 'I' && names[3][0] == 'D'
        && names[4][0] == 'T');
}

/// Every logging level that the command line documents is accepted, in any
/// case of its letters: debug, info, notice, warning, error, critical, alert
/// and emergency, besides warn and trace.
pub proof fn lemma_documented_log_levels_accepted()
    ensures
        log_level_from_name("debug"@) == Some(LogLevel::Debug),
        log_level_from_name("info"@) == Some(LogLevel::Info),
        log_level_from_name("notice"@) == Some(LogLevel::Info),
        log_level_from_name("warning"@) == Some(LogLevel::Warn),
        log_level_from_name("error"@) == Some(LogLevel::Error),
        log_level_from_name("critical"@) == Some(LogLevel::Error),
        log_level_from_name("alert"@) == Some(LogLevel::Error),
        log_level_from_name("emergency"@) == Some(LogLevel::Error),
        log_level_from_name("warn"@) == Some(LogLevel::Warn),
        log_level_from_name("trace"@) == Some(LogLevel::Trace),
{
    reveal_strlit("error");
    reveal_strlit("critical");
    reveal_strlit("alert");
    reveal_strlit("emergency");
    reveal_strlit("warn");
    reveal_strlit("warning");
    reveal_strlit("info");
    reveal_strlit("notice");
    reveal_strlit("debug");
    reveal_strlit("trace");
    assert(ascii_lowercase("debug"@) =~= "debug"@);
    assert(ascii_lowercase("info"@) =~= "info"@);
    assert(ascii_lowercase("notice"@) =~= "notice"@);
    assert(ascii_lowercase("warning"@) =~= "warning"@);
    assert(ascii_lowercase("error"@) =~= "error"@);
    assert(ascii_lowercase("critical"@) =~= "critical"@);
    assert(ascii_lowercase("alert"@) =~= "alert"@);
    assert(ascii_lowercase("emergency"@) =~= "emergency"@);
    assert(ascii_lowercase("warn"@) =~= "warn"@);
    assert(ascii_lowercase("trace"@) =~= "trace"@);
    assert("debug"@[0] == 'd' && "info"@[0] == 'i' && "notice"@[0] == 'n' && "warning"@[0] == 'w'
        && "error"@[0] == 'e' && "critical"@[0] == 'c' && "alert"@[0] == 'a' && "emergency"@[0]
        == 'e' && "warn"@[0] == 'w' && "trace"@[0] == 't');
    assert("warn"@.len() != "warning"@.len());
}

/// The number of bytes that the UTF-8 encoding of `s` takes.
pub open spec fn utf8_len(s: Seq<char>) -> nat {
    encode_utf8(s).len()
}

/// A heading line: the message with a space on each side, centred in
/// `width` columns by spaces, with the odd space on the right. The length
/// of the message is counted in bytes of UTF-8.
pub open spec fn heading_spec(message: Seq<char>, width: nat) -> Seq<char> {
    let m = seq![' '] + message + seq![' '];
    let len = (utf8_len(m) as usize) as nat;
    let pad: nat = if width >= len {
        (width - len) as nat
    } else {
        0
    };
    let left = pad / 2;
    spaces(left) + m + spaces((pad - left) as nat)
}

/// Builds a heading line for a terminal `width` columns wide.
pub fn heading_line(message: &str, width: usize) -> (s: String)
    ensures
        s@ == heading_spec(message@, width as nat),
{
    let mut m = String::new();
    push_char(&mut m, ' ');
    push_str(&mut m, message);
    push_char(&mut m, ' ');
    let len = m.as_str().len();
    let pad = if width >= len { width - len } else { 0 };
    let left = pad / 2;
    let right = pad - left;
    assert(m@ =~= seq![' '] + message@ + seq![' ']);
    let mut s = String::new();
    push_repeated(&mut s, ' ', left);
    push_str(&mut s, m.as_str());
    push_repeated(&mut s, ' ', right);
    assert(Seq::new(left as nat, |i: int| ' ') =~= spaces(left as nat));
    assert(Seq::new(right as nat, |i: int| ' ') =~= spaces(right as nat));
    assert(s@ =~= heading_spec(message@, width as nat));
    s
}

} // verus!
