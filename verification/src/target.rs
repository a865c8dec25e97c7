use vstd::prelude::*;

use crate::auth::{is_auth_name_char, validate_auth_name, validate_auth_name_spec};
use crate::error::{Error, ErrorView};
use crate::shell::{shell_join, shell_join_spec, shell_split, shell_split_spec};
use crate::text::{
    all_digits, is_digit, lemma_find_char_is, lemma_find_char_none, lemma_nat_to_decimal,
    lemma_parse_u16_of_decimal, lemma_rfind_char_is, lemma_rfind_char_none, push_char, push_decimal, chars_of, contains_in, find_char, find_in, nat_to_decimal, parse_u16, parse_u16_spec, push_str,
    rfind_char, rfind_in, starts_with, starts_with_at, string_from_range, string_from_str,
};

verus! {

/// Represents a connection target for MCP servers.
#[derive(Debug, Clone, PartialEq)]
pub enum Target {
    /// TCP connection target.
    Tcp {
        /// Hostname or IP address.
        host: String,
        /// Port number.
        port: u16,
    },
    /// Stdio connection target (subprocess).
    Stdio {
        /// Command to execute.
        command: String,
        /// Arguments for the command.
        args: Vec<String>,
    },
    /// HTTP connection target.
    Http {
        /// Hostname or IP address.
        host: String,
        /// Port number.
        port: u16,
        /// Optional URL path.
        path: Option<String>,
    },
    /// HTTPS connection target.
    Https {
        /// Hostname or IP address.
        host: String,
        /// Port number.
        port: u16,
        /// Optional URL path.
        path: Option<String>,
    },
    /// Auth target (references a stored authentication entry).
    Auth {
        /// Name of the stored auth entry.
        name: String,
    },
}

/// The mathematical value of a [`Target`].
pub enum TargetView {
    Tcp { host: Seq<char>, port: u16 },
    Stdio { command: Seq<char>, args: Seq<Seq<char>> },
    Http { host: Seq<char>, port: u16, path: Option<Seq<char>> },
    Https { host: Seq<char>, port: u16, path: Option<Seq<char>> },
    Auth { name: Seq<char> },
}

impl View for Target {
    type V = TargetView;

    open spec fn view(&self) -> TargetView {
        match self {
            Target::Tcp { host, port } => TargetView::Tcp { host: host@, port: *port },
            Target::Stdio { command, args } => TargetView::Stdio {
                command: command@,
                args: args.deep_view(),
            },
            Target::Http { host, port, path } => TargetView::Http {
                host: host@,
                port: *port,
                path: path.deep_view(),
            },
            Target::Https { host, port, path } => TargetView::Https {
                host: host@,
                port: *port,
                path: path.deep_view(),
            },
            Target::Auth { name } => TargetView::Auth { name: name@ },
        }
    }
}

/// The mathematical value of a parse result.
pub open spec fn target_result_view(r: Result<Target, Error>) -> Result<TargetView, ErrorView> {
    match r {
        Ok(t) => Ok(t@),
        Err(e) => Err(e@),
    }
}

// ---------------------------------------------------------------------------
// What parsing gives
// ---------------------------------------------------------------------------

/// A format error with the given message.
pub open spec fn format_err(m: Seq<char>) -> Result<TargetView, ErrorView> {
    Err(ErrorView::Format(m))
}

/// Parses a port, or reports it as invalid.
pub open spec fn port_or_err(p: Seq<char>) -> Result<u16, ErrorView> {
    match parse_u16_spec(p) {
        Some(port) => Ok(port),
        None => Err(ErrorView::Format("Invalid port: "@ + p)),
    }
}

/// TCP targets: `host:port`, `:port` (any interface), or `[ipv6]:port`.
pub open spec fn parse_tcp_spec(s: Seq<char>) -> Result<TargetView, ErrorView> {
    if s.len() == 0 {
        format_err("Empty host specification"@)
    } else if s[0] == ':' && !starts_with(s, "::"@) {
        let p = s.drop_first();
        if p.len() == 0 {
            format_err("Empty port specification"@)
        } else {
            match port_or_err(p) {
                Ok(port) => Ok(TargetView::Tcp { host: "0.0.0.0"@, port }),
                Err(e) => Err(e),
            }
        }
    } else if s[0] == '[' {
        match find_char(s, ']') {
            Some(end) => {
                let host = s.subrange(1, end);
                let rest = s.subrange(end + 1, s.len() as int);
                if rest.len() == 0 {
                    format_err("Port is required for TCP targets"@)
                } else if rest[0] == ':' {
                    match port_or_err(rest.drop_first()) {
                        Ok(port) => Ok(TargetView::Tcp { host, port }),
                        Err(e) => Err(e),
                    }
                } else {
                    format_err("Invalid character after IPv6 address"@)
                }
            },
            None => format_err("Unclosed IPv6 address bracket"@),
        }
    } else {
        match rfind_char(s, ':') {
            Some(c) => {
                let host = s.subrange(0, c);
                let p = s.subrange(c + 1, s.len() as int);
                if host.contains(':') {
                    format_err("Port is required for TCP targets"@)
                } else if p.len() == 0 {
                    format_err("Empty port specification"@)
                } else {
                    match port_or_err(p) {
                        Ok(port) => Ok(TargetView::Tcp { host, port }),
                        Err(e) => Err(e),
                    }
                }
            },
            None => format_err("Port is required for TCP targets"@),
        }
    }
}

/// The stdio target a command line gives once it is split into words: the
/// first word is the command and the rest are its arguments.
pub open spec fn stdio_from_split(split: Result<Seq<Seq<char>>, Seq<char>>) -> Result<TargetView, ErrorView> {
    match split {
        Err(e) => format_err("Failed to parse command: "@ + e),
        Ok(parts) => if parts.len() == 0 {
            format_err("Empty command after parsing"@)
        } else {
            Ok(TargetView::Stdio { command: parts[0], args: parts.drop_first() })
        },
    }
}

/// The mathematical value of the outcome of splitting a command line.
pub open spec fn split_view(r: Result<Vec<String>, String>) -> Result<Seq<Seq<char>>, Seq<char>> {
    match r {
        Ok(w) => Ok(w.deep_view()),
        Err(e) => Err(e@),
    }
}

/// Stdio targets: a command line, split into words as a shell would.
pub open spec fn parse_stdio_spec(s: Seq<char>) -> Result<TargetView, ErrorView> {
    if s.len() == 0 {
        format_err("Empty command specification"@)
    } else {
        stdio_from_split(shell_split_spec(s))
    }
}

/// Builds an HTTP (`secure == false`) or HTTPS target.
pub open spec fn http_target(secure: bool, host: Seq<char>, port: u16, path: Option<Seq<char>>) -> TargetView {
    if secure {
        TargetView::Https { host, port, path }
    } else {
        TargetView::Http { host, port, path }
    }
}

/// The path taken from `s[start..]`: none when it is just `/`.
pub open spec fn path_from(s: Seq<char>, start: int) -> Option<Seq<char>> {
    let p = s.subrange(start, s.len() as int);
    if p == seq!['/'] {
        None
    } else {
        Some(p)
    }
}

/// Where the host-and-port part of an HTTP target ends and its path begins:
/// at the first `/`, not looking inside a bracketed IPv6 address.
pub open spec fn http_path_start(s: Seq<char>) -> Option<int> {
    if s.len() > 0 && s[0] == '[' {
        match find_char(s, ']') {
            Some(be) => match find_char(s.subrange(be + 1, s.len() as int), '/') {
                Some(sp) => Some(be + 1 + sp),
                None => None,
            },
            None => None,
        }
    } else {
        find_char(s, '/')
    }
}

/// The host and port of an HTTP or HTTPS target, `hp`, once its path is split off.
pub open spec fn parse_http_host_spec(
    hp: Seq<char>,
    default_port: u16,
    secure: bool,
    path: Option<Seq<char>>,
) -> Result<TargetView, ErrorView> {
    if hp.len() > 0 && hp[0] == '[' {
        match find_char(hp, ']') {
            Some(end) => {
                let host = hp.subrange(1, end);
                let rest = hp.subrange(end + 1, hp.len() as int);
                if rest.len() == 0 {
                    Ok(http_target(secure, host, default_port, path))
                } else if rest[0] == ':' {
                    match port_or_err(rest.drop_first()) {
                        Ok(port) => Ok(http_target(secure, host, port, path)),
                        Err(e) => Err(e),
                    }
                } else {
                    format_err("Invalid character after IPv6 address"@)
                }
            },
            None => format_err("Unclosed IPv6 address bracket"@),
        }
    } else {
        match rfind_char(hp, ':') {
            Some(c) => {
                let host = hp.subrange(0, c);
                let p = hp.subrange(c + 1, hp.len() as int);
                if host.contains(':') {
                    Ok(http_target(secure, hp, default_port, path))
                } else if p.len() == 0 {
                    format_err("Empty port specification"@)
                } else {
                    match port_or_err(p) {
                        Ok(port) => Ok(http_target(secure, host, port, path)),
                        Err(e) => Err(e),
                    }
                }
            },
            None => Ok(http_target(secure, hp, default_port, path)),
        }
    }
}

/// HTTP and HTTPS targets: `host`, `host:port` or `[ipv6]` / `[ipv6]:port`,
/// then an optional path; the port defaults to `default_port`.
pub open spec fn parse_http_common_spec(s: Seq<char>, default_port: u16, secure: bool) -> Result<
    TargetView,
    ErrorView,
> {
    if s.len() == 0 {
        format_err("Empty host specification"@)
    } else {
        match http_path_start(s) {
            Some(ps) => parse_http_host_spec(s.subrange(0, ps), default_port, secure, path_from(s, ps)),
            None => parse_http_host_spec(s, default_port, secure, None),
        }
    }
}

/// Auth targets: the name of a stored authentication entry.
pub open spec fn parse_auth_spec(s: Seq<char>) -> Result<TargetView, ErrorView> {
    if s.len() == 0 {
        format_err("Empty auth name"@)
    } else {
        match validate_auth_name_spec(s) {
            Err(e) => Err(e),
            Ok(()) => Ok(TargetView::Auth { name: s }),
        }
    }
}

/// What [`Target::parse`] gives: the scheme selects the kind of target, and
/// text without a known scheme is a TCP target.
pub open spec fn parse_spec(s: Seq<char>) -> Result<TargetView, ErrorView> {
    if starts_with(s, "tcp://"@) {
        parse_tcp_spec(s.subrange(6, s.len() as int))
    } else if starts_with(s, "cmd://"@) {
        parse_stdio_spec(s.subrange(6, s.len() as int))
    } else if starts_with(s, "https://"@) {
        parse_http_common_spec(s.subrange(8, s.len() as int), 443, true)
    } else if starts_with(s, "http://"@) {
        parse_http_common_spec(s.subrange(7, s.len() as int), 80, false)
    } else if starts_with(s, "auth://"@) {
        parse_auth_spec(s.subrange(7, s.len() as int))
    } else {
        parse_tcp_spec(s)
    }
}

// ---------------------------------------------------------------------------
// What displaying gives
// ---------------------------------------------------------------------------

/// Whether a host is an IPv6 address written without brackets.
pub open spec fn is_bare_ipv6(host: Seq<char>) -> bool {
    host.contains(':') && !(host.len() > 0 && host[0] == '[')
}

/// The text of an optional path.
pub open spec fn path_text(path: Option<Seq<char>>) -> Seq<char> {
    match path {
        Some(p) => p,
        None => Seq::empty(),
    }
}

/// `scheme://host[:port]path`, with the port left out when it is the default
/// and IPv6 hosts put in brackets.
pub open spec fn http_display(
    scheme: Seq<char>,
    host: Seq<char>,
    port: u16,
    default_port: u16,
    path: Option<Seq<char>>,
) -> Seq<char> {
    let h = if is_bare_ipv6(host) {
        seq!['['] + host + seq![']']
    } else {
        host
    };
    let p = if port == default_port {
        Seq::empty()
    } else {
        seq![':'] + nat_to_decimal(port as nat)
    };
    scheme + h + p + path_text(path)
}

/// The text a target is displayed with.
pub open spec fn display_spec(t: TargetView) -> Seq<char> {
    match t {
        TargetView::Tcp { host, port } => if is_bare_ipv6(host) {
            "tcp://"@ + seq!['['] + host + seq![']', ':'] + nat_to_decimal(port as nat)
        } else {
            "tcp://"@ + host + seq![':'] + nat_to_decimal(port as nat)
        },
        TargetView::Stdio { command, args } => if args.len() == 0 {
            "cmd://"@ + command
        } else {
            "cmd://"@ + command + seq![' '] + shell_join_spec(args)
        },
        TargetView::Http { host, port, path } => http_display("http://"@, host, port, 80, path),
        TargetView::Https { host, port, path } => http_display("https://"@, host, port, 443, path),
        TargetView::Auth { name } => "auth://"@ + name,
    }
}

// ---------------------------------------------------------------------------
// Parsing
// ---------------------------------------------------------------------------

fn format_error(m: &str) -> (e: Error)
    ensures
        e@ == ErrorView::Format(m@),
{
    Error::Format(string_from_str(m))
}

/// The port in `v[lo..hi]`, or the error naming it.
fn port_in(v: &Vec<char>, lo: usize, hi: usize) -> (r: Result<u16, Error>)
    requires
        lo <= hi <= v@.len(),
    ensures
        match r {
            Ok(p) => port_or_err(v@.subrange(lo as int, hi as int)) == Ok::<u16, ErrorView>(p),
            Err(e) => port_or_err(v@.subrange(lo as int, hi as int)) == Err::<u16, ErrorView>(e@),
        },
{
    match parse_u16(v, lo, hi) {
        Some(p) => Ok(p),
        None => {
            let mut m = string_from_str("Invalid port: ");
            let p = string_from_range(v, lo, hi);
            push_str(&mut m, p.as_str());
            Err(Error::Format(m))
        },
    }
}

impl Target {
    /// Parses a target specification such as `host:port`, `tcp://host:port`,
    /// `http://host[:port][/path]`, `https://...`, `cmd://program args` or
    /// `auth://name`.
    pub fn parse(input: &str) -> (r: Result<Self, Error>)
        ensures
            target_result_view(r) == parse_spec(input@),
    {
        let v = chars_of(input);
        let n = v.len();
        assert(v@.subrange(0, n as int) =~= input@);
        if starts_with_at(&v, 0, "tcp://") {
            proof { reveal_strlit("tcp://"); }
            Self::parse_tcp(&v, 6)
        } else if starts_with_at(&v, 0, "cmd://") {
            proof { reveal_strlit("cmd://"); }
            Self::parse_stdio(&v, 6)
        } else if starts_with_at(&v, 0, "https://") {
            proof { reveal_strlit("https://"); }
            Self::parse_https(&v, 8)
        } else if starts_with_at(&v, 0, "http://") {
            proof { reveal_strlit("http://"); }
            Self::parse_http(&v, 7)
        } else if starts_with_at(&v, 0, "auth://") {
            proof { reveal_strlit("auth://"); }
            Self::parse_auth(&v, 7)
        } else {
            assert(v@.subrange(0, n as int) =~= v@);
            Self::parse_tcp(&v, 0)
        }
    }

    /// Parses the TCP target specification `v[lo..]`.
    fn parse_tcp(v: &Vec<char>, lo: usize) -> (r: Result<Self, Error>)
        requires
            lo <= v@.len(),
        ensures
            target_result_view(r) == parse_tcp_spec(v@.subrange(lo as int, v@.len() as int)),
    {
        let n = v.len();
        let ghost s = v@.subrange(lo as int, n as int);
        if lo == n {
            return Err(format_error("Empty host specification"));
        }
        if v[lo] == ':' && !starts_with_at(v, lo, "::") {
            assert(s.drop_first() =~= v@.subrange(lo + 1, n as int));
            if lo + 1 == n {
                return Err(format_error("Empty port specification"));
            }
            return match port_in(v, lo + 1, n) {
                Ok(port) => Ok(Target::Tcp { host: string_from_str("0.0.0.0"), port }),
                Err(e) => Err(e),
            };
        }
        if v[lo] == '[' {
            match find_in(v, lo, n, ']') {
                Some(end) => {
                    assert(find_char(s, ']') == Some(end - lo));
                    let host = string_from_range(v, lo + 1, end);
                    assert(host@ =~= s.subrange(1, end - lo));
                    assert(s.subrange(end - lo + 1, s.len() as int) =~= v@.subrange(end + 1, n as int));
                    if end + 1 == n {
                        return Err(format_error("Port is required for TCP targets"));
                    } else if v[end + 1] == ':' {
                        assert(s.subrange(end - lo + 1, s.len() as int).drop_first() =~= v@.subrange(end + 2, n as int));
                        return match port_in(v, end + 2, n) {
                            Ok(port) => Ok(Target::Tcp { host, port }),
                            Err(e) => Err(e),
                        };
                    } else {
                        return Err(format_error("Invalid character after IPv6 address"));
                    }
                },
                None => {
                    return Err(format_error("Unclosed IPv6 address bracket"));
                },
            }
        }
        assert(s[0] == v@[lo as int]);
        match rfind_in(v, lo, n, ':') {
            Some(c) => {
                assert(rfind_char(s, ':') == Some(c - lo));
                assert(s.subrange(0, c - lo) =~= v@.subrange(lo as int, c as int));
                assert(s.subrange(c - lo + 1, s.len() as int) =~= v@.subrange(c + 1, n as int));
                if contains_in(v, lo, c, ':') {
                    Err(format_error("Port is required for TCP targets"))
                } else if c + 1 == n {
                    Err(format_error("Empty port specification"))
                } else {
                    let host = string_from_range(v, lo, c);
                    match port_in(v, c + 1, n) {
                        Ok(port) => Ok(Target::Tcp { host, port }),
                        Err(e) => Err(e),
                    }
                }
            },
            None => Err(format_error("Port is required for TCP targets")),
        }
    }

    /// Parses the stdio target specification `v[lo..]`.
    fn parse_stdio(v: &Vec<char>, lo: usize) -> (r: Result<Self, Error>)
        requires
            lo <= v@.len(),
        ensures
            target_result_view(r) == parse_stdio_spec(v@.subrange(lo as int, v@.len() as int)),
    {
        let n = v.len();
        if lo == n {
            return Err(format_error("Empty command specification"));
        }
        let line = string_from_range(v, lo, n);
        Self::stdio_from_words(shell_split(line.as_str()))
    }

    /// Builds a stdio target from the outcome of splitting its command line
    /// into words: the first word is the command, the rest its arguments.
    pub fn stdio_from_words(split: Result<Vec<String>, String>) -> (r: Result<Self, Error>)
        ensures
            target_result_view(r) == stdio_from_split(split_view(split)),
    {
        match split {
            Err(e) => {
                let mut m = string_from_str("Failed to parse command: ");
                push_str(&mut m, e.as_str());
                Err(Error::Format(m))
            },
            Ok(parts) => {
                if parts.len() == 0 {
                    return Err(format_error("Empty command after parsing"));
                }
                let mut parts = parts;
                let ghost all = parts.deep_view();
                let command = parts.remove(0);
                assert(parts.deep_view() =~= all.drop_first());
                Ok(Target::Stdio { command, args: parts })
            },
        }
    }

    /// Parses the HTTP target specification `v[lo..]`.
    fn parse_http(v: &Vec<char>, lo: usize) -> (r: Result<Self, Error>)
        requires
            lo <= v@.len(),
        ensures
            target_result_view(r) == parse_http_common_spec(
                v@.subrange(lo as int, v@.len() as int),
                80,
                false,
            ),
    {
        Self::parse_http_common(v, lo, 80, false)
    }

    /// Parses the HTTPS target specification `v[lo..]`.
    fn parse_https(v: &Vec<char>, lo: usize) -> (r: Result<Self, Error>)
        requires
            lo <= v@.len(),
        ensures
            target_result_view(r) == parse_http_common_spec(
                v@.subrange(lo as int, v@.len() as int),
                443,
                true,
            ),
    {
        Self::parse_http_common(v, lo, 443, true)
    }

    fn make_http(secure: bool, host: String, port: u16, path: Option<String>) -> (t: Self)
        ensures
            t@ == http_target(secure, host@, port, path.deep_view()),
    {
        if secure {
            Target::Https { host, port, path }
        } else {
            Target::Http { host, port, path }
        }
    }

    /// Common parsing logic for HTTP and HTTPS targets.
    fn parse_http_common(v: &Vec<char>, lo: usize, default_port: u16, secure: bool) -> (r: Result<
        Self,
        Error,
    >)
        requires
            lo <= v@.len(),
        ensures
            target_result_view(r) == parse_http_common_spec(
                v@.subrange(lo as int, v@.len() as int),
                default_port,
                secure,
            ),
    {
        let n = v.len();
        let ghost s = v@.subrange(lo as int, n as int);
        if lo == n {
            return Err(format_error("Empty host specification"));
        }
        let (hp_end, path) = Self::split_http_path(v, lo);
        proof {
            match http_path_start(s) {
                Some(ps) => { assert(v@.subrange(lo as int, hp_end as int) =~= s.subrange(0, ps)); },
                None => { assert(v@.subrange(lo as int, hp_end as int) =~= s); },
            }
        }
        Self::parse_http_host(v, lo, hp_end, default_port, secure, path)
    }

    /// Where the path of the HTTP target `v[lo..]` begins, and the path itself.
    fn split_http_path(v: &Vec<char>, lo: usize) -> (r: (usize, Option<String>))
        requires
            lo < v@.len(),
        ensures
            lo <= r.0 <= v@.len(),
            match http_path_start(v@.subrange(lo as int, v@.len() as int)) {
                Some(ps) => r.0 == lo + ps && r.1.deep_view() == path_from(
                    v@.subrange(lo as int, v@.len() as int),
                    ps,
                ),
                None => r.0 == v@.len() && r.1 is None,
            },
    {
        let n = v.len();
        let ghost s = v@.subrange(lo as int, n as int);
        assert(s[0] == v@[lo as int]);
        let path_start: Option<usize> = if v[lo] == '[' {
            match find_in(v, lo, n, ']') {
                Some(be) => {
                    assert(find_char(s, ']') == Some(be - lo));
                    assert(s.subrange(be - lo + 1, s.len() as int) =~= v@.subrange(be + 1, n as int));
                    find_in(v, be + 1, n, '/')
                },
                None => {
                    assert(find_char(s, ']') is None);
                    None
                },
            }
        } else {
            find_in(v, lo, n, '/')
        };
        assert(match path_start {
            Some(ps) => lo <= ps < n && http_path_start(s) == Some(ps - lo),
            None => http_path_start(s) is None,
        });
        match path_start {
            Some(ps) => {
                assert(s.subrange(ps - lo, s.len() as int) =~= v@.subrange(ps as int, n as int));
                if ps + 1 == n && v[ps] == '/' {
                    assert(v@.subrange(ps as int, n as int) =~= seq!['/']);
                    (ps, None)
                } else {
                    let p = string_from_range(v, ps, n);
                    assert(p@ != seq!['/']) by {
                        if p@ == seq!['/'] {
                            assert(p@.len() == 1);
                            assert(p@[0] == v@[ps as int]);
                        }
                    }
                    (ps, Some(p))
                }
            },
            None => (n, None),
        }
    }

    /// Parses the host and port `v[lo..hi]` of an HTTP or HTTPS target.
    fn parse_http_host(
        v: &Vec<char>,
        lo: usize,
        hi: usize,
        default_port: u16,
        secure: bool,
        path: Option<String>,
    ) -> (r: Result<Self, Error>)
        requires
            lo <= hi <= v@.len(),
        ensures
            target_result_view(r) == parse_http_host_spec(
                v@.subrange(lo as int, hi as int),
                default_port,
                secure,
                path.deep_view(),
            ),
    {
        let ghost hp = v@.subrange(lo as int, hi as int);
        if hi > lo && v[lo] == '[' {
            assert(hp[0] == v@[lo as int]);
            match find_in(v, lo, hi, ']') {
                Some(end) => {
                    assert(find_char(hp, ']') == Some(end - lo));
                    let host = string_from_range(v, lo + 1, end);
                    assert(host@ =~= hp.subrange(1, end - lo));
                    assert(hp.subrange(end - lo + 1, hp.len() as int) =~= v@.subrange(end + 1, hi as int));
                    if end + 1 == hi {
                        Ok(Self::make_http(secure, host, default_port, path))
                    } else if v[end + 1] == ':' {
                        assert(hp.subrange(end - lo + 1, hp.len() as int).drop_first() =~= v@.subrange(end + 2, hi as int));
                        match port_in(v, end + 2, hi) {
                            Ok(port) => Ok(Self::make_http(secure, host, port, path)),
                            Err(e) => Err(e),
                        }
                    } else {
                        Err(format_error("Invalid character after IPv6 address"))
                    }
                },
                None => Err(format_error("Unclosed IPv6 address bracket")),
            }
        } else {
            assert(hi > lo ==> hp[0] == v@[lo as int]);
            match rfind_in(v, lo, hi, ':') {
                Some(c) => {
                    assert(rfind_char(hp, ':') == Some(c - lo));
                    assert(hp.subrange(0, c - lo) =~= v@.subrange(lo as int, c as int));
                    assert(hp.subrange(c - lo + 1, hp.len() as int) =~= v@.subrange(c + 1, hi as int));
                    if contains_in(v, lo, c, ':') {
                        let whole = string_from_range(v, lo, hi);
                        Ok(Self::make_http(secure, whole, default_port, path))
                    } else if c + 1 == hi {
                        Err(format_error("Empty port specification"))
                    } else {
                        let host = string_from_range(v, lo, c);
                        match port_in(v, c + 1, hi) {
                            Ok(port) => Ok(Self::make_http(secure, host, port, path)),
                            Err(e) => Err(e),
                        }
                    }
                },
                None => {
                    let whole = string_from_range(v, lo, hi);
                    Ok(Self::make_http(secure, whole, default_port, path))
                },
            }
        }
    }

    /// Parses the auth target specification `v[lo..]`.
    fn parse_auth(v: &Vec<char>, lo: usize) -> (r: Result<Self, Error>)
        requires
            lo <= v@.len(),
        ensures
            target_result_view(r) == parse_auth_spec(v@.subrange(lo as int, v@.len() as int)),
    {
        let n = v.len();
        if lo == n {
            return Err(format_error("Empty auth name"));
        }
        let name = string_from_range(v, lo, n);
        match validate_auth_name(name.as_str()) {
            Err(e) => Err(e),
            Ok(()) => Ok(Target::Auth { name }),
        }
    }
}

// ---------------------------------------------------------------------------
// Displaying
// ---------------------------------------------------------------------------

/// Whether `host` is an IPv6 address written without brackets.
fn bare_ipv6(host: &String) -> (b: bool)
    ensures
        b == is_bare_ipv6(host@),
{
    let v = chars_of(host.as_str());
    let n = v.len();
    assert(v@.subrange(0, n as int) =~= v@);
    let has_colon = contains_in(&v, 0, n, ':');
    has_colon && !(n > 0 && v[0] == '[')
}

/// Appends `scheme://host[:port]path` as [`http_display`] describes.
fn push_http_display(
    s: &mut String,
    scheme: &str,
    host: &String,
    port: u16,
    default_port: u16,
    path: &Option<String>,
)
    ensures
        final(s)@ == old(s)@ + http_display(scheme@, host@, port, default_port, path.deep_view()),
{
    push_str(s, scheme);
    if bare_ipv6(host) {
        push_char(s, '[');
        push_str(s, host.as_str());
        push_char(s, ']');
    } else {
        push_str(s, host.as_str());
    }
    if port != default_port {
        push_char(s, ':');
        push_decimal(s, port as u64);
    }
    match path {
        Some(p) => push_str(s, p.as_str()),
        None => {},
    }
    assert(final(s)@ =~= old(s)@ + http_display(scheme@, host@, port, default_port, path.deep_view()));
}

impl Target {
    /// The text this target is displayed with; [`Target::parse`] reads it back.
    pub fn to_string(&self) -> (s: String)
        ensures
            s@ == display_spec(self@),
    {
        let mut s = String::new();
        match self {
            Target::Tcp { host, port } => {
                push_str(&mut s, "tcp://");
                if bare_ipv6(host) {
                    push_char(&mut s, '[');
                    push_str(&mut s, host.as_str());
                    push_char(&mut s, ']');
                } else {
                    push_str(&mut s, host.as_str());
                }
                push_char(&mut s, ':');
                push_decimal(&mut s, *port as u64);
            },
            Target::Stdio { command, args } => {
                push_str(&mut s, "cmd://");
                push_str(&mut s, command.as_str());
                if args.len() > 0 {
                    push_char(&mut s, ' ');
                    let joined = shell_join(args);
                    push_str(&mut s, joined.as_str());
                }
            },
            Target::Http { host, port, path } => {
                push_http_display(&mut s, "http://", host, *port, 80, path);
            },
            Target::Https { host, port, path } => {
                push_http_display(&mut s, "https://", host, *port, 443, path);
            },
            Target::Auth { name } => {
                push_str(&mut s, "auth://");
                push_str(&mut s, name.as_str());
            },
        }
        assert(s@ =~= display_spec(self@));
        s
    }
}

// ---------------------------------------------------------------------------
// Laws
// ---------------------------------------------------------------------------

/// Whether a path is written back and read again unchanged: none, or a path
/// that begins with `/` and is longer than `/` alone.
pub open spec fn path_roundtrips(path: Option<Seq<char>>) -> bool {
    match path {
        None => true,
        Some(p) => p.len() > 1 && p[0] == '/',
    }
}

/// Whether a host is written back and read again unchanged: not empty, and
/// free of the brackets that delimit IPv6 addresses.
pub open spec fn host_roundtrips(host: Seq<char>) -> bool {
    host.len() > 0 && !host.contains('[') && !host.contains(']')
}

/// The targets that [`display_spec`] writes in a form that [`parse_spec`]
/// reads back as the same target. Stdio targets are not among them: their
/// command is written unquoted, so a command holding a space (`./my server`)
/// is read back as two words.
pub open spec fn displays_faithfully(t: TargetView) -> bool {
    match t {
        TargetView::Tcp { host, port } => host_roundtrips(host),
        TargetView::Http { host, port, path } => host_roundtrips(host) && !host.contains('/')
            && path_roundtrips(path),
        TargetView::Https { host, port, path } => host_roundtrips(host) && !host.contains('/')
            && path_roundtrips(path),
        TargetView::Auth { name } => validate_auth_name_spec(name) is Ok,
        TargetView::Stdio { command, args } => false,
    }
}

proof fn lemma_digits_lack(d: Seq<char>, c: char)
    requires
        all_digits(d),
        !is_digit(c),
    ensures
        !d.contains(c),
{
    if d.contains(c) {
        let k = choose|k: int| 0 <= k < d.len() && d[k] == c;
        assert(is_digit(d[k]));
    }
}

/// `s` begins with the literal `lit` followed by `rest`: reading past the
/// literal leaves `rest`.
proof fn lemma_after_prefix(lit: Seq<char>, rest: Seq<char>)
    ensures
        starts_with(lit + rest, lit),
        (lit + rest).subrange(lit.len() as int, (lit + rest).len() as int) == rest,
{
    assert((lit + rest).subrange(0, lit.len() as int) =~= lit);
    assert((lit + rest).subrange(lit.len() as int, (lit + rest).len() as int) =~= rest);
}

/// The port part `:digits` parses back to the port.
proof fn lemma_port_text(port: u16)
    ensures
        nat_to_decimal(port as nat).len() > 0,
        !nat_to_decimal(port as nat).contains(':'),
        !nat_to_decimal(port as nat).contains('/'),
        !nat_to_decimal(port as nat).contains(']'),
        !nat_to_decimal(port as nat).contains('['),
        port_or_err(nat_to_decimal(port as nat)) == Ok::<u16, ErrorView>(port),
{
    lemma_nat_to_decimal(port as nat);
    lemma_parse_u16_of_decimal(port);
    lemma_digits_lack(nat_to_decimal(port as nat), ':');
    lemma_digits_lack(nat_to_decimal(port as nat), '/');
    lemma_digits_lack(nat_to_decimal(port as nat), ']');
    lemma_digits_lack(nat_to_decimal(port as nat), '[');
}

#[verifier::spinoff_prover]
#[verifier::rlimit(40)]
proof fn lemma_tcp_roundtrip(host: Seq<char>, port: u16)
    requires
        host_roundtrips(host),
    ensures
        ({
            let d = nat_to_decimal(port as nat);
            let s = if is_bare_ipv6(host) {
                seq!['['] + host + seq![']', ':'] + d
            } else {
                host + seq![':'] + d
            };
            parse_tcp_spec(s) == Ok::<TargetView, ErrorView>(TargetView::Tcp { host, port })
        }),
{
    let d = nat_to_decimal(port as nat);
    lemma_port_text(port);
    if is_bare_ipv6(host) {
        let s = seq!['['] + host + seq![']', ':'] + d;
        let end: int = host.len() as int + 1;
        assert(s[end] == ']');
        assert forall|j: int| 0 <= j < end implies s[j] != ']' by {
            if j > 0 {
                assert(s[j] == host[j - 1]);
            }
        }
        lemma_find_char_is(s, ']', end);
        assert(s.subrange(1, end) =~= host);
        let rest = s.subrange(end + 1, s.len() as int);
        assert(rest =~= seq![':'] + d);
        assert(rest.drop_first() =~= d);
    } else {
        let s = host + seq![':'] + d;
        let c = host.len() as int;
        assert(!host.contains(':'));
        assert(s[0] == host[0]);
        assert(s[c] == ':');
        assert forall|j: int| c < j < s.len() implies s[j] != ':' by {
            assert(s[j] == d[j - c - 1]);
        }
        lemma_rfind_char_is(s, ':', c);
        assert(s.subrange(0, c) =~= host);
        assert(s.subrange(c + 1, s.len() as int) =~= d);
    }
}

#[verifier::spinoff_prover]
#[verifier::rlimit(40)]
proof fn lemma_http_roundtrip(host: Seq<char>, port: u16, default_port: u16, secure: bool, path: Option<Seq<char>>)
    requires
        host_roundtrips(host),
        !host.contains('/'),
        path_roundtrips(path),
    ensures
        ({
            let h = if is_bare_ipv6(host) {
                seq!['['] + host + seq![']']
            } else {
                host
            };
            let p = if port == default_port {
                Seq::empty()
            } else {
                seq![':'] + nat_to_decimal(port as nat)
            };
            parse_http_common_spec(h + p + path_text(path), default_port, secure)
                == Ok::<TargetView, ErrorView>(http_target(secure, host, port, path))
        }),
{
    let d = nat_to_decimal(port as nat);
    lemma_port_text(port);
    let h = if is_bare_ipv6(host) {
        seq!['['] + host + seq![']']
    } else {
        host
    };
    let p: Seq<char> = if port == default_port {
        Seq::empty()
    } else {
        seq![':'] + d
    };
    let hp = h + p;
    let s = hp + path_text(path);
    assert(!p.contains('/')) by {
        if p.contains('/') {
            let k = choose|k: int| 0 <= k < p.len() && p[k] == '/';
            assert(d[k - 1] == '/');
        }
    }
    assert(!p.contains(']')) by {
        if p.contains(']') {
            let k = choose|k: int| 0 <= k < p.len() && p[k] == ']';
            assert(d[k - 1] == ']');
        }
    }
    // Where the path begins.
    if is_bare_ipv6(host) {
        let end: int = host.len() as int + 1;
        assert(s[0] == '[');
        assert(s[end] == ']');
        assert forall|j: int| 0 <= j < end implies s[j] != ']' by {
            if j > 0 {
                assert(s[j] == host[j - 1]);
            }
        }
        lemma_find_char_is(s, ']', end);
        let after = s.subrange(end + 1, s.len() as int);
        assert(after =~= p + path_text(path));
        match path {
            Some(pt) => {
                assert(after[p.len() as int] == '/');
                assert forall|j: int| 0 <= j < p.len() implies after[j] != '/' by {
                    assert(after[j] == p[j]);
                }
                lemma_find_char_is(after, '/', p.len() as int);
                assert(http_path_start(s) == Some(end + 1 + p.len()));
                assert(s.subrange(0, end + 1 + p.len()) =~= hp);
                assert(s.subrange(end + 1 + p.len(), s.len() as int) =~= pt);
            },
            None => {
                assert(after =~= p);
                lemma_find_char_none(after, '/');
                assert(s =~= hp);
            },
        }
        // The host and port.
        assert(hp[0] == '[');
        assert(hp[end] == ']');
        assert forall|j: int| 0 <= j < end implies hp[j] != ']' by {
            if j > 0 {
                assert(hp[j] == host[j - 1]);
            }
        }
        lemma_find_char_is(hp, ']', end);
        assert(hp.subrange(1, end) =~= host);
        let rest = hp.subrange(end + 1, hp.len() as int);
        assert(rest =~= p);
        if port != default_port {
            assert(rest.drop_first() =~= d);
        }
    } else {
        assert(!host.contains(':'));
        assert(s[0] == host[0]);
        match path {
            Some(pt) => {
                let k = hp.len() as int;
                assert(s[k] == '/');
                assert forall|j: int| 0 <= j < k implies s[j] != '/' by {
                    if j < host.len() {
                        assert(s[j] == host[j]);
                    } else {
                        assert(s[j] == p[j - host.len()]);
                    }
                }
                lemma_find_char_is(s, '/', k);
                assert(s.subrange(0, k) =~= hp);
                assert(s.subrange(k, s.len() as int) =~= pt);
            },
            None => {
                assert(s =~= hp);
                assert forall|j: int| 0 <= j < s.len() implies s[j] != '/' by {
                    if j < host.len() {
                        assert(s[j] == host[j]);
                    } else {
                        assert(s[j] == p[j - host.len()]);
                    }
                }
                lemma_find_char_none(s, '/');
            },
        }
        assert(hp[0] == host[0]);
        if port == default_port {
            assert(hp =~= host);
            lemma_rfind_char_none(hp, ':');
        } else {
            let c = host.len() as int;
            assert(hp[c] == ':');
            assert forall|j: int| c < j < hp.len() implies hp[j] != ':' by {
                assert(hp[j] == d[j - c - 1]);
            }
            lemma_rfind_char_is(hp, ':', c);
            assert(hp.subrange(0, c) =~= host);
            assert(hp.subrange(c + 1, hp.len() as int) =~= d);
        }
    }
}

pub(crate) proof fn lemma_tcp_display_parse(host: Seq<char>, port: u16)
    requires
        host_roundtrips(host),
    ensures
        parse_spec(display_spec(TargetView::Tcp { host, port })) == Ok::<TargetView, ErrorView>(
            TargetView::Tcp { host, port },
        ),
{
    reveal_strlit("tcp://");
    let d = nat_to_decimal(port as nat);
    let s = if is_bare_ipv6(host) {
        seq!['['] + host + seq![']', ':'] + d
    } else {
        host + seq![':'] + d
    };
    assert(display_spec(TargetView::Tcp { host, port }) =~= "tcp://"@ + s);
    lemma_after_prefix("tcp://"@, s);
    lemma_tcp_roundtrip(host, port);
}

#[verifier::spinoff_prover]
#[verifier::rlimit(40)]
pub(crate) proof fn lemma_http_display_parse(host: Seq<char>, port: u16, path: Option<Seq<char>>)
    requires
        host_roundtrips(host),
        !host.contains('/'),
        path_roundtrips(path),
    ensures
        parse_spec(display_spec(TargetView::Http { host, port, path })) == Ok::<
            TargetView,
            ErrorView,
        >(TargetView::Http { host, port, path }),
{
    reveal_strlit("tcp://");
    reveal_strlit("cmd://");
    reveal_strlit("https://");
    reveal_strlit("http://");
    let h = if is_bare_ipv6(host) {
        seq!['['] + host + seq![']']
    } else {
        host
    };
    let p = if port == 80 {
        Seq::empty()
    } else {
        seq![':'] + nat_to_decimal(port as nat)
    };
    let s = h + p + path_text(path);
    let full = "http://"@ + s;
    assert(display_spec(TargetView::Http { host, port, path }) =~= full);
    lemma_after_prefix("http://"@, s);
    assert(!starts_with(full, "tcp://"@)) by {
        assert(full[0] != "tcp://"@[0]);
    }
    assert(!starts_with(full, "cmd://"@)) by {
        assert(full[0] != "cmd://"@[0]);
    }
    assert(!starts_with(full, "https://"@)) by {
        assert(full[4] != "https://"@[4]);
    }
    lemma_http_roundtrip(host, port, 80, false, path);
}

#[verifier::spinoff_prover]
#[verifier::rlimit(40)]
pub(crate) proof fn lemma_https_display_parse(host: Seq<char>, port: u16, path: Option<Seq<char>>)
    requires
        host_roundtrips(host),
        !host.contains('/'),
        path_roundtrips(path),
    ensures
        parse_spec(display_spec(TargetView::Https { host, port, path })) == Ok::<
            TargetView,
            ErrorView,
        >(TargetView::Https { host, port, path }),
{
    reveal_strlit("tcp://");
    reveal_strlit("cmd://");
    reveal_strlit("https://");
    let h = if is_bare_ipv6(host) {
        seq!['['] + host + seq![']']
    } else {
        host
    };
    let p = if port == 443 {
        Seq::empty()
    } else {
        seq![':'] + nat_to_decimal(port as nat)
    };
    let s = h + p + path_text(path);
    let full = "https://"@ + s;
    assert(display_spec(TargetView::Https { host, port, path }) =~= full);
    lemma_after_prefix("https://"@, s);
    assert(!starts_with(full, "tcp://"@)) by {
        assert(full[0] != "tcp://"@[0]);
    }
    assert(!starts_with(full, "cmd://"@)) by {
        assert(full[0] != "cmd://"@[0]);
    }
    lemma_http_roundtrip(host, port, 443, true, path);
}

#[verifier::spinoff_prover]
#[verifier::rlimit(40)]
proof fn lemma_auth_display_parse(name: Seq<char>)
    requires
        validate_auth_name_spec(name) is Ok,
    ensures
        parse_spec(display_spec(TargetView::Auth { name })) == Ok::<TargetView, ErrorView>(
            TargetView::Auth { name },
        ),
{
    reveal_strlit("tcp://");
    reveal_strlit("cmd://");
    reveal_strlit("https://");
    reveal_strlit("http://");
    reveal_strlit("auth://");
    let full = "auth://"@ + name;
    assert(display_spec(TargetView::Auth { name }) =~= full);
    lemma_after_prefix("auth://"@, name);
    assert(!starts_with(full, "tcp://"@)) by {
        assert(full[0] != "tcp://"@[0]);
    }
    assert(!starts_with(full, "cmd://"@)) by {
        assert(full[0] != "cmd://"@[0]);
    }
    assert(!starts_with(full, "https://"@)) by {
        assert(full[0] != "https://"@[0]);
    }
    assert(!starts_with(full, "http://"@)) by {
        assert(full[0] != "http://"@[0]);
    }
}

/// Reading back what a target is displayed as gives the same target, for
/// every target that [`displays_faithfully`] admits.
pub proof fn lemma_display_parse_roundtrip(t: TargetView)
    requires
        displays_faithfully(t),
    ensures
        parse_spec(display_spec(t)) == Ok::<TargetView, ErrorView>(t),
{
    match t {
        TargetView::Tcp { host, port } => lemma_tcp_display_parse(host, port),
        TargetView::Http { host, port, path } => lemma_http_display_parse(host, port, path),
        TargetView::Https { host, port, path } => lemma_https_display_parse(host, port, path),
        TargetView::Auth { name } => lemma_auth_display_parse(name),
        TargetView::Stdio { command, args } => {},
    }
}

/// Whether `s` begins with one of the schemes that [`parse_spec`] recognises.
pub open spec fn has_known_scheme(s: Seq<char>) -> bool {
    starts_with(s, "tcp://"@) || starts_with(s, "cmd://"@) || starts_with(s, "https://"@)
        || starts_with(s, "http://"@) || starts_with(s, "auth://"@)
}

/// A target without a scheme is read exactly as the same text after
/// `tcp://`: TCP is the implicit default.
pub proof fn lemma_implicit_tcp(s: Seq<char>)
    requires
        !has_known_scheme(s),
    ensures
        parse_spec(s) == parse_spec("tcp://"@ + s),
{
    reveal_strlit("tcp://");
    lemma_after_prefix("tcp://"@, s);
}

/// An HTTP target given as a bare host name connects to port 80, and an
/// HTTPS one to port 443, with no path.
pub proof fn lemma_http_default_ports(host: Seq<char>)
    requires
        host_roundtrips(host),
        !host.contains('/'),
        !host.contains(':'),
    ensures
        parse_spec("http://"@ + host) == Ok::<TargetView, ErrorView>(
            TargetView::Http { host, port: 80, path: None },
        ),
        parse_spec("https://"@ + host) == Ok::<TargetView, ErrorView>(
            TargetView::Https { host, port: 443, path: None },
        ),
{
    lemma_http_display_parse(host, 80, None);
    lemma_https_display_parse(host, 443, None);
    assert(display_spec(TargetView::Http { host, port: 80, path: None }) =~= "http://"@ + host);
    assert(display_spec(TargetView::Https { host, port: 443, path: None }) =~= "https://"@ + host);
}

/// An `auth://` target names a stored entry exactly when the name is
/// accepted by the authentication-name rules.
#[verifier::spinoff_prover]
#[verifier::rlimit(40)]
pub proof fn lemma_auth_target(name: Seq<char>)
    requires
        name.len() > 0,
    ensures
        parse_spec("auth://"@ + name) == match validate_auth_name_spec(name) {
            Ok(()) => Ok::<TargetView, ErrorView>(TargetView::Auth { name }),
            Err(e) => Err::<TargetView, ErrorView>(e),
        },
{
    reveal_strlit("tcp://");
    reveal_strlit("cmd://");
    reveal_strlit("https://");
    reveal_strlit("http://");
    reveal_strlit("auth://");
    let full = "auth://"@ + name;
    lemma_after_prefix("auth://"@, name);
    assert(!starts_with(full, "tcp://"@)) by {
        assert(full[0] != "tcp://"@[0]);
    }
    assert(!starts_with(full, "cmd://"@)) by {
        assert(full[0] != "cmd://"@[0]);
    }
    assert(!starts_with(full, "https://"@)) by {
        assert(full[0] != "https://"@[0]);
    }
    assert(!starts_with(full, "http://"@)) by {
        assert(full[0] != "http://"@[0]);
    }
}

} // verus!
