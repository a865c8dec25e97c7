use vstd::prelude::*;

use crate::error::{Error, ErrorView};
use crate::target::{
    display_spec, host_roundtrips, is_bare_ipv6, lemma_http_display_parse, lemma_https_display_parse,
    lemma_tcp_display_parse, parse_spec, Target, TargetView,
};
use crate::text::{nat_to_decimal, push_char, push_decimal, push_str, string_from_str};

verus! {

/// How to reach the server that a target names.
#[derive(Debug, Clone, PartialEq)]
pub enum ConnectionPlan {
    /// Open a TCP connection to `address` (`host:port`).
    Tcp { address: String },
    /// Spawn `command` with `args` and speak over its standard streams.
    Process { command: String, args: Vec<String> },
    /// Speak HTTP to `url`.
    Http { url: String },
    /// Speak HTTPS to `url`.
    Https { url: String },
}

/// The mathematical value of a [`ConnectionPlan`].
pub enum ConnectionPlanView {
    Tcp { address: Seq<char> },
    Process { command: Seq<char>, args: Seq<Seq<char>> },
    Http { url: Seq<char> },
    Https { url: Seq<char> },
}

impl View for ConnectionPlan {
    type V = ConnectionPlanView;

    open spec fn view(&self) -> ConnectionPlanView {
        match self {
            ConnectionPlan::Tcp { address } => ConnectionPlanView::Tcp { address: address@ },
            ConnectionPlan::Process { command, args } => ConnectionPlanView::Process {
                command: command@,
                args: args.deep_view(),
            },
            ConnectionPlan::Http { url } => ConnectionPlanView::Http { url: url@ },
            ConnectionPlan::Https { url } => ConnectionPlanView::Https { url: url@ },
        }
    }
}

/// `host:port`.
pub open spec fn host_port(host: Seq<char>, port: u16) -> Seq<char> {
    host + seq![':'] + nat_to_decimal(port as nat)
}

/// How a target is connected to without authentication: TCP to `host:port`,
/// a spawned process, or HTTP(S) to `scheme://host:port`. The path of an
/// HTTP target is not part of the URL, and auth targets must be resolved
/// to another target first.
pub open spec fn connection_plan_spec(t: TargetView) -> Result<ConnectionPlanView, ErrorView> {
    match t {
        TargetView::Tcp { host, port } => Ok(ConnectionPlanView::Tcp { address: host_port(host, port) }),
        TargetView::Stdio { command, args } => Ok(ConnectionPlanView::Process { command, args }),
        TargetView::Http { host, port, path } => Ok(
            ConnectionPlanView::Http { url: "http://"@ + host_port(host, port) },
        ),
        TargetView::Https { host, port, path } => Ok(
            ConnectionPlanView::Https { url: "https://"@ + host_port(host, port) },
        ),
        TargetView::Auth { name } => Err(
            ErrorView::Other(
                "Auth targets should be resolved to actual targets before calling connect_to_server"@,
            ),
        ),
    }
}

/// The mathematical value of the result of planning a connection.
pub open spec fn plan_result_view(r: Result<ConnectionPlan, Error>) -> Result<ConnectionPlanView, ErrorView> {
    match r {
        Ok(p) => Ok(p@),
        Err(e) => Err(e@),
    }
}

fn host_port_string(prefix: &str, host: &String, port: u16) -> (s: String)
    ensures
        s@ == prefix@ + host_port(host@, port),
{
    let mut s = string_from_str(prefix);
    push_str(&mut s, host.as_str());
    push_char(&mut s, ':');
    push_decimal(&mut s, port as u64);
    assert(s@ =~= prefix@ + host_port(host@, port));
    s
}

/// Decides how to connect to a target without authentication.
pub fn connection_plan(target: &Target) -> (r: Result<ConnectionPlan, Error>)
    ensures
        plan_result_view(r) == connection_plan_spec(target@),
{
    match target {
        Target::Tcp { host, port } => {
            let address = host_port_string("", host, *port);
            proof {
                reveal_strlit("");
                assert(address@ =~= host_port(host@, *port));
            }
            Ok(ConnectionPlan::Tcp { address })
        },
        Target::Stdio { command, args } => Ok(
            ConnectionPlan::Process { command: command.clone(), args: clone_strings(args) },
        ),
        Target::Http { host, port, path } => Ok(
            ConnectionPlan::Http { url: host_port_string("http://", host, *port) },
        ),
        Target::Https { host, port, path } => Ok(
            ConnectionPlan::Https { url: host_port_string("https://", host, *port) },
        ),
        Target::Auth { name } => Err(
            Error::Other(
                string_from_str(
                    "Auth targets should be resolved to actual targets before calling connect_to_server",
                ),
            ),
        ),
    }
}

/// A copy of a list of strings.
pub fn clone_strings(v: &Vec<String>) -> (r: Vec<String>)
    ensures
        r.deep_view() == v.deep_view(),
{
    let mut r: Vec<String> = Vec::new();
    let mut i: usize = 0;
    while i < v.len()
        invariant
            i <= v@.len(),
            r.deep_view() == v.deep_view().subrange(0, i as int),
        decreases v@.len() - i,
    {
        let c = v[i].clone();
        assert(c@ == v@[i as int]@);
        let ghost before = r.deep_view();
        r.push(c);
        assert(r.deep_view() =~= before.push(c@));
        i = i + 1;
        assert(r.deep_view() =~= v.deep_view().subrange(0, i as int));
    }
    assert(v.deep_view().subrange(0, v@.len() as int) =~= v.deep_view());
    r
}

/// OAuth applies to HTTP and HTTPS targets only.
pub open spec fn oauth_check_spec(t: TargetView) -> Result<(), ErrorView> {
    match t {
        TargetView::Http { .. } | TargetView::Https { .. } => Ok(()),
        _ => Err(ErrorView::Other("OAuth authentication is only supported for HTTP/HTTPS targets"@)),
    }
}

/// Checks that a target can be connected to with OAuth.
pub fn check_oauth_target(target: &Target) -> (r: Result<(), Error>)
    ensures
        match r {
            Ok(()) => oauth_check_spec(target@) is Ok,
            Err(e) => oauth_check_spec(target@) == Err::<(), ErrorView>(e@),
        },
{
    match target {
        Target::Http { .. } | Target::Https { .. } => Ok(()),
        _ => Err(
            Error::Other(
                string_from_str("OAuth authentication is only supported for HTTP/HTTPS targets"),
            ),
        ),
    }
}

/// How the proxy reaches a target: TCP and spawned processes only.
pub open spec fn proxy_plan_spec(t: TargetView) -> Result<ConnectionPlanView, ErrorView> {
    match t {
        TargetView::Tcp { .. } | TargetView::Stdio { .. } => connection_plan_spec(t),
        TargetView::Http { .. } | TargetView::Https { .. } => Err(
            ErrorView::Other("HTTP/HTTPS connections are not yet supported for proxy"@),
        ),
        TargetView::Auth { .. } => Err(
            ErrorView::Other(
                "Auth targets should be resolved to actual targets before calling proxy_command"@,
            ),
        ),
    }
}

/// Decides how the proxy reaches a target.
pub fn proxy_plan(target: &Target) -> (r: Result<ConnectionPlan, Error>)
    ensures
        plan_result_view(r) == proxy_plan_spec(target@),
{
    match target {
        Target::Tcp { .. } | Target::Stdio { .. } => connection_plan(target),
        Target::Http { .. } | Target::Https { .. } => Err(
            Error::Other(string_from_str("HTTP/HTTPS connections are not yet supported for proxy")),
        ),
        Target::Auth { .. } => Err(
            Error::Other(
                string_from_str(
                    "Auth targets should be resolved to actual targets before calling proxy_command",
                ),
            ),
        ),
    }
}

/// Planning the connection to a target written as `http://host:port` or
/// `https://host:port` (with a port other than the scheme's default) gives
/// back exactly the URL that was written; for `tcp://host:port` it gives the
/// address `host:port` that was written. The plan connects to the target's
/// own host and port.
pub proof fn lemma_plan_uses_written_address(host: Seq<char>, port: u16)
    requires
        host_roundtrips(host),
        !host.contains('/'),
        !host.contains(':'),
    ensures
        port != 80 ==> (parse_spec("http://"@ + host + seq![':'] + nat_to_decimal(port as nat)) matches Ok(t)
            && connection_plan_spec(t) == Ok::<ConnectionPlanView, ErrorView>(
            ConnectionPlanView::Http { url: "http://"@ + host + seq![':'] + nat_to_decimal(port as nat) },
        )),
        port != 443 ==> (parse_spec("https://"@ + host + seq![':'] + nat_to_decimal(port as nat)) matches Ok(t)
            && connection_plan_spec(t) == Ok::<ConnectionPlanView, ErrorView>(
            ConnectionPlanView::Https { url: "https://"@ + host + seq![':'] + nat_to_decimal(port as nat) },
        )),
        parse_spec("tcp://"@ + host + seq![':'] + nat_to_decimal(port as nat)) matches Ok(t)
            && connection_plan_spec(t) == Ok::<ConnectionPlanView, ErrorView>(
            ConnectionPlanView::Tcp { address: host + seq![':'] + nat_to_decimal(port as nat) },
        ),
{
    let d = nat_to_decimal(port as nat);
    assert(!is_bare_ipv6(host));
    lemma_tcp_display_parse(host, port);
    assert(display_spec(TargetView::Tcp { host, port }) =~= "tcp://"@ + host + seq![':'] + d);
    assert(host_port(host, port) =~= host + seq![':'] + d);
    if port != 80 {
        lemma_http_display_parse(host, port, None);
        assert(display_spec(TargetView::Http { host, port, path: None }) =~= "http://"@ + host + seq![':'] + d);
        assert("http://"@ + host_port(host, port) =~= "http://"@ + host + seq![':'] + d);
    }
    if port != 443 {
        lemma_https_display_parse(host, port, None);
        assert(display_spec(TargetView::Https { host, port, path: None }) =~= "https://"@ + host + seq![':'] + d);
        assert("https://"@ + host_port(host, port) =~= "https://"@ + host + seq![':'] + d);
    }
}

} // verus!
