use vstd::prelude::*;

use crate::display::{entries_view, ev, push_entry, push_text, Entry, EntryView, Line, LineView};
use crate::error::{Error, ErrorView};
use crate::output::utf8_len;
use crate::text::{
    ascii_lower, chars_of, contains_text, nat_to_decimal, pad_right, push_padded, push_repeated,
    push_str, split_char, split_char_spec, str_eq, string_from_str, text_contains, trim, trim_spec,
    u64_to_decimal,
};

verus! {

/// Whether `c` may appear in the name of a stored authentication entry:
/// an ASCII letter, an ASCII digit or an underscore.
pub open spec fn is_auth_name_char(c: char) -> bool {
    ('a' <= c <= 'z') || ('A' <= c <= 'Z') || ('0' <= c <= '9') || c == '_'
}

/// The outcome of validating an authentication name.
pub open spec fn validate_auth_name_spec(name: Seq<char>) -> Result<(), ErrorView> {
    if name.len() == 0 {
        Err(ErrorView::Format("Authentication name cannot be empty"@))
    } else if exists|i: int| 0 <= i < name.len() && !is_auth_name_char(#[trigger] name[i]) {
        Err(
            ErrorView::Format(
                "Authentication name '"@ + name
                    + "' is invalid. Names can only contain letters, numbers, and underscores (a-zA-Z0-9_)"@,
            ),
        )
    } else {
        Ok(())
    }
}

/// The mathematical value of a result that carries nothing on success.
pub open spec fn unit_result_view(r: Result<(), Error>) -> Result<(), ErrorView> {
    match r {
        Ok(()) => Ok(()),
        Err(e) => Err(e@),
    }
}

/// Validates that an auth name contains only ASCII alphanumeric characters and underscores.
pub fn validate_auth_name(name: &str) -> (r: Result<(), Error>)
    ensures
        unit_result_view(r) == validate_auth_name_spec(name@),
{
    let v = chars_of(name);
    if v.len() == 0 {
        return Err(Error::Format(string_from_str("Authentication name cannot be empty")));
    }
    let mut i: usize = 0;
    while i < v.len()
        invariant
            v@ == name@,
            i <= v@.len(),
            forall|j: int| 0 <= j < i ==> is_auth_name_char(#[trigger] v@[j]),
        decreases v@.len() - i,
    {
        let c = v[i];
        if !(('a' <= c && c <= 'z') || ('A' <= c && c <= 'Z') || ('0' <= c && c <= '9') || c
            == '_') {
            assert(!is_auth_name_char(name@[i as int]));
            let mut m = string_from_str("Authentication name '");
            push_str(&mut m, name);
            push_str(
                &mut m,
                "' is invalid. Names can only contain letters, numbers, and underscores (a-zA-Z0-9_)",
            );
            return Err(Error::Format(m));
        }
        i = i + 1;
    }
    Ok(())
}


// ---------------------------------------------------------------------------
// Adding an entry
// ---------------------------------------------------------------------------

/// Arguments for the add command.
pub struct AddCommandArgs {
    /// Name for the authentication entry.
    pub name: String,
    /// Server URL (e.g., <https://api.example.com>).
    pub server_url: Option<String>,
    /// OAuth authorization URL.
    pub auth_url: Option<String>,
    /// OAuth token URL.
    pub token_url: Option<String>,
    /// OAuth client ID.
    pub client_id: Option<String>,
    /// OAuth client secret.
    pub client_secret: Option<String>,
    /// OAuth redirect URL (if not provided, will use local server).
    pub redirect_url: Option<String>,
    /// Resource/Audience parameter for OAuth.
    pub resource: Option<String>,
    /// OAuth scopes (comma-separated).
    pub scopes: Option<String>,
    /// Show the redirect URL that will be used without starting OAuth flow.
    pub show_redirect_url: bool,
    /// Skip metadata discovery and use manual configuration.
    pub no_discover: bool,
    /// Automatically register a dynamic client if supported (skip Y/n prompt).
    pub auto_register: bool,
}

/// Whether `name` is among `names`.
pub open spec fn name_listed(names: Seq<Seq<char>>, name: Seq<char>) -> bool {
    exists|i: int| 0 <= i < names.len() && names[i] == name
}

fn is_listed(names: &Vec<String>, name: &str) -> (b: bool)
    ensures
        b == name_listed(names.deep_view(), name@),
{
    let ghost all = names.deep_view();
    let mut i: usize = 0;
    while i < names.len()
        invariant
            i <= names@.len(),
            all == names.deep_view(),
            forall|j: int| 0 <= j < i ==> all[j] != name@,
        decreases names@.len() - i,
    {
        if str_eq(names[i].as_str(), name) {
            assert(all[i as int] == name@);
            return true;
        }
        i = i + 1;
    }
    false
}

/// A new entry may not take the name of a stored one.
pub fn check_new_entry(name: &str, existing: &Vec<String>) -> (r: Result<(), Error>)
    ensures
        unit_result_view(r) == if name_listed(existing.deep_view(), name@) {
            Err(ErrorView::Other("Authentication entry '"@ + name@ + "' already exists"@))
        } else {
            Ok(())
        },
{
    if is_listed(existing, name) {
        let mut m = string_from_str("Authentication entry '");
        push_str(&mut m, name);
        push_str(&mut m, "' already exists");
        Err(Error::Other(m))
    } else {
        Ok(())
    }
}

/// The scopes given on the command line: the comma-separated parts, each
/// trimmed; none where none were given.
pub open spec fn scopes_spec(scopes: Option<Seq<char>>) -> Seq<Seq<char>> {
    match scopes {
        Some(s) => split_char_spec(s, ',').map_values(|p: Seq<char>| trim_spec(p)),
        None => Seq::empty(),
    }
}

/// The mathematical value of an optional string.
pub open spec fn opt_str(o: Option<String>) -> Option<Seq<char>> {
    match o {
        Some(s) => Some(s@),
        None => None,
    }
}

/// The scopes to request. Scopes the server advertises are not chosen on
/// the user's behalf.
pub fn resolve_scopes(args: &AddCommandArgs) -> (r: Vec<String>)
    ensures
        r.deep_view() == scopes_spec(opt_str(args.scopes)),
{
    match &args.scopes {
        Some(s) => {
            let parts = split_char(s.as_str(), ',');
            let ghost pv = parts.deep_view();
            let mut r: Vec<String> = Vec::new();
            let mut i: usize = 0;
            while i < parts.len()
                invariant
                    i <= parts@.len(),
                    pv == parts.deep_view(),
                    r.deep_view() == pv.subrange(0, i as int).map_values(
                        |p: Seq<char>| trim_spec(p),
                    ),
                decreases parts@.len() - i,
            {
                let t = trim(parts[i].as_str());
                let ghost before = r.deep_view();
                r.push(t);
                assert(r.deep_view() =~= before.push(t@));
                assert(pv.subrange(0, i + 1).map_values(|p: Seq<char>| trim_spec(p))
                    =~= pv.subrange(0, i as int).map_values(|p: Seq<char>| trim_spec(p)).push(
                    trim_spec(pv[i as int]),
                ));
                i = i + 1;
            }
            assert(pv.subrange(0, parts@.len() as int) =~= pv);
            r
        },
        None => {
            let r: Vec<String> = Vec::new();
            assert(r.deep_view() =~= Seq::<Seq<char>>::empty());
            r
        },
    }
}

/// The resource (audience) to request: the one given, else the server URL.
pub fn resolve_resource(args: &AddCommandArgs, server_url: &str) -> (r: String)
    ensures
        r@ == match args.resource {
            Some(x) => x@,
            None => server_url@,
        },
{
    match &args.resource {
        Some(x) => x.clone(),
        None => string_from_str(server_url),
    }
}

/// Where an endpoint URL comes from.
#[derive(Debug, Clone, PartialEq)]
pub enum EndpointChoice {
    /// Given on the command line.
    Given(String),
    /// Found by metadata discovery; the user is told.
    Discovered(String),
    /// Neither: the user is asked.
    Ask,
}

/// Picks an endpoint URL: the one given wins over the one discovered.
pub fn resolve_endpoint(given: &Option<String>, discovered: &Option<String>) -> (r: EndpointChoice)
    ensures
        match *given {
            Some(g) => r matches EndpointChoice::Given(x) && x@ == g@,
            None => match *discovered {
                Some(d) => r matches EndpointChoice::Discovered(x) && x@ == d@,
                None => r is Ask,
            },
        },
{
    match given {
        Some(g) => EndpointChoice::Given(g.clone()),
        None => match discovered {
            Some(d) => EndpointChoice::Discovered(d.clone()),
            None => EndpointChoice::Ask,
        },
    }
}

/// The redirect URL of the local callback server on `port`.
pub open spec fn local_redirect_spec(port: u16) -> Seq<char> {
    "http://127.0.0.1:"@ + nat_to_decimal(port as nat) + "/callback"@
}

/// Builds the redirect URL of the local callback server on `port`.
pub fn local_redirect_url(port: u16) -> (s: String)
    ensures
        s@ == local_redirect_spec(port),
{
    let mut s = string_from_str("http://127.0.0.1:");
    let d = u64_to_decimal(port as u64);
    push_str(&mut s, d.as_str());
    push_str(&mut s, "/callback");
    s
}

/// The client secret typed by the user: none where only white space was
/// typed, else the text as typed.
pub fn client_secret_from_input(input: &str) -> (r: Option<String>)
    ensures
        match r {
            Some(s) => trim_spec(input@).len() > 0 && s@ == input@,
            None => trim_spec(input@).len() == 0,
        },
{
    let t = trim(input);
    if t.as_str().unicode_len() == 0 {
        None
    } else {
        Some(string_from_str(input))
    }
}

/// Whether the answer to the offer of dynamic registration accepts it:
/// nothing typed, or an answer that starts with `y` in any case (no
/// character but `Y` lower-cases to a text that starts with `y`).
pub open spec fn accepts_registration_spec(answer: Seq<char>) -> bool {
    let t = trim_spec(answer);
    t.len() == 0 || ascii_lower(t[0]) == 'y'
}

/// Decides whether the answer to the offer of dynamic registration accepts it.
pub fn accepts_registration(answer: &str) -> (b: bool)
    ensures
        b == accepts_registration_spec(answer@),
{
    let t = trim(answer);
    let v = chars_of(t.as_str());
    if v.len() == 0 {
        true
    } else {
        v[0] == 'y' || v[0] == 'Y'
    }
}

/// The lines that explain an OAuth failure, where its message says more
/// about the cause.
pub open spec fn oauth_hint_spec(error_msg: Seq<char>, redirect_url: Seq<char>) -> Seq<EntryView> {
    if contains_text(error_msg, "redirect_uri"@) || contains_text(error_msg, "redirect URL"@) {
        seq![
            ev(0, LineView::Text(Seq::empty())),
            ev(0, LineView::TraceError("OAuth Error: Redirect URL not registered"@)),
            ev(0, LineView::Text("The redirect URL is not associated with your OAuth application."@)),
            ev(0, LineView::Text(Seq::empty())),
            ev(0, LineView::Text("To fix this:"@)),
            ev(0, LineView::Text("1. Go to your OAuth application settings"@)),
            ev(0, LineView::Text("2. Add this redirect URL: "@ + redirect_url)),
            ev(0, LineView::Text("3. Run this command again"@)),
            ev(0, LineView::Text(Seq::empty())),
        ]
    } else if contains_text(error_msg, "incorrect_client_credentials"@) || contains_text(
        error_msg,
        "client_id and/or client_secret"@,
    ) {
        seq![
            ev(0, LineView::Text(Seq::empty())),
            ev(0, LineView::TraceError("OAuth Error: Invalid client credentials"@)),
            ev(0, LineView::Text("The client_id and/or client_secret are incorrect."@)),
            ev(0, LineView::Text(Seq::empty())),
            ev(0, LineView::Text("To fix this:"@)),
            ev(0, LineView::Text("1. Verify your OAuth application settings"@)),
            ev(0, LineView::Text("2. Make sure the client_id and client_secret match exactly"@)),
            ev(0, LineView::Text("3. For GitHub: client_secret is required for OAuth Apps"@)),
            ev(0, LineView::Text("4. Check for trailing spaces or incorrect copy/paste"@)),
            ev(0, LineView::Text(Seq::empty())),
        ]
    } else {
        seq![ev(0, LineView::Text(Seq::empty()))]
    }
}

/// Explains an OAuth failure where its message tells the cause: a redirect
/// URL the provider does not know, or wrong client credentials.
pub fn handle_oauth_error(out: &mut Vec<Entry>, error_msg: &str, redirect_url: &str)
    ensures
        entries_view(final(out)@) == entries_view(old(out)@) + oauth_hint_spec(
            error_msg@,
            redirect_url@,
        ),
{
    let ghost before = entries_view(out@);
    if text_contains(error_msg, "redirect_uri") || text_contains(error_msg, "redirect URL") {
        push_text(out, 0, "");
        push_entry(out, 0, Line::TraceError(string_from_str("OAuth Error: Redirect URL not registered")));
        push_text(out, 0, "The redirect URL is not associated with your OAuth application.");
        push_text(out, 0, "");
        push_text(out, 0, "To fix this:");
        push_text(out, 0, "1. Go to your OAuth application settings");
        let mut t = string_from_str("2. Add this redirect URL: ");
        push_str(&mut t, redirect_url);
        push_entry(out, 0, Line::Text(t));
        push_text(out, 0, "3. Run this command again");
    } else if text_contains(error_msg, "incorrect_client_credentials") || text_contains(
        error_msg,
        "client_id and/or client_secret",
    ) {
        push_text(out, 0, "");
        push_entry(out, 0, Line::TraceError(string_from_str("OAuth Error: Invalid client credentials")));
        push_text(out, 0, "The client_id and/or client_secret are incorrect.");
        push_text(out, 0, "");
        push_text(out, 0, "To fix this:");
        push_text(out, 0, "1. Verify your OAuth application settings");
        push_text(out, 0, "2. Make sure the client_id and client_secret match exactly");
        push_text(out, 0, "3. For GitHub: client_secret is required for OAuth Apps");
        push_text(out, 0, "4. Check for trailing spaces or incorrect copy/paste");
    }
    push_text(out, 0, "");
    assert(Seq::<char>::empty() =~= ""@) by {
        reveal_strlit("");
    }
    assert(entries_view(out@) =~= before + oauth_hint_spec(error_msg@, redirect_url@));
}

/// The error an OAuth failure ends the command with.
pub fn oauth_error(error_msg: &str) -> (e: Error)
    ensures
        e@ == ErrorView::Other("OAuth error: "@ + error_msg@),
{
    let mut m = string_from_str("OAuth error: ");
    push_str(&mut m, error_msg);
    Error::Other(m)
}

// ---------------------------------------------------------------------------
// Token expiry
// ---------------------------------------------------------------------------

/// When a stored token expires, as seen at the moment of asking.
#[derive(Debug, Clone, Copy, PartialEq, Eq, Structural)]
pub enum TokenExpiry {
    /// No expiry is recorded.
    Unknown,
    /// It expires in this many whole seconds.
    In(u64),
    /// It has expired.
    Passed,
}

/// `{h}h {m}m` for a number of seconds, where `h` counts whole hours.
pub open spec fn hours_minutes(secs: u64) -> Seq<char> {
    nat_to_decimal((secs / 3600) as nat) + "h "@ + nat_to_decimal(((secs % 3600) / 60) as nat) + "m"@
}

/// The status of a stored entry's token in the list of entries.
pub open spec fn token_status_spec(has_token: bool, expiry: TokenExpiry) -> Seq<char> {
    if !has_token {
        "No token"@
    } else {
        match expiry {
            TokenExpiry::Unknown => "Valid"@,
            TokenExpiry::In(secs) => if secs / 3600 > 0 {
                "Valid ("@ + hours_minutes(secs) + ")"@
            } else {
                "Valid ("@ + nat_to_decimal(((secs % 3600) / 60) as nat) + "m)"@
            },
            TokenExpiry::Passed => "Expired"@,
        }
    }
}

/// The status of a stored token with `secs` seconds left shows the time
/// left as whole hours `h` and whole minutes `m` below an hour, rounded
/// down: `h` hours and `m` minutes are at most `secs` seconds, and a minute
/// more would be too much. The hours are shown only when there is at least
/// one.
pub proof fn lemma_token_status_shows_time_left(secs: u64)
    ensures
        exists|h: nat, m: nat|
            #![trigger nat_to_decimal(h), nat_to_decimal(m)]
            m < 60 && h * 3600 + m * 60 <= secs < h * 3600 + m * 60 + 60 && token_status_spec(
                true,
                TokenExpiry::In(secs),
            ) == if h > 0 {
                "Valid ("@ + nat_to_decimal(h) + "h "@ + nat_to_decimal(m) + "m)"@
            } else {
                "Valid ("@ + nat_to_decimal(m) + "m)"@
            },
        secs < 3600 ==> token_status_spec(true, TokenExpiry::In(secs)) == "Valid ("@
            + nat_to_decimal((secs / 60) as nat) + "m)"@,
{
    let h: nat = (secs / 3600) as nat;
    let m: nat = ((secs % 3600) / 60) as nat;
    assert(m < 60 && h * 3600 + m * 60 <= secs < h * 3600 + m * 60 + 60) by (nonlinear_arith)
        requires
            h == secs / 3600,
            m == (secs % 3600) / 60,
    {
    }
    reveal_strlit("m");
    reveal_strlit(")");
    reveal_strlit("m)");
    if h > 0 {
        assert("Valid ("@ + hours_minutes(secs) + ")"@ =~= "Valid ("@ + nat_to_decimal(h) + "h "@
            + nat_to_decimal(m) + "m)"@);
    }
    assert(token_status_spec(true, TokenExpiry::In(secs)) == if h > 0 {
        "Valid ("@ + nat_to_decimal(h) + "h "@ + nat_to_decimal(m) + "m)"@
    } else {
        "Valid ("@ + nat_to_decimal(m) + "m)"@
    });
    let dh = nat_to_decimal(h);
    let dm = nat_to_decimal(m);
    assert(m < 60 && h * 3600 + m * 60 <= secs < h * 3600 + m * 60 + 60 && token_status_spec(
        true,
        TokenExpiry::In(secs),
    ) == if h > 0 {
        "Valid ("@ + dh + "h "@ + dm + "m)"@
    } else {
        "Valid ("@ + dm + "m)"@
    });
    if secs < 3600 {
        assert(secs % 3600 == secs);
    }
}

fn push_hours_minutes(s: &mut String, secs: u64)
    ensures
        final(s)@ == old(s)@ + hours_minutes(secs),
{
    let h = u64_to_decimal(secs / 3600);
    let m = u64_to_decimal((secs % 3600) / 60);
    push_str(s, h.as_str());
    push_str(s, "h ");
    push_str(s, m.as_str());
    push_str(s, "m");
}

/// Builds the status of a stored entry's token.
pub fn token_status(has_token: bool, expiry: TokenExpiry) -> (s: String)
    ensures
        s@ == token_status_spec(has_token, expiry),
{
    if !has_token {
        return string_from_str("No token");
    }
    match expiry {
        TokenExpiry::Unknown => string_from_str("Valid"),
        TokenExpiry::In(secs) => {
            let mut s = string_from_str("Valid (");
            if secs / 3600 > 0 {
                push_hours_minutes(&mut s, secs);
                push_str(&mut s, ")");
            } else {
                let m = u64_to_decimal((secs % 3600) / 60);
                push_str(&mut s, m.as_str());
                push_str(&mut s, "m)");
            }
            s
        },
        TokenExpiry::Passed => string_from_str("Expired"),
    }
}

/// The line that tells when a token expires, before renewal (`renewed`
/// false) or after it.
pub open spec fn expiry_line_spec(expiry: TokenExpiry, renewed: bool) -> Seq<char> {
    match expiry {
        TokenExpiry::Unknown => "  No expiration information available"@,
        TokenExpiry::In(secs) => "  Token expires in "@ + hours_minutes(secs),
        TokenExpiry::Passed => if renewed {
            "  Token is already expired"@
        } else {
            "  Token is expired"@
        },
    }
}

/// Builds the line that tells when a token expires.
pub fn expiry_line(expiry: TokenExpiry, renewed: bool) -> (s: String)
    ensures
        s@ == expiry_line_spec(expiry, renewed),
{
    match expiry {
        TokenExpiry::Unknown => string_from_str("  No expiration information available"),
        TokenExpiry::In(secs) => {
            let mut s = string_from_str("  Token expires in ");
            push_hours_minutes(&mut s, secs);
            s
        },
        TokenExpiry::Passed => if renewed {
            string_from_str("  Token is already expired")
        } else {
            string_from_str("  Token is expired")
        },
    }
}

/// A token can only be renewed with a refresh token.
pub fn check_refresh_token(has_refresh_token: bool) -> (r: Result<(), Error>)
    ensures
        unit_result_view(r) == if has_refresh_token {
            Ok::<(), ErrorView>(())
        } else {
            Err(ErrorView::Other("No refresh token available for this authentication entry"@))
        },
{
    if has_refresh_token {
        Ok(())
    } else {
        Err(Error::Other(string_from_str("No refresh token available for this authentication entry")))
    }
}

/// The redirect URL used when renewing: the stored one, else a placeholder.
pub fn renewal_redirect_url(stored: &Option<String>) -> (s: String)
    ensures
        s@ == match *stored {
            Some(u) => u@,
            None => "http://localhost:0"@,
        },
{
    match stored {
        Some(u) => u.clone(),
        None => string_from_str("http://localhost:0"),
    }
}

// ---------------------------------------------------------------------------
// Listing and removing entries
// ---------------------------------------------------------------------------

/// What the list of entries shows of one entry.
pub struct AuthSummary {
    /// The entry's name.
    pub name: String,
    /// The server URL.
    pub server_url: String,
    /// The client ID.
    pub client_id: String,
    /// Whether an access token is stored.
    pub has_token: bool,
    /// When the token expires.
    pub expiry: TokenExpiry,
}

/// The widest of `min` and the byte lengths of the names.
pub open spec fn name_width(s: Seq<AuthSummary>, min: nat) -> nat
    decreases s.len(),
{
    if s.len() == 0 {
        min
    } else {
        let w = name_width(s.drop_last(), min);
        let l = (utf8_len(s.last().name@) as usize) as nat;
        if l > w { l } else { w }
    }
}

/// The widest of `min` and the byte lengths of the server URLs.
pub open spec fn server_width(s: Seq<AuthSummary>, min: nat) -> nat
    decreases s.len(),
{
    if s.len() == 0 {
        min
    } else {
        let w = server_width(s.drop_last(), min);
        let l = (utf8_len(s.last().server_url@) as usize) as nat;
        if l > w { l } else { w }
    }
}

/// The widest of `min` and the byte lengths of the client IDs.
pub open spec fn client_width(s: Seq<AuthSummary>, min: nat) -> nat
    decreases s.len(),
{
    if s.len() == 0 {
        min
    } else {
        let w = client_width(s.drop_last(), min);
        let l = (utf8_len(s.last().client_id@) as usize) as nat;
        if l > w { l } else { w }
    }
}

/// A row of the table: four columns, the first three padded to their width.
pub open spec fn row_spec(a: Seq<char>, b: Seq<char>, c: Seq<char>, d: Seq<char>, wa: nat, wb: nat, wc: nat) -> Seq<char> {
    pad_right(a, wa, ' ') + "  "@ + pad_right(b, wb, ' ') + "  "@ + pad_right(c, wc, ' ') + "  "@ + d
}

/// `n` dashes.
pub open spec fn dashes(n: nat) -> Seq<char> {
    Seq::new(n, |i: int| '-')
}

/// The rows for the entries.
pub open spec fn rows_spec(s: Seq<AuthSummary>, wa: nat, wb: nat, wc: nat) -> Seq<EntryView>
    decreases s.len(),
{
    if s.len() == 0 {
        Seq::empty()
    } else {
        rows_spec(s.drop_last(), wa, wb, wc) + seq![
            ev(
                0,
                LineView::Text(
                    row_spec(
                        s.last().name@,
                        s.last().server_url@,
                        s.last().client_id@,
                        token_status_spec(s.last().has_token, s.last().expiry),
                        wa,
                        wb,
                        wc,
                    ),
                ),
            ),
        ]
    }
}

/// What the list of stored entries shows: a table of names, servers,
/// client IDs and token status, each column as wide as its widest value
/// (counted in bytes) and at least as wide as its title.
pub open spec fn auth_table_spec(s: Seq<AuthSummary>) -> Seq<EntryView> {
    if s.len() == 0 {
        seq![
            ev(0, LineView::Text("No authentication entries found."@)),
            ev(0, LineView::Text(Seq::empty())),
            ev(0, LineView::Text("Use 'mcptool auth add <name>' to add a new authentication entry."@)),
        ]
    } else {
        let wa = name_width(s, 4);
        let wb = server_width(s, 6);
        let wc = client_width(s, 9);
        seq![
            ev(0, LineView::Heading(0, "Authentication entries ("@ + nat_to_decimal(s.len()) + "):"@)),
            ev(0, LineView::Text(Seq::empty())),
            ev(0, LineView::Text(row_spec("Name"@, "Server"@, "Client ID"@, "Status"@, wa, wb, wc))),
            ev(
                0,
                LineView::Text(
                    dashes(wa) + "  "@ + dashes(wb) + "  "@ + dashes(wc) + "  "@ + dashes(10),
                ),
            ),
        ] + rows_spec(s, wa, wb, wc)
    }
}

fn row_text(a: &str, b: &str, c: &str, d: &str, wa: usize, wb: usize, wc: usize) -> (s: String)
    ensures
        s@ == row_spec(a@, b@, c@, d@, wa as nat, wb as nat, wc as nat),
{
    let mut s = String::new();
    push_padded(&mut s, a, wa, ' ');
    push_str(&mut s, "  ");
    push_padded(&mut s, b, wb, ' ');
    push_str(&mut s, "  ");
    push_padded(&mut s, c, wc, ' ');
    push_str(&mut s, "  ");
    push_str(&mut s, d);
    assert(s@ =~= row_spec(a@, b@, c@, d@, wa as nat, wb as nat, wc as nat));
    s
}

fn column_widths(s: &Vec<AuthSummary>) -> (r: (usize, usize, usize))
    ensures
        r.0 as nat == name_width(s@, 4),
        r.1 as nat == server_width(s@, 6),
        r.2 as nat == client_width(s@, 9),
{
    let mut wa: usize = 4;
    let mut wb: usize = 6;
    let mut wc: usize = 9;
    let mut i: usize = 0;
    while i < s.len()
        invariant
            i <= s@.len(),
            wa as nat == name_width(s@.subrange(0, i as int), 4),
            wb as nat == server_width(s@.subrange(0, i as int), 6),
            wc as nat == client_width(s@.subrange(0, i as int), 9),
        decreases s@.len() - i,
    {
        let ghost next = s@.subrange(0, i + 1);
        assert(next.drop_last() =~= s@.subrange(0, i as int));
        assert(next.last() == s@[i as int]);
        let la = s[i].name.as_str().len();
        let lb = s[i].server_url.as_str().len();
        let lc = s[i].client_id.as_str().len();
        if la > wa {
            wa = la;
        }
        if lb > wb {
            wb = lb;
        }
        if lc > wc {
            wc = lc;
        }
        i = i + 1;
    }
    assert(s@.subrange(0, s@.len() as int) =~= s@);
    (wa, wb, wc)
}

/// Shows the stored entries as a table.
pub fn auth_table(out: &mut Vec<Entry>, entries: &Vec<AuthSummary>)
    ensures
        entries_view(final(out)@) == entries_view(old(out)@) + auth_table_spec(entries@),
{
    let ghost before = entries_view(out@);
    assert(Seq::<char>::empty() =~= ""@) by {
        reveal_strlit("");
    }
    if entries.len() == 0 {
        push_text(out, 0, "No authentication entries found.");
        push_text(out, 0, "");
        push_text(out, 0, "Use 'mcptool auth add <name>' to add a new authentication entry.");
        assert(entries_view(out@) =~= before + auth_table_spec(entries@));
        return;
    }
    let (wa, wb, wc) = column_widths(entries);
    let mut head = string_from_str("Authentication entries (");
    let n = u64_to_decimal(entries.len() as u64);
    push_str(&mut head, n.as_str());
    push_str(&mut head, "):");
    push_entry(out, 0, Line::Heading(0, head));
    push_text(out, 0, "");
    let titles = row_text("Name", "Server", "Client ID", "Status", wa, wb, wc);
    push_entry(out, 0, Line::Text(titles));
    let mut rule = String::new();
    push_repeated(&mut rule, '-', wa);
    push_str(&mut rule, "  ");
    push_repeated(&mut rule, '-', wb);
    push_str(&mut rule, "  ");
    push_repeated(&mut rule, '-', wc);
    push_str(&mut rule, "  ");
    push_repeated(&mut rule, '-', 10);
    assert(rule@ =~= dashes(wa as nat) + "  "@ + dashes(wb as nat) + "  "@ + dashes(wc as nat) + "  "@
        + dashes(10));
    push_entry(out, 0, Line::Text(rule));
    let ghost head_part = entries_view(out@);
    let mut i: usize = 0;
    while i < entries.len()
        invariant
            i <= entries@.len(),
            entries_view(out@) == head_part + rows_spec(
                entries@.subrange(0, i as int),
                wa as nat,
                wb as nat,
                wc as nat,
            ),
        decreases entries@.len() - i,
    {
        let e = &entries[i];
        let status = token_status(e.has_token, e.expiry);
        let row = row_text(
            e.name.as_str(),
            e.server_url.as_str(),
            e.client_id.as_str(),
            status.as_str(),
            wa,
            wb,
            wc,
        );
        push_entry(out, 0, Line::Text(row));
        proof {
            let next = entries@.subrange(0, i + 1);
            assert(next.drop_last() =~= entries@.subrange(0, i as int));
        }
        i = i + 1;
    }
    assert(entries@.subrange(0, entries@.len() as int) =~= entries@);
    assert(entries_view(out@) =~= before + auth_table_spec(entries@));
}

/// An entry can only be removed if it is stored.
pub fn check_entry_exists(name: &str, existing: &Vec<String>) -> (r: Result<(), String>)
    ensures
        match r {
            Ok(()) => name_listed(existing.deep_view(), name@),
            Err(m) => !name_listed(existing.deep_view(), name@) && m@ == "Authentication entry '"@
                + name@ + "' not found"@,
        },
{
    if is_listed(existing, name) {
        Ok(())
    } else {
        let mut m = string_from_str("Authentication entry '");
        push_str(&mut m, name);
        push_str(&mut m, "' not found");
        Err(m)
    }
}

/// What is shown before asking to confirm a removal.
pub open spec fn removal_notice_spec(name: Seq<char>, server_url: Seq<char>, client_id: Seq<char>) -> Seq<EntryView> {
    seq![
        ev(0, LineView::Warn("About to remove authentication entry '"@ + name + "'"@)),
        ev(0, LineView::Text("  Server: "@ + server_url)),
        ev(0, LineView::Text("  Client ID: "@ + client_id)),
        ev(0, LineView::Text(Seq::empty())),
    ]
}

/// Shows which entry is about to be removed.
pub fn removal_notice(out: &mut Vec<Entry>, name: &str, server_url: &str, client_id: &str)
    ensures
        entries_view(final(out)@) == entries_view(old(out)@) + removal_notice_spec(
            name@,
            server_url@,
            client_id@,
        ),
{
    let ghost before = entries_view(out@);
    let mut w = string_from_str("About to remove authentication entry '");
    push_str(&mut w, name);
    push_str(&mut w, "'");
    push_entry(out, 0, Line::Warn(w));
    let mut s = string_from_str("  Server: ");
    push_str(&mut s, server_url);
    push_entry(out, 0, Line::Text(s));
    let mut c = string_from_str("  Client ID: ");
    push_str(&mut c, client_id);
    push_entry(out, 0, Line::Text(c));
    push_text(out, 0, "");
    assert(Seq::<char>::empty() =~= ""@) by {
        reveal_strlit("");
    }
    assert(entries_view(out@) =~= before + removal_notice_spec(name@, server_url@, client_id@));
}

/// Whether the answer confirms a removal: `y` in either case, once white
/// space is trimmed (no other text lower-cases to `y`).
pub open spec fn confirms_removal_spec(answer: Seq<char>) -> bool {
    trim_spec(answer) == "y"@ || trim_spec(answer) == "Y"@
}

/// Decides whether the answer confirms a removal.
pub fn confirms_removal(answer: &str) -> (b: bool)
    ensures
        b == confirms_removal_spec(answer@),
{
    let t = trim(answer);
    str_eq(t.as_str(), "y") || str_eq(t.as_str(), "Y")
}

} // verus!
