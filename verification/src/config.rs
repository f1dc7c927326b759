//! Configuration of the server and the client: defaults, the checks a
//! loaded configuration must pass, and the client's reconnect backoff.
use vstd::prelude::*;
use vstd::string::*;

use crate::text::{is_blank, is_blank_text, is_white_space, join, owned, starts_with_char, text_eq};

verus! {

/// Server name announced to clients when the configuration gives none.
pub fn default_server_name() -> (r: String)
    ensures
        r@ == "houdini"@,
{
    owned("houdini")
}

/// Path of the WebSocket control endpoint when the configuration gives none.
pub fn default_control_path() -> (r: String)
    ensures
        r@ == "/_houdini/v1/control"@,
{
    owned("/_houdini/v1/control")
}

/// Seconds before the first reconnect when the configuration gives none.
pub fn default_min_backoff() -> (r: u64)
    ensures
        r == 1,
{
    1
}

/// Upper bound of the reconnect delay, in seconds, when the configuration
/// gives none.
pub fn default_max_backoff() -> (r: u64)
    ensures
        r == 30,
{
    30
}

/// Why a configuration was refused.
#[derive(Debug)]
pub enum ConfigError {
    EmptyAuthToken,
    ControlPathNotAbsolute(String),
    ServerUrlScheme(String),
    LocalTargetScheme(String),
    UnparsableUrl(String),
}

/// The abstract form of a [`ConfigError`].
pub enum ConfigFault {
    EmptyAuthToken,
    ControlPathNotAbsolute(Seq<char>),
    ServerUrlScheme(Seq<char>),
    LocalTargetScheme(Seq<char>),
    UnparsableUrl(Seq<char>),
}

impl View for ConfigError {
    type V = ConfigFault;

    open spec fn view(&self) -> ConfigFault {
        match self {
            ConfigError::EmptyAuthToken => ConfigFault::EmptyAuthToken,
            ConfigError::ControlPathNotAbsolute(p) => ConfigFault::ControlPathNotAbsolute(p@),
            ConfigError::ServerUrlScheme(s) => ConfigFault::ServerUrlScheme(s@),
            ConfigError::LocalTargetScheme(s) => ConfigFault::LocalTargetScheme(s@),
            ConfigError::UnparsableUrl(t) => ConfigFault::UnparsableUrl(t@),
        }
    }
}

/// A check's result with the error taken by its view.
pub open spec fn verdict(r: Result<(), ConfigError>) -> Result<(), ConfigFault> {
    match r {
        Ok(()) => Ok(()),
        Err(e) => Err(e@),
    }
}

/// The text of a configuration error.
pub open spec fn fault_message(f: ConfigFault) -> Seq<char> {
    match f {
        ConfigFault::EmptyAuthToken => "auth_token must not be empty"@,
        ConfigFault::ControlPathNotAbsolute(p) => "control_path must start with '/' (got '"@ + p
            + "')"@,
        ConfigFault::ServerUrlScheme(s) => "server_url scheme must be 'ws' or 'wss' (got '"@ + s
            + "')"@,
        ConfigFault::LocalTargetScheme(s) => "local_target scheme must be 'http' or 'https' (got '"@
            + s + "')"@,
        ConfigFault::UnparsableUrl(t) => "not a URL: '"@ + t + "'"@,
    }
}

/// `a + b + c`.
fn join3(a: &str, b: &str, c: &str) -> (r: String)
    ensures
        r@ == a@ + b@ + c@,
{
    let mut r = join(a, b);
    r.append(c);
    r
}

impl ConfigError {
    /// The error's text.
    pub fn message(&self) -> (r: String)
        ensures
            r@ == fault_message(self@),
    {
        match self {
            ConfigError::EmptyAuthToken => owned("auth_token must not be empty"),
            ConfigError::ControlPathNotAbsolute(p) => join3(
                "control_path must start with '/' (got '",
                p.as_str(),
                "')",
            ),
            ConfigError::ServerUrlScheme(s) => join3(
                "server_url scheme must be 'ws' or 'wss' (got '",
                s.as_str(),
                "')",
            ),
            ConfigError::LocalTargetScheme(s) => join3(
                "local_target scheme must be 'http' or 'https' (got '",
                s.as_str(),
                "')",
            ),
            ConfigError::UnparsableUrl(t) => join3("not a URL: '", t.as_str(), "'"),
        }
    }
}

/// What the server's configuration logic reads.
pub struct ServerConfig {
    pub auth_token: String,
    pub server_name: String,
    pub control_path: String,
}

/// The server configuration is refused when its token is blank, or when
/// its control path does not start with `/`.
pub open spec fn server_verdict(auth_token: Seq<char>, control_path: Seq<char>) -> Result<
    (),
    ConfigFault,
> {
    if is_blank_text(auth_token) {
        Err(ConfigFault::EmptyAuthToken)
    } else if !(control_path.len() > 0 && control_path[0] == '/') {
        Err(ConfigFault::ControlPathNotAbsolute(control_path))
    } else {
        Ok(())
    }
}

impl ServerConfig {
    /// Checks a loaded server configuration.
    pub fn validate(&self) -> (r: Result<(), ConfigError>)
        ensures
            verdict(r) == server_verdict(self.auth_token@, self.control_path@),
    {
        if is_blank(self.auth_token.as_str()) {
            return Err(ConfigError::EmptyAuthToken);
        }
        if !starts_with_char(self.control_path.as_str(), '/') {
            return Err(ConfigError::ControlPathNotAbsolute(owned(self.control_path.as_str())));
        }
        Ok(())
    }
}

/// The scheme that `url::Url::parse` finds in a text, or `None` when the
/// text is not a URL.
pub uninterp spec fn url_scheme(text: Seq<char>) -> Option<Seq<char>>;

/// ASCII text without upper-case letters.
pub open spec fn is_lower_ascii(s: Seq<char>) -> bool {
    forall|i: int| 0 <= i < s.len() ==> (#[trigger] s[i] as u32) < 128 && !('A' <= s[i] <= 'Z')
}

/// `url::Url::parse`, handing back the parsed URL's scheme (`Url::scheme`).
/// The contract ties the result to the text through the name `url_scheme`
/// and states what the crate documents of a scheme: it is lower-cased
/// ASCII. What the WHATWG URL parser makes of a text is not spelled out.
#[verifier::external_body]
fn parse_url_scheme(text: &str) -> (r: Option<String>)
    ensures
        r matches Some(s) ==> url_scheme(text@) == Some(s@) && is_lower_ascii(s@),
        r is None ==> url_scheme(text@) is None,
{
    url::Url::parse(text).ok().map(|u| u.scheme().to_owned())
}

/// What the client's configuration logic reads. The URLs are held as
/// their text.
pub struct ClientConfig {
    /// WebSocket URL of the server's control endpoint.
    pub server_url: String,
    pub auth_token: String,
    /// URL that tunnelled requests are forwarded to.
    pub local_target: String,
    pub client_name: Option<String>,
    pub reconnect_min_secs: u64,
    pub reconnect_max_secs: u64,
}

/// The client configuration is refused when a URL does not parse (the
/// server URL first, then the local target), when its token is blank,
/// when the server URL is not a `ws` or `wss` URL, or when the local target
/// is not an `http` or `https` URL; the checks run in that order.
pub open spec fn client_verdict(
    auth_token: Seq<char>,
    server_url: Seq<char>,
    server_scheme: Option<Seq<char>>,
    local_target: Seq<char>,
    local_scheme: Option<Seq<char>>,
) -> Result<(), ConfigFault> {
    if server_scheme is None {
        Err(ConfigFault::UnparsableUrl(server_url))
    } else if local_scheme is None {
        Err(ConfigFault::UnparsableUrl(local_target))
    } else if is_blank_text(auth_token) {
        Err(ConfigFault::EmptyAuthToken)
    } else if !(server_scheme->0 == "ws"@ || server_scheme->0 == "wss"@) {
        Err(ConfigFault::ServerUrlScheme(server_scheme->0))
    } else if !(local_scheme->0 == "http"@ || local_scheme->0 == "https"@) {
        Err(ConfigFault::LocalTargetScheme(local_scheme->0))
    } else {
        Ok(())
    }
}

/// The view of an optional text.
pub open spec fn opt_view(s: Option<String>) -> Option<Seq<char>> {
    match s {
        Some(t) => Some(t@),
        None => None,
    }
}

/// Checks the client settings, given the schemes the URLs parse to.
pub fn check_client_settings(
    auth_token: &str,
    server_url: &str,
    server_scheme: Option<String>,
    local_target: &str,
    local_scheme: Option<String>,
) -> (r: Result<(), ConfigError>)
    ensures
        verdict(r) == client_verdict(
            auth_token@,
            server_url@,
            opt_view(server_scheme),
            local_target@,
            opt_view(local_scheme),
        ),
{
    let server = match server_scheme {
        None => {
            return Err(ConfigError::UnparsableUrl(owned(server_url)));
        },
        Some(s) => s,
    };
    let local = match local_scheme {
        None => {
            return Err(ConfigError::UnparsableUrl(owned(local_target)));
        },
        Some(s) => s,
    };
    if is_blank(auth_token) {
        return Err(ConfigError::EmptyAuthToken);
    }
    if !(text_eq(server.as_str(), "ws") || text_eq(server.as_str(), "wss")) {
        return Err(ConfigError::ServerUrlScheme(server));
    }
    if !(text_eq(local.as_str(), "http") || text_eq(local.as_str(), "https")) {
        return Err(ConfigError::LocalTargetScheme(local));
    }
    Ok(())
}

impl ClientConfig {
    /// Checks a loaded client configuration.
    pub fn validate(&self) -> (r: Result<(), ConfigError>)
        ensures
            verdict(r) == client_verdict(
                self.auth_token@,
                self.server_url@,
                url_scheme(self.server_url@),
                self.local_target@,
                url_scheme(self.local_target@),
            ),
    {
        let server_scheme = parse_url_scheme(self.server_url.as_str());
        let local_scheme = parse_url_scheme(self.local_target.as_str());
        check_client_settings(
            self.auth_token.as_str(),
            self.server_url.as_str(),
            server_scheme,
            self.local_target.as_str(),
            local_scheme,
        )
    }

    /// The first reconnect delay, in seconds: the configured one, at least 1.
    pub fn min_backoff(&self) -> (r: u64)
        ensures
            r == max_u64(self.reconnect_min_secs, 1),
    {
        if self.reconnect_min_secs >= 1 {
            self.reconnect_min_secs
        } else {
            1
        }
    }

    /// The largest reconnect delay, in seconds: the configured one, but
    /// never below the first delay.
    pub fn max_backoff(&self) -> (r: u64)
        ensures
            r == max_u64(self.reconnect_max_secs, max_u64(self.reconnect_min_secs, 1)),
    {
        let lo = self.min_backoff();
        if self.reconnect_max_secs >= lo {
            self.reconnect_max_secs
        } else {
            lo
        }
    }
}

/// The larger of two numbers.
pub open spec fn max_u64(a: u64, b: u64) -> u64 {
    if a >= b {
        a
    } else {
        b
    }
}

/// The delay before the next reconnect: it starts at the first delay and
/// doubles after each attempt, capped at the largest delay.
pub struct Backoff {
    current: u64,
    max: u64,
}

impl Backoff {
    /// The current delay lies between 1 and the cap.
    pub closed spec fn wf(self) -> bool {
        1 <= self.current <= self.max
    }

    /// The current delay, in seconds.
    pub closed spec fn delay(self) -> u64 {
        self.current
    }

    /// The cap, in seconds.
    pub closed spec fn cap(self) -> u64 {
        self.max
    }

    /// The backoff a client with this configuration starts with.
    pub fn new(config: &ClientConfig) -> (b: Backoff)
        ensures
            b.wf(),
            b.delay() == max_u64(config.reconnect_min_secs, 1),
            b.cap() == max_u64(config.reconnect_max_secs, max_u64(config.reconnect_min_secs, 1)),
    {
        Backoff { current: config.min_backoff(), max: config.max_backoff() }
    }

    /// The current delay, in seconds.
    pub fn current(&self) -> (r: u64)
        ensures
            r == self.delay(),
    {
        self.current
    }

    /// Doubles the delay, up to the cap. Doubling a delay of more than
    /// `u64::MAX / 2` seconds overflows, so that is left out.
    pub fn advance(&mut self)
        requires
            old(self).wf(),
            old(self).delay() <= u64::MAX / 2,
        ensures
            final(self).wf(),
            final(self).cap() == old(self).cap(),
            old(self).delay() <= final(self).delay() <= final(self).cap(),
            final(self).delay() == if 2 * old(self).delay() <= old(self).cap() {
                2 * old(self).delay()
            } else {
                old(self).cap() as int
            },
    {
        let doubled = self.current * 2;
        self.current = if doubled <= self.max {
            doubled
        } else {
            self.max
        };
    }
}

/// The server configuration is accepted exactly when its token has a
/// character other than white space and its control path's first
/// character is `/`. A blank token is reported before a bad path.
pub proof fn lemma_server_config_accepted(auth_token: Seq<char>, control_path: Seq<char>)
    ensures
        server_verdict(auth_token, control_path) is Ok <==> (exists|i: int|
            0 <= i < auth_token.len() && !is_white_space(#[trigger] auth_token[i]))
            && control_path.len() > 0 && control_path[0] == '/',
        (forall|i: int| 0 <= i < auth_token.len() ==> is_white_space(#[trigger] auth_token[i]))
            ==> server_verdict(auth_token, control_path) == Err::<(), ConfigFault>(
            ConfigFault::EmptyAuthToken,
        ),
        !(forall|i: int| 0 <= i < auth_token.len() ==> is_white_space(#[trigger] auth_token[i]))
            && !(control_path.len() > 0 && control_path[0] == '/') ==> server_verdict(
            auth_token,
            control_path,
        ) == Err::<(), ConfigFault>(ConfigFault::ControlPathNotAbsolute(control_path)),
{
}

/// The client configuration is accepted exactly when both URLs parse, the
/// token has a character other than white space, the server URL's scheme
/// is `ws` or `wss` and the local target's scheme is `http` or `https`.
/// A refused scheme is reported as it was found.
pub proof fn lemma_client_config_accepted(
    auth_token: Seq<char>,
    server_url: Seq<char>,
    server_scheme: Option<Seq<char>>,
    local_target: Seq<char>,
    local_scheme: Option<Seq<char>>,
)
    ensures
        client_verdict(auth_token, server_url, server_scheme, local_target, local_scheme) is Ok
            <==> {
            &&& (server_scheme == Some("ws"@) || server_scheme == Some("wss"@))
            &&& (local_scheme == Some("http"@) || local_scheme == Some("https"@))
            &&& exists|i: int| 0 <= i < auth_token.len() && !is_white_space(#[trigger] auth_token[i])
        },
        server_scheme is Some && local_scheme is Some && !(server_scheme->0 == "ws"@
            || server_scheme->0 == "wss"@)
            && (exists|i: int| 0 <= i < auth_token.len() && !is_white_space(#[trigger] auth_token[i]))
            ==> client_verdict(auth_token, server_url, server_scheme, local_target, local_scheme)
            == Err::<(), ConfigFault>(ConfigFault::ServerUrlScheme(server_scheme->0)),
        server_scheme is None ==> client_verdict(
            auth_token,
            server_url,
            server_scheme,
            local_target,
            local_scheme,
        ) == Err::<(), ConfigFault>(ConfigFault::UnparsableUrl(server_url)),
{
}

/// The reconnect delays: the first is the configured one but at least one
/// second, the largest is the configured one but never below the first.
pub proof fn lemma_backoff_bounds(min_secs: u64, max_secs: u64)
    ensures
        max_u64(min_secs, 1) >= 1,
        max_u64(min_secs, 1) >= min_secs,
        min_secs >= 1 ==> max_u64(min_secs, 1) == min_secs,
        max_u64(max_secs, max_u64(min_secs, 1)) >= max_u64(min_secs, 1),
        max_secs >= max_u64(min_secs, 1) ==> max_u64(max_secs, max_u64(min_secs, 1)) == max_secs,
        max_secs < max_u64(min_secs, 1) ==> max_u64(max_secs, max_u64(min_secs, 1)) == max_u64(
            min_secs,
            1,
        ),
{
}

} // verus!
