//! SMPP addon configuration.
//!
//! Three top-level concerns:
//!
//!   * `server`  — the inbound SMPP listener (an ESME binds to *us*)
//!   * `binds`   — outbound SMPP binds to other ESMEs / aggregators
//!     (we bind to *them* to forward MT traffic)
//!   * `routing` — declarative SMS routing rules + default chain
//!
//! How the script sees a configuration is the business of [`crate::readout`];
//! what the environment adds to it, that of [`crate::env`].
use crate::numbers::IntError;
use crate::text;
use vstd::prelude::*;

verus! {

/// The whole addon configuration.
#[derive(Debug, Clone)]
pub struct SmppConfig {
    /// Inbound SMPP listener (ESMEs binding to us).
    pub server: ServerConfig,
    /// Outbound SMPP binds, in the order in which they were declared.
    pub binds: Vec<BindConfig>,
    /// Declarative SMS routing rules.
    pub routing: RoutingConfig,
    /// Listen address of the flat shape, used where `server` has none.
    pub bind_address: Option<String>,
    /// Listen port of the flat shape, used where `server` has none.
    pub port: Option<u16>,
}

/// The first of two texts that is there, or else a third.
pub open spec fn first_text(a: Option<String>, b: Option<String>, c: Seq<char>) -> Seq<char> {
    match (a, b) {
        (Some(x), _) => x@,
        (None, Some(y)) => y@,
        (None, None) => c,
    }
}

/// The first of two ports that is there, or else a third.
pub open spec fn first_port(a: Option<u16>, b: Option<u16>, c: u16) -> u16 {
    match (a, b) {
        (Some(x), _) => x,
        (None, Some(y)) => y,
        (None, None) => c,
    }
}

impl SmppConfig {
    /// The listen address: the nested `server:` one, else the flat one, else
    /// every interface.
    pub open spec fn listen_host(self) -> Seq<char> {
        first_text(self.server.bind_address, self.bind_address, "0.0.0.0"@)
    }

    /// The listen port: the nested `server:` one, else the flat one, else 2775.
    pub open spec fn listen_port(self) -> u16 {
        first_port(self.server.port, self.port, 2775)
    }

    /// Resolved listen `host:port` — prefers nested `server:`, falls back to
    /// flat `bind_address` + `port`, then to defaults. Address and port fall
    /// back on their own.
    pub fn listen(&self) -> (r: (String, u16))
        ensures
            r.0@ == self.listen_host(),
            r.1 == self.listen_port(),
    {
        let host: String = match &self.server.bind_address {
            Some(h) => h.clone(),
            None => match &self.bind_address {
                Some(h) => h.clone(),
                None => "0.0.0.0".to_owned(),
            },
        };
        let port: u16 = match self.server.port {
            Some(p) => p,
            None => match self.port {
                Some(p) => p,
                None => 2775,
            },
        };
        (host, port)
    }
}

/// The inbound listener.
#[derive(Debug, Clone)]
pub struct ServerConfig {
    pub bind_address: Option<String>,
    pub port: Option<u16>,
    pub session_init_timer_ms: u64,
    pub enquire_link_timer_ms: u64,
    pub inactivity_timer_ms: u64,
    pub response_timer_ms: u64,
    /// Inbound throughput cap (msg/s) applied **per bound ESME session** — the
    /// ingress mirror of a bind's `max_msg_per_sec`. Each session gets its own
    /// token bucket, so one busy ESME can't starve another. 0 = unlimited.
    pub max_msg_per_sec: u32,
    /// What to do with an inbound submit that exceeds `max_msg_per_sec`. No
    /// effect when that is 0.
    pub throttle_action: ThrottleAction,
    pub tls: Option<TlsConfig>,
}

impl Default for ServerConfig {
    /// The listener of a configuration without a `server:` section: nothing is
    /// set, and the timers are 0.
    fn default() -> (r: Self)
        ensures
            r.bind_address is None,
            r.port is None,
            r.session_init_timer_ms == 0,
            r.enquire_link_timer_ms == 0,
            r.inactivity_timer_ms == 0,
            r.response_timer_ms == 0,
            r.max_msg_per_sec == 0,
            r.throttle_action == ThrottleAction::Pace,
            r.tls is None,
    {
        ServerConfig {
            bind_address: None,
            port: None,
            session_init_timer_ms: 0,
            enquire_link_timer_ms: 0,
            inactivity_timer_ms: 0,
            response_timer_ms: 0,
            max_msg_per_sec: 0,
            throttle_action: ThrottleAction::Pace,
            tls: None,
        }
    }
}

/// Behaviour when a bound ESME exceeds `server.max_msg_per_sec`.
#[derive(Debug, Clone, Copy, PartialEq, Eq, Structural)]
pub enum ThrottleAction {
    /// Delay the response until a token frees, backpressuring the ESME
    /// through its outstanding-PDU window. A speed limit, not an error.
    Pace,
    /// Answer the over-rate submit immediately with `ESME_RTHROTTLED`
    /// (0x58); the ESME is expected to back off and retry.
    Reject,
}

impl Default for ThrottleAction {
    fn default() -> (r: Self)
        ensures
            r == ThrottleAction::Pace,
    {
        ThrottleAction::Pace
    }
}

impl ThrottleAction {
    /// Lowercase label form (`"pace"` / `"reject"`).
    pub open spec fn label(self) -> Seq<char> {
        match self {
            ThrottleAction::Pace => "pace"@,
            ThrottleAction::Reject => "reject"@,
        }
    }

    /// Lowercase wire/label form (`"pace"` / `"reject"`), used for the
    /// script-visible configuration and log lines.
    pub fn as_str(self) -> (r: &'static str)
        ensures
            r@ == self.label(),
    {
        match self {
            ThrottleAction::Pace => "pace",
            ThrottleAction::Reject => "reject",
        }
    }
}

/// One outbound bind.
#[derive(Debug, Clone)]
pub struct BindConfig {
    /// Bind identifier. Referenced from routing chains as `bind:<name>` and
    /// from the script as `smpp.submit_via(bind="<name>", …)`.
    pub name: String,
    pub host: String,
    pub port: u16,
    pub system_id: String,
    pub password: String,
    /// Optional SMPP system_type. Many aggregators ignore it.
    pub system_type: String,
    /// "transmitter" | "receiver" | "transceiver".
    pub bind_type: String,
    /// Throughput cap (msg/s). 0 = unlimited.
    pub max_msg_per_sec: u32,
    pub enquire_link_timer_ms: u64,
    pub response_timer_ms: u64,
    pub tls: Option<TlsConfig>,
}

/// Routing, as the script reads it.
#[derive(Debug, Clone)]
pub struct RoutingConfig {
    /// Chain tried for any destination not matching a specific rule.
    /// Step values: "ims" | "ss7" | "sgd" | "queue" | "bind:<name>".
    pub default_chain: Vec<String>,
    /// Prefix-matched rules. Longest-prefix-wins; ties: first wins.
    pub rules: Vec<RoutingRule>,
}

impl Default for RoutingConfig {
    fn default() -> (r: Self)
        ensures
            r.default_chain@.len() == 0,
            r.rules@.len() == 0,
    {
        RoutingConfig { default_chain: Vec::new(), rules: Vec::new() }
    }
}

/// One routing rule.
#[derive(Debug, Clone)]
pub struct RoutingRule {
    /// E.164 prefix without leading `+`. Empty string = catch-all.
    pub prefix: String,
    /// Same step grammar as `default_chain`.
    pub chain: Vec<String>,
    /// Optional descriptive name for logs/metrics.
    pub name: String,
    /// Free-form metadata the script may use, in key order: each key with its
    /// value as YAML text.
    pub options: Vec<(String, String)>,
}

/// TLS material.
#[derive(Debug, Clone)]
pub struct TlsConfig {
    pub cert_path: String,
    pub key_path: String,
    pub ca_path: Option<String>,
}

/// Default `session_init` timer.
pub fn default_session_init() -> (r: u64)
    ensures
        r == 5000,
{
    5000
}

/// Default `enquire_link` timer.
pub fn default_enquire_link() -> (r: u64)
    ensures
        r == 30000,
{
    30000
}

/// Default inactivity timer: ten times `enquire_link`, so that a single missed
/// keep-alive does not tear the session down.
pub fn default_inactivity() -> (r: u64)
    ensures
        r == 300000,
{
    300000
}

/// Default response timer: outside the long-tail latency of public SMS
/// aggregators.
pub fn default_response() -> (r: u64)
    ensures
        r == 30000,
{
    30000
}

/// Default bind type.
pub fn default_bind_type() -> (r: String)
    ensures
        r@ == "transceiver"@,
{
    "transceiver".to_owned()
}

/// Why a configuration could not be loaded.
#[allow(inconsistent_fields)]
#[derive(Debug)]
pub enum ConfigError {
    /// The file could not be read; `source` says why.
    Read { path: String, source: String },
    /// The file does not hold a configuration; `source` says why.
    Parse { path: String, source: String },
    /// A bind declared in the environment lacks a field that it must have.
    EnvBindMissing { bind: String, field: &'static str },
    /// A numeric field of a bind declared in the environment is no number.
    EnvBindInvalid { bind: String, field: &'static str, value: String, source: IntError },
}

/// The environment variable that declares `field` of the bind `bind`.
pub open spec fn env_bind_key(bind: Seq<char>, field: Seq<char>) -> Seq<char> {
    "SMPP_BIND_"@ + text::uppercase(bind) + "_"@ + field
}

impl ConfigError {
    /// The error in words.
    pub open spec fn text(self) -> Seq<char> {
        match self {
            ConfigError::Read { path, source } => "read "@ + path@ + ": "@ + source@,
            ConfigError::Parse { path, source } => "parse "@ + path@ + ": "@ + source@,
            ConfigError::EnvBindMissing { bind, field } => "bind "@ + text::quoted(bind@)
                + " from env: missing "@ + env_bind_key(bind@, field@),
            ConfigError::EnvBindInvalid { bind, field, value, source } => "bind "@ + text::quoted(
                bind@,
            ) + " from env: "@ + env_bind_key(bind@, field@) + " = "@ + text::quoted(value@) + " ("@
                + source.text() + ")"@,
        }
    }

    /// The error in words.
    pub fn message(&self) -> (r: String)
        ensures
            r@ == self.text(),
    {
        let mut out: String = String::new();
        match self {
            ConfigError::Read { path, source } => {
                out.append("read ");
                out.append(path.as_str());
                out.append(": ");
                out.append(source.as_str());
            },
            ConfigError::Parse { path, source } => {
                out.append("parse ");
                out.append(path.as_str());
                out.append(": ");
                out.append(source.as_str());
            },
            ConfigError::EnvBindMissing { bind, field } => {
                out.append("bind ");
                out.append(text::to_quoted(bind.as_str()).as_str());
                out.append(" from env: missing ");
                append_env_bind_key(&mut out, bind.as_str(), *field);
            },
            ConfigError::EnvBindInvalid { bind, field, value, source } => {
                out.append("bind ");
                out.append(text::to_quoted(bind.as_str()).as_str());
                out.append(" from env: ");
                append_env_bind_key(&mut out, bind.as_str(), *field);
                out.append(" = ");
                out.append(text::to_quoted(value.as_str()).as_str());
                out.append(" (");
                out.append(source.message());
                out.append(")");
            },
        }
        assert(out@ =~= self.text());
        out
    }
}

/// Appends the name of the environment variable for `field` of `bind`.
fn append_env_bind_key(out: &mut String, bind: &str, field: &str)
    ensures
        final(out)@ == old(out)@ + env_bind_key(bind@, field@),
{
    out.append("SMPP_BIND_");
    out.append(text::to_uppercase(bind).as_str());
    out.append("_");
    out.append(field);
    assert(out@ =~= old(out)@ + env_bind_key(bind@, field@));
}

/// Why the addon could not be installed.
#[derive(Debug)]
pub enum InstallError {
    /// The script interpreter raised.
    Python(String),
    /// The host refused the namespace.
    Siphon(String),
    /// The configuration could not be loaded.
    Config(ConfigError),
    /// Input or output failed.
    Io(String),
}

impl InstallError {
    /// The error in words.
    pub open spec fn text(self) -> Seq<char> {
        match self {
            InstallError::Python(e) => "python error: "@ + e@,
            InstallError::Siphon(e) => "siphon namespace registration: "@ + e@,
            InstallError::Config(e) => "config: "@ + e.text(),
            InstallError::Io(e) => "io: "@ + e@,
        }
    }

    /// The error in words.
    pub fn message(&self) -> (r: String)
        ensures
            r@ == self.text(),
    {
        let mut out: String = String::new();
        match self {
            InstallError::Python(e) => {
                out.append("python error: ");
                out.append(e.as_str());
            },
            InstallError::Siphon(e) => {
                out.append("siphon namespace registration: ");
                out.append(e.as_str());
            },
            InstallError::Config(e) => {
                out.append("config: ");
                out.append(e.message().as_str());
            },
            InstallError::Io(e) => {
                out.append("io: ");
                out.append(e.as_str());
            },
        }
        assert(out@ =~= self.text());
        out
    }
}

impl From<ConfigError> for InstallError {
    fn from(e: ConfigError) -> (r: Self) {
        InstallError::Config(e)
    }
}

impl vstd::std_specs::convert::FromSpecImpl<ConfigError> for InstallError {
    open spec fn obeys_from_spec() -> bool {
        true
    }

    open spec fn from_spec(e: ConfigError) -> Self {
        InstallError::Config(e)
    }
}

// ── What is promised of every configuration ──────────────────────────────

/// Address and port of the nested `server:` section always win over the flat
/// ones.
pub proof fn nested_listen_wins(cfg: SmppConfig)
    ensures
        cfg.server.bind_address matches Some(h) ==> cfg.listen_host() == h@,
        cfg.server.port matches Some(p) ==> cfg.listen_port() == p,
{
}

/// Where the nested section has no address the flat one counts, and where neither
/// has one the listener takes every interface; the port goes the same way, on its
/// own, and ends at 2775.
pub proof fn listening_falls_back(cfg: SmppConfig)
    ensures
        cfg.server.bind_address is None && cfg.bind_address is Some ==> cfg.listen_host()
            == cfg.bind_address->0@,
        cfg.server.bind_address is None && cfg.bind_address is None ==> cfg.listen_host()
            == "0.0.0.0"@,
        cfg.server.port is None && cfg.port is Some ==> cfg.listen_port() == cfg.port->0,
        cfg.server.port is None && cfg.port is None ==> cfg.listen_port() == 2775,
{
}

} // verus!
