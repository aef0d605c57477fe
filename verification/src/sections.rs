//! A configuration file as it is written, with what it leaves out, and the
//! defaults that fill it.
use crate::config::{
    default_bind_type, default_enquire_link, default_inactivity, default_response,
    default_session_init, BindConfig, RoutingConfig, RoutingRule, ServerConfig, SmppConfig,
    ThrottleAction, TlsConfig,
};
use vstd::prelude::*;

verus! {

/// A configuration file. Every section may be missing.
#[derive(Debug)]
pub struct ConfigFile {
    pub server: Option<ServerSection>,
    pub binds: Option<Vec<BindSection>>,
    pub routing: Option<RoutingSection>,
    /// The flat shape, from before there was a `server:` section.
    pub bind_address: Option<String>,
    pub port: Option<u16>,
}

/// The `server:` section.
#[derive(Debug)]
pub struct ServerSection {
    pub bind_address: Option<String>,
    pub port: Option<u16>,
    pub session_init_timer_ms: Option<u64>,
    pub enquire_link_timer_ms: Option<u64>,
    pub inactivity_timer_ms: Option<u64>,
    pub response_timer_ms: Option<u64>,
    pub max_msg_per_sec: Option<u32>,
    pub throttle_action: Option<ThrottleAction>,
    pub tls: Option<TlsConfig>,
}

/// An entry of the `binds:` section. Name, host, port and credentials are
/// required.
#[derive(Debug)]
pub struct BindSection {
    pub name: String,
    pub host: String,
    pub port: u16,
    pub system_id: String,
    pub password: String,
    pub system_type: Option<String>,
    pub bind_type: Option<String>,
    pub max_msg_per_sec: Option<u32>,
    pub enquire_link_timer_ms: Option<u64>,
    pub response_timer_ms: Option<u64>,
    pub tls: Option<BindTlsSection>,
}

/// The `tls:` entry of a bind. The CA may stand alone.
#[derive(Debug)]
pub struct BindTlsSection {
    pub cert_path: Option<String>,
    pub key_path: Option<String>,
    pub ca_path: Option<String>,
}

/// The `routing:` section.
#[derive(Debug)]
pub struct RoutingSection {
    pub default_chain: Option<Vec<String>>,
    pub rules: Option<Vec<RuleSection>>,
}

/// An entry of `rules:`. Prefix and chain are required.
#[derive(Debug)]
pub struct RuleSection {
    pub prefix: String,
    pub chain: Vec<String>,
    pub name: Option<String>,
    /// Keys in order, with their values as YAML text.
    pub options: Option<Vec<(String, String)>>,
}

/// What is written, or else a default.
pub open spec fn or<T>(written: Option<T>, default: T) -> T {
    match written {
        Some(v) => v,
        None => default,
    }
}

/// The text that is written, or else none.
pub open spec fn text_or_empty(written: Option<String>) -> Seq<char> {
    match written {
        Some(t) => t@,
        None => Seq::empty(),
    }
}

fn or_empty(written: Option<String>) -> (r: String)
    ensures
        r@ == text_or_empty(written),
{
    match written {
        Some(t) => t,
        None => String::new(),
    }
}

fn number_or(written: Option<u64>, default: u64) -> (r: u64)
    ensures
        r == or(written, default),
{
    match written {
        Some(v) => v,
        None => default,
    }
}

fn rate_or_unlimited(written: Option<u32>) -> (r: u32)
    ensures
        r == or(written, 0),
{
    match written {
        Some(v) => v,
        None => 0,
    }
}

/// Whether `c` is the listener of the section `s`. A section that is there fills
/// its gaps with the default timers; one that is missing leaves them all 0.
pub open spec fn is_server(c: ServerConfig, s: Option<ServerSection>) -> bool {
    match s {
        None => {
            &&& c.bind_address is None
            &&& c.port is None
            &&& c.session_init_timer_ms == 0
            &&& c.enquire_link_timer_ms == 0
            &&& c.inactivity_timer_ms == 0
            &&& c.response_timer_ms == 0
            &&& c.max_msg_per_sec == 0
            &&& c.throttle_action == ThrottleAction::Pace
            &&& c.tls is None
        },
        Some(s) => {
            &&& c.bind_address == s.bind_address
            &&& c.port == s.port
            &&& c.session_init_timer_ms == or(s.session_init_timer_ms, 5000)
            &&& c.enquire_link_timer_ms == or(s.enquire_link_timer_ms, 30000)
            &&& c.inactivity_timer_ms == or(s.inactivity_timer_ms, 300000)
            &&& c.response_timer_ms == or(s.response_timer_ms, 30000)
            &&& c.max_msg_per_sec == or(s.max_msg_per_sec, 0)
            &&& c.throttle_action == or(s.throttle_action, ThrottleAction::Pace)
            &&& c.tls == s.tls
        },
    }
}

/// Whether `c` is the TLS of the entry `s`. A path that is not written is empty.
pub open spec fn is_bind_tls(c: Option<TlsConfig>, s: Option<BindTlsSection>) -> bool {
    match s {
        None => c is None,
        Some(s) => {
            &&& c matches Some(t)
            &&& t.cert_path@ == text_or_empty(s.cert_path)
            &&& t.key_path@ == text_or_empty(s.key_path)
            &&& t.ca_path == s.ca_path
        },
    }
}

/// Whether `c` is the bind of the section `s`.
pub open spec fn is_bind(c: BindConfig, s: BindSection) -> bool {
    &&& c.name == s.name
    &&& c.host == s.host
    &&& c.port == s.port
    &&& c.system_id == s.system_id
    &&& c.password == s.password
    &&& c.system_type@ == text_or_empty(s.system_type)
    &&& c.bind_type@ == (match s.bind_type {
        Some(t) => t@,
        None => "transceiver"@,
    })
    &&& c.max_msg_per_sec == or(s.max_msg_per_sec, 0)
    &&& c.enquire_link_timer_ms == or(s.enquire_link_timer_ms, 30000)
    &&& c.response_timer_ms == or(s.response_timer_ms, 30000)
    &&& is_bind_tls(c.tls, s.tls)
}

/// Whether `c` is the rule of the section `s`.
pub open spec fn is_rule(c: RoutingRule, s: RuleSection) -> bool {
    &&& c.prefix == s.prefix
    &&& c.chain == s.chain
    &&& c.name@ == text_or_empty(s.name)
    &&& c.options@ == (match s.options {
        Some(o) => o@,
        None => Seq::empty(),
    })
}

/// The entries of a section that may be missing.
pub open spec fn entries_of<T>(v: Option<Vec<T>>) -> Seq<T> {
    match v {
        Some(v) => v@,
        None => Seq::empty(),
    }
}

/// The rules of a section that may be missing.
pub open spec fn rules_of(r: Option<RoutingSection>) -> Seq<RuleSection> {
    match r {
        Some(r) => entries_of(r.rules),
        None => Seq::empty(),
    }
}

/// The default chain of a section that may be missing.
pub open spec fn chain_of(r: Option<RoutingSection>) -> Seq<String> {
    match r {
        Some(r) => entries_of(r.default_chain),
        None => Seq::empty(),
    }
}

/// Whether `c` is the configuration that the file stands for.
pub open spec fn is_config(c: SmppConfig, f: ConfigFile) -> bool {
    &&& is_server(c.server, f.server)
    &&& c.binds@.len() == entries_of(f.binds).len()
    &&& forall|i: int|
        0 <= i < c.binds@.len() ==> is_bind(#[trigger] c.binds@[i], entries_of(f.binds)[i])
    &&& c.routing.default_chain@ == chain_of(f.routing)
    &&& c.routing.rules@.len() == rules_of(f.routing).len()
    &&& forall|i: int|
        0 <= i < c.routing.rules@.len() ==> is_rule(
            #[trigger] c.routing.rules@[i],
            rules_of(f.routing)[i],
        )
    &&& c.bind_address == f.bind_address
    &&& c.port == f.port
}

fn resolve_server(s: Option<ServerSection>) -> (c: ServerConfig)
    ensures
        is_server(c, s),
{
    match s {
        None => ServerConfig::default(),
        Some(s) => ServerConfig {
            bind_address: s.bind_address,
            port: s.port,
            session_init_timer_ms: number_or(s.session_init_timer_ms, default_session_init()),
            enquire_link_timer_ms: number_or(s.enquire_link_timer_ms, default_enquire_link()),
            inactivity_timer_ms: number_or(s.inactivity_timer_ms, default_inactivity()),
            response_timer_ms: number_or(s.response_timer_ms, default_response()),
            max_msg_per_sec: rate_or_unlimited(s.max_msg_per_sec),
            throttle_action: match s.throttle_action {
                Some(a) => a,
                None => ThrottleAction::default(),
            },
            tls: s.tls,
        },
    }
}

fn resolve_bind(s: BindSection) -> (c: BindConfig)
    ensures
        is_bind(c, s),
{
    BindConfig {
        name: s.name,
        host: s.host,
        port: s.port,
        system_id: s.system_id,
        password: s.password,
        system_type: or_empty(s.system_type),
        bind_type: match s.bind_type {
            Some(t) => t,
            None => default_bind_type(),
        },
        max_msg_per_sec: rate_or_unlimited(s.max_msg_per_sec),
        enquire_link_timer_ms: number_or(s.enquire_link_timer_ms, default_enquire_link()),
        response_timer_ms: number_or(s.response_timer_ms, default_response()),
        tls: match s.tls {
            Some(t) => Some(
                TlsConfig {
                    cert_path: or_empty(t.cert_path),
                    key_path: or_empty(t.key_path),
                    ca_path: t.ca_path,
                },
            ),
            None => None,
        },
    }
}

fn resolve_rule(s: RuleSection) -> (c: RoutingRule)
    ensures
        is_rule(c, s),
{
    RoutingRule {
        prefix: s.prefix,
        chain: s.chain,
        name: or_empty(s.name),
        options: match s.options {
            Some(o) => o,
            None => Vec::new(),
        },
    }
}

fn resolve_binds(sections: Vec<BindSection>) -> (out: Vec<BindConfig>)
    ensures
        out@.len() == sections@.len(),
        forall|i: int| 0 <= i < out@.len() ==> is_bind(#[trigger] out@[i], sections@[i]),
{
    let mut rest: Vec<BindSection> = sections;
    let mut out: Vec<BindConfig> = Vec::new();
    let ghost all = sections@;
    while rest.len() > 0
        invariant
            out@.len() + rest@.len() == all.len(),
            rest@ == all.skip(out@.len() as int),
            forall|i: int| 0 <= i < out@.len() ==> is_bind(#[trigger] out@[i], all[i]),
        decreases rest@.len(),
    {
        let ghost done = out@.len() as int;
        let s: BindSection = rest.remove(0);
        assert(s == all[done]);
        out.push(resolve_bind(s));
        assert(rest@ =~= all.skip(done + 1));
    }
    out
}

fn resolve_rules(sections: Vec<RuleSection>) -> (out: Vec<RoutingRule>)
    ensures
        out@.len() == sections@.len(),
        forall|i: int| 0 <= i < out@.len() ==> is_rule(#[trigger] out@[i], sections@[i]),
{
    let mut rest: Vec<RuleSection> = sections;
    let mut out: Vec<RoutingRule> = Vec::new();
    let ghost all = sections@;
    while rest.len() > 0
        invariant
            out@.len() + rest@.len() == all.len(),
            rest@ == all.skip(out@.len() as int),
            forall|i: int| 0 <= i < out@.len() ==> is_rule(#[trigger] out@[i], all[i]),
        decreases rest@.len(),
    {
        let ghost done = out@.len() as int;
        let s: RuleSection = rest.remove(0);
        assert(s == all[done]);
        out.push(resolve_rule(s));
        assert(rest@ =~= all.skip(done + 1));
    }
    out
}

/// The configuration that a file stands for.
pub fn resolve(f: ConfigFile) -> (c: SmppConfig)
    ensures
        is_config(c, f),
{
    let routing: RoutingConfig = match f.routing {
        None => RoutingConfig::default(),
        Some(r) => RoutingConfig {
            default_chain: match r.default_chain {
                Some(chain) => chain,
                None => Vec::new(),
            },
            rules: match r.rules {
                Some(rules) => resolve_rules(rules),
                None => Vec::new(),
            },
        },
    };
    assert(routing.default_chain@ =~= chain_of(f.routing));
    SmppConfig {
        server: resolve_server(f.server),
        binds: match f.binds {
            Some(binds) => resolve_binds(binds),
            None => Vec::new(),
        },
        routing,
        bind_address: f.bind_address,
        port: f.port,
    }
}

// ── What is promised of a file ───────────────────────────────────────────

/// What a `server:` section says is what the listener gets, setting by setting.
pub proof fn what_a_server_section_says_counts(c: ServerConfig, s: ServerSection)
    requires
        is_server(c, Some(s)),
    ensures
        c.bind_address == s.bind_address,
        c.port == s.port,
        c.tls == s.tls,
        s.session_init_timer_ms matches Some(v) ==> c.session_init_timer_ms == v,
        s.enquire_link_timer_ms matches Some(v) ==> c.enquire_link_timer_ms == v,
        s.inactivity_timer_ms matches Some(v) ==> c.inactivity_timer_ms == v,
        s.response_timer_ms matches Some(v) ==> c.response_timer_ms == v,
        s.max_msg_per_sec matches Some(v) ==> c.max_msg_per_sec == v,
        s.throttle_action matches Some(v) ==> c.throttle_action == v,
{
}

/// What a `server:` section leaves out has the documented default: timers of 5,
/// 30, 300 and 30 seconds, no cap, and pacing.
pub proof fn what_a_server_section_leaves_out_has_its_default(c: ServerConfig, s: ServerSection)
    requires
        is_server(c, Some(s)),
    ensures
        s.session_init_timer_ms is None ==> c.session_init_timer_ms == 5_000,
        s.enquire_link_timer_ms is None ==> c.enquire_link_timer_ms == 30_000,
        s.inactivity_timer_ms is None ==> c.inactivity_timer_ms == 300_000,
        s.response_timer_ms is None ==> c.response_timer_ms == 30_000,
        s.max_msg_per_sec is None ==> c.max_msg_per_sec == 0,
        s.throttle_action is None ==> c.throttle_action == ThrottleAction::Pace,
{
}

/// A file without a `server:` section sets nothing on the listener.
pub proof fn no_server_section_sets_nothing(c: ServerConfig)
    requires
        is_server(c, None),
    ensures
        c.bind_address is None && c.port is None && c.tls is None,
        c.session_init_timer_ms == 0 && c.enquire_link_timer_ms == 0,
        c.inactivity_timer_ms == 0 && c.response_timer_ms == 0,
        c.max_msg_per_sec == 0,
        c.throttle_action == ThrottleAction::Pace,
{
}

/// What an entry of `binds:` says is what the bind gets, and what it leaves out
/// has the documented default: a transceiver without a system type, without a cap
/// and without TLS, with timers of 30 seconds.
pub proof fn what_a_bind_entry_says_counts(c: BindConfig, s: BindSection)
    requires
        is_bind(c, s),
    ensures
        c.name == s.name,
        c.host == s.host,
        c.port == s.port,
        c.system_id == s.system_id,
        c.password == s.password,
        s.system_type matches Some(v) ==> c.system_type@ == v@,
        s.system_type is None ==> c.system_type@.len() == 0,
        s.bind_type matches Some(v) ==> c.bind_type@ == v@,
        s.bind_type is None ==> c.bind_type@ == "transceiver"@,
        s.max_msg_per_sec matches Some(v) ==> c.max_msg_per_sec == v,
        s.max_msg_per_sec is None ==> c.max_msg_per_sec == 0,
        s.enquire_link_timer_ms matches Some(v) ==> c.enquire_link_timer_ms == v,
        s.enquire_link_timer_ms is None ==> c.enquire_link_timer_ms == 30_000,
        s.response_timer_ms matches Some(v) ==> c.response_timer_ms == v,
        s.response_timer_ms is None ==> c.response_timer_ms == 30_000,
        c.tls is Some == s.tls is Some,
        s.tls matches Some(t) ==> {
            &&& c.tls->0.ca_path == t.ca_path
            &&& t.cert_path matches Some(v) ==> c.tls->0.cert_path@ == v@
            &&& t.cert_path is None ==> c.tls->0.cert_path@.len() == 0
            &&& t.key_path matches Some(v) ==> c.tls->0.key_path@ == v@
            &&& t.key_path is None ==> c.tls->0.key_path@.len() == 0
        },
{
}

/// What an entry of `rules:` says is what the rule gets.
pub proof fn what_a_rule_says_counts(c: RoutingRule, s: RuleSection)
    requires
        is_rule(c, s),
    ensures
        c.prefix == s.prefix,
        c.chain == s.chain,
        s.name matches Some(v) ==> c.name@ == v@,
        s.name is None ==> c.name@.len() == 0,
        s.options matches Some(v) ==> c.options@ == v@,
        s.options is None ==> c.options@.len() == 0,
{
}

/// A file gives its binds and rules one for one, in the order in which they are
/// written, its chain as it is, and the flat address and port as they are.
pub proof fn a_file_gives_what_is_written(c: SmppConfig, f: ConfigFile, i: int)
    requires
        is_config(c, f),
    ensures
        is_server(c.server, f.server),
        c.bind_address == f.bind_address,
        c.port == f.port,
        f.binds is None ==> c.binds@.len() == 0,
        f.binds matches Some(b) ==> c.binds@.len() == b@.len() && (0 <= i < b@.len() ==> is_bind(
            c.binds@[i],
            b@[i],
        )),
        f.routing is None ==> c.routing.default_chain@.len() == 0 && c.routing.rules@.len() == 0,
        f.routing matches Some(r) ==> {
            &&& r.default_chain matches Some(chain) ==> c.routing.default_chain@ == chain@
            &&& r.default_chain is None ==> c.routing.default_chain@.len() == 0
            &&& r.rules is None ==> c.routing.rules@.len() == 0
            &&& r.rules matches Some(rules) ==> c.routing.rules@.len() == rules@.len() && (0 <= i
                < rules@.len() ==> is_rule(c.routing.rules@[i], rules@[i]))
        },
{
}

} // verus!
