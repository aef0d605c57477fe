//! What starting the SMPP task sets up: one listener, and one client per
//! configured bind.
use crate::auth::BindKind;
use crate::config::{BindConfig, SmppConfig, ThrottleAction, TlsConfig};
use crate::text;
use vstd::prelude::*;

verus! {

/// The listener to start.
#[derive(Debug)]
pub struct ServerPlan {
    pub host: String,
    pub port: u16,
    pub session_init_timer_ms: u64,
    pub enquire_link_timer_ms: u64,
    pub inactivity_timer_ms: u64,
    pub response_timer_ms: u64,
    pub buffer_size: usize,
    /// Inbound throughput cap (msg/s) per bound ESME session; 0 = unlimited.
    pub inbound_max_mps: u32,
    /// What to do when an inbound submit exceeds the cap.
    pub inbound_throttle_action: ThrottleAction,
    /// The TLS that the listener speaks: with this certificate and key, and with
    /// client certificates checked where there is a CA. Without it the listener
    /// is plaintext.
    pub tls: Option<TlsConfig>,
}

/// The client to start for a bind.
#[derive(Debug, Clone)]
pub struct BindPlan {
    pub name: String,
    pub host: String,
    pub port: u16,
    /// The TLS to the upstream, whose CA is pinned where one is given. Without it
    /// the connection is plaintext.
    pub tls: Option<TlsConfig>,
    pub kind: BindKind,
    pub system_id: String,
    pub password: String,
    pub system_type: String,
    pub addr_ton: u8,
    pub addr_npi: u8,
    pub address_range: String,
    pub session_init_timer_ms: u64,
    pub enquire_link_timer_ms: u64,
    pub inactivity_timer_ms: u64,
    pub response_timer_ms: u64,
    pub buffer_size: usize,
    pub window_size: usize,
    /// Outbound throughput cap (msg/s); 0 = unlimited.
    pub max_msg_per_sec: u32,
}

/// The listen address where the configured one is no IP address.
pub fn fallback_host() -> (r: &'static str)
    ensures
        r@ == "0.0.0.0"@,
{
    "0.0.0.0"
}

/// Whether `p` is the listener of `cfg`.
pub open spec fn is_server_plan(p: ServerPlan, cfg: SmppConfig) -> bool {
    &&& p.host@ == cfg.listen_host()
    &&& p.port == cfg.listen_port()
    &&& p.session_init_timer_ms == cfg.server.session_init_timer_ms
    &&& p.enquire_link_timer_ms == cfg.server.enquire_link_timer_ms
    &&& p.inactivity_timer_ms == cfg.server.inactivity_timer_ms
    &&& p.response_timer_ms == cfg.server.response_timer_ms
    &&& p.buffer_size == 1500
    &&& p.inbound_max_mps == cfg.server.max_msg_per_sec
    &&& p.inbound_throttle_action == cfg.server.throttle_action
    &&& p.tls == cfg.server.tls
}

/// The kind of bind that a `bind_type` asks for: anything but "transmitter" and
/// "receiver" is a transceiver.
pub open spec fn kind_of(bind_type: Seq<char>) -> BindKind {
    if bind_type == "transmitter"@ {
        BindKind::Transmitter
    } else if bind_type == "receiver"@ {
        BindKind::Receiver
    } else {
        BindKind::Transceiver
    }
}

/// The kind of bind that a `bind_type` asks for.
pub fn bind_kind(bind_type: &str) -> (r: BindKind)
    ensures
        r == kind_of(bind_type@),
{
    if text::same(bind_type, "transmitter") {
        BindKind::Transmitter
    } else if text::same(bind_type, "receiver") {
        BindKind::Receiver
    } else {
        BindKind::Transceiver
    }
}

/// Whether `p` is the client of the bind `b`.
pub open spec fn is_bind_plan(p: BindPlan, b: BindConfig) -> bool {
    &&& p.name == b.name
    &&& p.host == b.host
    &&& p.port == b.port
    &&& p.tls == b.tls
    &&& p.kind == kind_of(b.bind_type@)
    &&& p.system_id == b.system_id
    &&& p.password == b.password
    &&& p.system_type == b.system_type
    &&& p.addr_ton == 1
    &&& p.addr_npi == 1
    &&& p.address_range@.len() == 0
    &&& p.session_init_timer_ms == 5000
    &&& p.enquire_link_timer_ms == b.enquire_link_timer_ms
    &&& p.inactivity_timer_ms == 60000
    &&& p.response_timer_ms == b.response_timer_ms
    &&& p.buffer_size == 1500
    &&& p.window_size == 20
    &&& p.max_msg_per_sec == b.max_msg_per_sec
}

fn copy_tls(tls: &Option<TlsConfig>) -> (r: Option<TlsConfig>)
    ensures
        r == *tls,
{
    match tls {
        Some(t) => Some(
            TlsConfig {
                cert_path: t.cert_path.clone(),
                key_path: t.key_path.clone(),
                ca_path: match &t.ca_path {
                    Some(p) => Some(p.clone()),
                    None => None,
                },
            },
        ),
        None => None,
    }
}

/// The client to start for a bind.
pub fn bind_plan(b: &BindConfig) -> (p: BindPlan)
    ensures
        is_bind_plan(p, *b),
{
    BindPlan {
        name: b.name.clone(),
        host: b.host.clone(),
        port: b.port,
        tls: copy_tls(&b.tls),
        kind: bind_kind(b.bind_type.as_str()),
        system_id: b.system_id.clone(),
        password: b.password.clone(),
        system_type: b.system_type.clone(),
        addr_ton: 1,
        addr_npi: 1,
        address_range: String::new(),
        session_init_timer_ms: 5000,
        enquire_link_timer_ms: b.enquire_link_timer_ms,
        inactivity_timer_ms: 60000,
        response_timer_ms: b.response_timer_ms,
        buffer_size: 1500,
        window_size: 20,
        max_msg_per_sec: b.max_msg_per_sec,
    }
}

/// What to start for a configuration: its listener, and the client of each bind
/// in the order of the configuration. Nothing where the task is already running.
pub fn spawn(cfg: &SmppConfig, running: bool) -> (r: Option<(ServerPlan, Vec<BindPlan>)>)
    ensures
        match r {
            None => running,
            Some((server, binds)) => {
                &&& !running
                &&& is_server_plan(server, *cfg)
                &&& binds@.len() == cfg.binds@.len()
                &&& forall|i: int|
                    0 <= i < binds@.len() ==> is_bind_plan(#[trigger] binds@[i], cfg.binds@[i])
            },
        },
{
    if running {
        return None;
    }
    let (host, port) = cfg.listen();
    let server: ServerPlan = ServerPlan {
        host,
        port,
        session_init_timer_ms: cfg.server.session_init_timer_ms,
        enquire_link_timer_ms: cfg.server.enquire_link_timer_ms,
        inactivity_timer_ms: cfg.server.inactivity_timer_ms,
        response_timer_ms: cfg.server.response_timer_ms,
        buffer_size: 1500,
        inbound_max_mps: cfg.server.max_msg_per_sec,
        inbound_throttle_action: cfg.server.throttle_action,
        tls: copy_tls(&cfg.server.tls),
    };
    let mut binds: Vec<BindPlan> = Vec::new();
    let mut i: usize = 0;
    while i < cfg.binds.len()
        invariant
            i <= cfg.binds@.len(),
            binds@.len() == i,
            forall|j: int| 0 <= j < i ==> is_bind_plan(#[trigger] binds@[j], cfg.binds@[j]),
        decreases cfg.binds@.len() - i,
    {
        binds.push(bind_plan(&cfg.binds[i]));
        i = i + 1;
    }
    Some((server, binds))
}

// ── What is promised of a start ──────────────────────────────────────────

/// A listener is plaintext exactly where its configuration has no TLS, and a
/// client where its bind has none. Where there is TLS, the certificate, the key
/// and the CA are the configured ones.
pub proof fn tls_is_kept(server: ServerPlan, cfg: SmppConfig, client: BindPlan, bind: BindConfig)
    requires
        is_server_plan(server, cfg),
        is_bind_plan(client, bind),
    ensures
        server.tls is None <==> cfg.server.tls is None,
        cfg.server.tls matches Some(t) ==> server.tls == Some(t),
        client.tls is None <==> bind.tls is None,
        bind.tls matches Some(t) ==> client.tls == Some(t),
{
}

/// The listener starts with the address, the port, the timers and the throttle of
/// the configuration.
pub proof fn the_listener_is_the_configured_one(p: ServerPlan, cfg: SmppConfig)
    requires
        is_server_plan(p, cfg),
    ensures
        p.host@ == cfg.listen_host(),
        p.port == cfg.listen_port(),
        p.session_init_timer_ms == cfg.server.session_init_timer_ms,
        p.enquire_link_timer_ms == cfg.server.enquire_link_timer_ms,
        p.inactivity_timer_ms == cfg.server.inactivity_timer_ms,
        p.response_timer_ms == cfg.server.response_timer_ms,
        p.inbound_max_mps == cfg.server.max_msg_per_sec,
        p.inbound_throttle_action == cfg.server.throttle_action,
        p.buffer_size == 1500,
{
}

/// A client starts with the name, the peer, the credentials, the rate and the
/// timers of its bind, and in the kind of session that its bind type spells.
pub proof fn a_client_is_the_configured_one(p: BindPlan, b: BindConfig)
    requires
        is_bind_plan(p, b),
    ensures
        p.name == b.name,
        p.host == b.host,
        p.port == b.port,
        p.system_id == b.system_id,
        p.password == b.password,
        p.system_type == b.system_type,
        p.max_msg_per_sec == b.max_msg_per_sec,
        p.enquire_link_timer_ms == b.enquire_link_timer_ms,
        p.response_timer_ms == b.response_timer_ms,
        p.session_init_timer_ms == 5_000,
        p.inactivity_timer_ms == 60_000,
        p.addr_ton == 1 && p.addr_npi == 1 && p.address_range@.len() == 0,
        p.buffer_size == 1500 && p.window_size == 20,
        p.kind is Transmitter <==> b.bind_type@ == "transmitter"@,
        p.kind is Receiver <==> b.bind_type@ == "receiver"@,
{
    reveal_strlit("transmitter");
    reveal_strlit("receiver");
    assert("transmitter"@.len() != "receiver"@.len());
}

} // verus!
