use siphon_smpp::config::{
    default_bind_type, default_enquire_link, default_inactivity, default_response,
    default_session_init, ConfigError, InstallError, RoutingConfig, ServerConfig, SmppConfig,
    ThrottleAction,
};
use siphon_smpp::env::{binds_from_env, expand_env_vars, parse_chain, with_environment};
use siphon_smpp::numbers::IntError;
use siphon_smpp::readout::{build_config_dict, Node};
use siphon_smpp::sections::{
    resolve, BindSection, BindTlsSection, ConfigFile, RoutingSection, RuleSection, ServerSection,
};

fn vars(pairs: &[(&str, &str)]) -> Vec<(String, String)> {
    pairs
        .iter()
        .map(|(k, v)| (k.to_string(), v.to_string()))
        .collect()
}

fn empty_file() -> ConfigFile {
    ConfigFile {
        server: None,
        binds: None,
        routing: None,
        bind_address: None,
        port: None,
    }
}

fn server_with_port(port: u16) -> ServerSection {
    ServerSection {
        bind_address: None,
        port: Some(port),
        session_init_timer_ms: None,
        enquire_link_timer_ms: None,
        inactivity_timer_ms: None,
        response_timer_ms: None,
        max_msg_per_sec: None,
        throttle_action: None,
        tls: None,
    }
}

fn strings(v: &[&str]) -> Vec<String> {
    v.iter().map(|s| s.to_string()).collect()
}

fn sample() -> ConfigFile {
    ConfigFile {
        server: Some(ServerSection {
            bind_address: Some("127.0.0.1".to_string()),
            port: Some(9999),
            session_init_timer_ms: Some(1000),
            enquire_link_timer_ms: Some(15000),
            inactivity_timer_ms: None,
            response_timer_ms: None,
            max_msg_per_sec: Some(200),
            throttle_action: Some(ThrottleAction::Reject),
            tls: None,
        }),
        binds: Some(vec![
            BindSection {
                name: "alpha".to_string(),
                host: "smsc-a.example.net".to_string(),
                port: 2776,
                system_id: "alpha_esme".to_string(),
                password: "secret-a".to_string(),
                system_type: None,
                bind_type: Some("transmitter".to_string()),
                max_msg_per_sec: Some(50),
                enquire_link_timer_ms: None,
                response_timer_ms: None,
                tls: None,
            },
            BindSection {
                name: "beta".to_string(),
                host: "smsc-b.example.org".to_string(),
                port: 2775,
                system_id: "beta_esme".to_string(),
                password: "secret-b".to_string(),
                system_type: None,
                bind_type: None,
                max_msg_per_sec: None,
                enquire_link_timer_ms: None,
                response_timer_ms: None,
                tls: None,
            },
        ]),
        routing: Some(RoutingSection {
            default_chain: Some(strings(&["ims", "ss7", "queue"])),
            rules: Some(vec![
                RuleSection {
                    prefix: "3120".to_string(),
                    chain: strings(&["bind:alpha", "queue"]),
                    name: Some("amsterdam".to_string()),
                    options: Some(vec![("rate_cap".to_string(), "10\n".to_string())]),
                },
                RuleSection {
                    prefix: String::new(),
                    chain: strings(&["bind:beta"]),
                    name: None,
                    options: None,
                },
            ]),
        }),
        bind_address: None,
        port: None,
    }
}

#[test]
fn parses_full_config() {
    let cfg = resolve(sample());

    assert_eq!(cfg.server.bind_address.as_deref(), Some("127.0.0.1"));
    assert_eq!(cfg.server.port, Some(9999));
    assert_eq!(cfg.server.session_init_timer_ms, 1000);
    assert_eq!(cfg.server.enquire_link_timer_ms, 15000);
    assert_eq!(cfg.server.max_msg_per_sec, 200);
    assert_eq!(cfg.server.throttle_action, ThrottleAction::Reject);
    assert_eq!(cfg.server.inactivity_timer_ms, default_inactivity());
    assert_eq!(cfg.server.response_timer_ms, default_response());
    assert!(cfg.server.tls.is_none());

    assert_eq!(cfg.binds.len(), 2);

    let alpha = &cfg.binds[0];
    assert_eq!(alpha.name, "alpha");
    assert_eq!(alpha.host, "smsc-a.example.net");
    assert_eq!(alpha.port, 2776);
    assert_eq!(alpha.system_id, "alpha_esme");
    assert_eq!(alpha.password, "secret-a");
    assert_eq!(alpha.bind_type, "transmitter");
    assert_eq!(alpha.max_msg_per_sec, 50);
    assert_eq!(alpha.system_type, "");
    assert_eq!(alpha.enquire_link_timer_ms, default_enquire_link());
    assert_eq!(alpha.response_timer_ms, default_response());
    assert!(alpha.tls.is_none());

    let beta = &cfg.binds[1];
    assert_eq!(beta.name, "beta");
    assert_eq!(beta.port, 2775);
    assert_eq!(beta.bind_type, default_bind_type());
    assert_eq!(beta.max_msg_per_sec, 0);

    assert_eq!(cfg.routing.default_chain, vec!["ims", "ss7", "queue"]);
    assert_eq!(cfg.routing.rules.len(), 2);

    let rule0 = &cfg.routing.rules[0];
    assert_eq!(rule0.prefix, "3120");
    assert_eq!(rule0.name, "amsterdam");
    assert_eq!(rule0.chain, vec!["bind:alpha", "queue"]);
    assert!(rule0.options.iter().any(|(k, _)| k == "rate_cap"));

    let rule1 = &cfg.routing.rules[1];
    assert_eq!(rule1.prefix, "");
    assert_eq!(rule1.name, "");
    assert!(rule1.options.is_empty());
    assert_eq!(rule1.chain, vec!["bind:beta"]);
}

#[test]
fn empty_config_uses_all_defaults() {
    let cfg = resolve(empty_file());
    assert!(cfg.binds.is_empty());
    assert!(cfg.routing.default_chain.is_empty());
    assert!(cfg.routing.rules.is_empty());
    assert!(cfg.server.bind_address.is_none());
    assert!(cfg.server.port.is_none());
    assert!(cfg.bind_address.is_none());
    assert!(cfg.port.is_none());
    // A missing `server:` section leaves the timers at zero.
    assert_eq!(cfg.server.session_init_timer_ms, 0);
    assert_eq!(cfg.server.enquire_link_timer_ms, 0);
    assert_eq!(cfg.server.inactivity_timer_ms, 0);
    assert_eq!(cfg.server.response_timer_ms, 0);
}

#[test]
fn the_tls_of_a_bind_may_be_its_ca_alone() {
    let mut file = sample();
    file.binds.as_mut().expect("binds")[0].tls = Some(BindTlsSection {
        cert_path: None,
        key_path: None,
        ca_path: Some("/etc/siphon/tls/ca.crt".to_string()),
    });
    let cfg = resolve(file);
    let tls = cfg.binds[0].tls.as_ref().expect("is there");
    assert_eq!((tls.cert_path.as_str(), tls.key_path.as_str()), ("", ""));
    assert_eq!(tls.ca_path.as_deref(), Some("/etc/siphon/tls/ca.crt"));
    assert!(cfg.binds[1].tls.is_none());
}

#[test]
fn server_timer_field_defaults_apply_when_server_present() {
    let cfg = resolve(ConfigFile {
        server: Some(server_with_port(2775)),
        ..empty_file()
    });
    assert_eq!(cfg.server.session_init_timer_ms, default_session_init());
    assert_eq!(cfg.server.enquire_link_timer_ms, default_enquire_link());
    assert_eq!(cfg.server.inactivity_timer_ms, default_inactivity());
    assert_eq!(cfg.server.response_timer_ms, default_response());
    assert_eq!(cfg.server.max_msg_per_sec, 0);
    assert_eq!(cfg.server.throttle_action, ThrottleAction::Pace);
}

#[test]
fn default_timers_are_the_documented_ones() {
    assert_eq!(default_session_init(), 5000);
    assert_eq!(default_enquire_link(), 30000);
    assert_eq!(default_inactivity(), 300_000);
    assert_eq!(default_response(), 30_000);
    assert_eq!(default_bind_type(), "transceiver");
}

#[test]
fn server_config_default_values() {
    let s = ServerConfig::default();
    assert_eq!(s.session_init_timer_ms, 0);
    assert!(s.bind_address.is_none());
    assert!(s.tls.is_none());
}

#[test]
fn throttle_action_labels() {
    assert_eq!(ThrottleAction::Pace.as_str(), "pace");
    assert_eq!(ThrottleAction::Reject.as_str(), "reject");
    assert_eq!(ThrottleAction::default(), ThrottleAction::Pace);
}

#[test]
fn listen_prefers_nested_server() {
    let mut server = server_with_port(5000);
    server.bind_address = Some("10.0.0.1".to_string());
    let cfg = resolve(ConfigFile {
        server: Some(server),
        bind_address: Some("9.9.9.9".to_string()),
        port: Some(1234),
        ..empty_file()
    });
    assert_eq!(cfg.listen(), ("10.0.0.1".to_string(), 5000));
}

#[test]
fn listen_falls_back_to_flat_then_default() {
    let flat = resolve(ConfigFile {
        bind_address: Some("8.8.8.8".to_string()),
        port: Some(4321),
        ..empty_file()
    });
    assert_eq!(flat.listen(), ("8.8.8.8".to_string(), 4321));

    let empty = resolve(empty_file());
    assert_eq!(empty.listen(), ("0.0.0.0".to_string(), 2775));

    // Address and port fall back on their own.
    let mixed = resolve(ConfigFile {
        server: Some(server_with_port(5000)),
        bind_address: Some("8.8.8.8".to_string()),
        ..empty_file()
    });
    assert_eq!(mixed.listen(), ("8.8.8.8".to_string(), 5000));
}

#[test]
fn expand_env_vars_substitutes_and_defaults() {
    let env = vars(&[("SMPP_TEST_EXPAND_HOST", "expanded.example.com")]);
    let out = expand_env_vars(
        "host: ${SMPP_TEST_EXPAND_HOST}\nport: ${SMPP_TEST_EXPAND_MISSING:-2775}\n",
        &env,
    );
    assert!(out.contains("host: expanded.example.com"));
    assert!(out.contains("port: 2775"));
    assert_eq!(out, "host: expanded.example.com\nport: 2775\n");
}

#[test]
fn expand_env_vars_unclosed_is_left_literal() {
    let out = expand_env_vars("a ${UNCLOSED literal", &vars(&[]));
    assert_eq!(out, "a ${UNCLOSED literal");
}

#[test]
fn expand_env_vars_missing_without_default_is_empty() {
    let out = expand_env_vars("v=[${SMPP_TEST_DEFINITELY_UNSET_XYZ}]", &vars(&[]));
    assert_eq!(out, "v=[]");
}

#[test]
fn expand_env_vars_handles_the_corners() {
    let env = vars(&[("A", "1"), ("B", "${A}"), ("A", "2"), ("E", ""), ("é", "ü")]);
    // The first value of a name wins, and a value is not expanded again.
    assert_eq!(expand_env_vars("${A}-${B}", &env), "1-${A}");
    // A variable that is set to nothing wins over its default.
    assert_eq!(expand_env_vars("[${E:-x}]", &env), "[]");
    // The first `:-` ends the name.
    assert_eq!(expand_env_vars("${N:-a:-b}", &env), "a:-b");
    // A stray `${` swallows nothing that closes later on.
    assert_eq!(expand_env_vars("${A ${A}", &env), "");
    assert_eq!(expand_env_vars("$A {A} ${é} $", &env), "$A {A} ü $");
    assert_eq!(expand_env_vars("${A} and ${", &env), "1 and ${");
    // Text without references is kept.
    assert_eq!(expand_env_vars("plain: text\n", &env), "plain: text\n");
}

#[test]
fn binds_from_env_discovers_full_bind() {
    let env = vars(&[
        ("PATH", "/bin"),
        ("SMPP_BIND_ENVALPHA_HOST", "env-a.example.net"),
        ("SMPP_BIND_ENVALPHA_PORT", "2779"),
        ("SMPP_BIND_ENVALPHA_SYSTEM_ID", "env_alpha"),
        ("SMPP_BIND_ENVALPHA_PASSWORD", "env-pass"),
        ("SMPP_BIND_ENVALPHA_SYSTEM_TYPE", "VMS"),
        ("SMPP_BIND_ENVALPHA_BIND_TYPE", "receiver"),
        ("SMPP_BIND_ENVALPHA_MAX_MPS", "75"),
        ("SMPP_BIND_ENVALPHA_ENQUIRE_LINK_MS", "12000"),
        ("SMPP_BIND_ENVALPHA_RESPONSE_MS", "8000"),
        ("SMPP_BIND_ENVALPHA_TLS", "true"),
    ]);
    let binds = binds_from_env(&env).expect("discovery succeeds");
    let b = binds
        .iter()
        .find(|b| b.name == "envalpha")
        .expect("envalpha discovered");

    assert_eq!(b.name, "envalpha");
    assert_eq!(b.host, "env-a.example.net");
    assert_eq!(b.port, 2779);
    assert_eq!(b.system_id, "env_alpha");
    assert_eq!(b.password, "env-pass");
    assert_eq!(b.system_type, "VMS");
    assert_eq!(b.bind_type, "receiver");
    assert_eq!(b.max_msg_per_sec, 75);
    assert_eq!(b.enquire_link_timer_ms, 12000);
    assert_eq!(b.response_timer_ms, 8000);
    assert!(b.tls.is_some());
}

#[test]
fn binds_from_env_applies_defaults() {
    let env = vars(&[
        ("SMPP_BIND_ENVMIN_HOST", "min.example.net"),
        ("SMPP_BIND_ENVMIN_SYSTEM_ID", "min_id"),
        ("SMPP_BIND_ENVMIN_PASSWORD", "min_pw"),
    ]);
    let binds = binds_from_env(&env).unwrap();
    let b = binds.iter().find(|b| b.name == "envmin").unwrap();

    assert_eq!(b.port, 2775);
    assert_eq!(b.max_msg_per_sec, 0);
    assert_eq!(b.system_type, "");
    assert_eq!(b.bind_type, default_bind_type());
    assert_eq!(b.enquire_link_timer_ms, default_enquire_link());
    assert_eq!(b.response_timer_ms, default_response());
    assert!(b.tls.is_none());
}

#[test]
fn binds_from_env_without_host_is_ignored() {
    let env = vars(&[
        ("SMPP_BIND_ENVGHOST_SYSTEM_ID", "ghost"),
        ("SMPP_BIND_ENVGHOST_PASSWORD", "boo"),
    ]);
    let binds = binds_from_env(&env).unwrap();
    assert!(binds.iter().all(|b| b.name != "envghost"));
}

#[test]
fn binds_from_env_missing_required_field_errors() {
    let env = vars(&[
        ("SMPP_BIND_ENVMISS_HOST", "miss.example.net"),
        ("SMPP_BIND_ENVMISS_SYSTEM_ID", "miss_id"),
    ]);
    let err = binds_from_env(&env).unwrap_err();
    match err {
        ConfigError::EnvBindMissing { bind, field } => {
            assert_eq!(bind, "envmiss");
            assert_eq!(field, "PASSWORD");
        }
        other => panic!("expected EnvBindMissing, got {other:?}"),
    }
}

#[test]
fn binds_from_env_invalid_numeric_value_errors() {
    let env = vars(&[
        ("SMPP_BIND_ENVBADPORT_HOST", "bad.example.net"),
        ("SMPP_BIND_ENVBADPORT_SYSTEM_ID", "bad_id"),
        ("SMPP_BIND_ENVBADPORT_PASSWORD", "bad_pw"),
        ("SMPP_BIND_ENVBADPORT_PORT", "not-a-number"),
    ]);
    let err = binds_from_env(&env).unwrap_err();
    match err {
        ConfigError::EnvBindInvalid {
            bind, field, value, ..
        } => {
            assert_eq!(bind, "envbadport");
            assert_eq!(field, "PORT");
            assert_eq!(value, "not-a-number");
        }
        other => panic!("expected EnvBindInvalid, got {other:?}"),
    }
}

#[test]
fn env_binds_come_in_order_and_once() {
    let env = vars(&[
        ("SMPP_BIND_ZED_HOST", "z"),
        ("SMPP_BIND_ZED_SYSTEM_ID", "z"),
        ("SMPP_BIND_ZED_PASSWORD", "z"),
        ("SMPP_BIND_ABC_HOST", "a1"),
        ("SMPP_BIND_abc_HOST", "a2"),
        ("SMPP_BIND_ABC_SYSTEM_ID", "a"),
        ("SMPP_BIND_ABC_PASSWORD", "a"),
        ("SMPP_BIND_ABC_PORT", "65537"),
        ("SMPP_BIND_ABC_BIND_TYPE", ""),
        ("SMPP_BIND_ABC_MAX_MPS", ""),
        ("SMPP_BIND_ABC_TLS", " Yes "),
        ("SMPP_BIND_NOFIELD", "x"),
    ]);
    let binds = binds_from_env(&env).unwrap();
    assert_eq!(binds.len(), 2);
    assert_eq!(binds[0].name, "abc");
    // The last value of a field wins, whatever case the name is written in.
    assert_eq!(binds[0].host, "a2");
    // A port that does not fit keeps its low bits.
    assert_eq!(binds[0].port, 1);
    // An empty text is used, an empty number is not.
    assert_eq!(binds[0].bind_type, "");
    assert_eq!(binds[0].max_msg_per_sec, 0);
    assert!(binds[0].tls.is_some());
    assert_eq!(binds[1].name, "zed");
}

#[test]
fn env_bind_faults_come_in_order() {
    // Of two faulty binds the first by name is reported, and of it PORT before
    // the credentials.
    let env = vars(&[
        ("SMPP_BIND_B_HOST", "b"),
        ("SMPP_BIND_A_HOST", "a"),
        ("SMPP_BIND_A_PORT", "99999999999999999999"),
    ]);
    match binds_from_env(&env).unwrap_err() {
        ConfigError::EnvBindInvalid { bind, field, source, .. } => {
            assert_eq!(bind, "a");
            assert_eq!(field, "PORT");
            assert_eq!(source, IntError::TooLarge);
        }
        other => panic!("expected EnvBindInvalid, got {other:?}"),
    }
}

#[test]
fn config_error_messages_render() {
    let missing = ConfigError::EnvBindMissing {
        bind: "alpha".into(),
        field: "PASSWORD",
    };
    let msg = missing.message();
    assert!(msg.contains("SMPP_BIND_ALPHA_PASSWORD"), "got: {msg}");
    assert_eq!(
        msg,
        "bind \"alpha\" from env: missing SMPP_BIND_ALPHA_PASSWORD"
    );
    let invalid = ConfigError::EnvBindInvalid {
        bind: "alpha".into(),
        field: "PORT",
        value: "x\"y".into(),
        source: IntError::InvalidDigit,
    };
    assert_eq!(
        invalid.message(),
        "bind \"alpha\" from env: SMPP_BIND_ALPHA_PORT = \"x\\\"y\" (invalid digit found in string)"
    );
    let read = ConfigError::Read {
        path: "/etc/smpp.yaml".into(),
        source: "no such file".into(),
    };
    assert_eq!(read.message(), "read /etc/smpp.yaml: no such file");
    let parse = ConfigError::Parse {
        path: "smpp.yaml".into(),
        source: "bad".into(),
    };
    assert_eq!(parse.message(), "parse smpp.yaml: bad");
    assert_eq!(InstallError::from(parse).message(), "config: parse smpp.yaml: bad");
    assert_eq!(InstallError::Python("x".into()).message(), "python error: x");
    assert_eq!(
        InstallError::Siphon("y".into()).message(),
        "siphon namespace registration: y"
    );
    assert_eq!(InstallError::Io("z".into()).message(), "io: z");
}

fn file_with(max: Option<u32>, action: Option<ThrottleAction>) -> ConfigFile {
    let mut server = server_with_port(2775);
    server.max_msg_per_sec = max;
    server.throttle_action = action;
    ConfigFile {
        server: Some(server),
        ..empty_file()
    }
}

#[test]
fn server_max_mps_env_overrides_yaml() {
    let cfg = SmppConfig::from_file(
        file_with(Some(10), None),
        &vars(&[("SMPP_SERVER_MAX_MPS", "500")]),
    )
    .expect("loads");
    assert_eq!(cfg.server.max_msg_per_sec, 500);
}

#[test]
fn server_max_mps_env_invalid_is_ignored() {
    let cfg = SmppConfig::from_file(
        file_with(Some(42), None),
        &vars(&[("SMPP_SERVER_MAX_MPS", "not-a-number")]),
    )
    .expect("loads");
    assert_eq!(cfg.server.max_msg_per_sec, 42);
}

#[test]
fn server_throttle_action_env_overrides_yaml() {
    let cfg = SmppConfig::from_file(
        file_with(Some(10), None),
        &vars(&[("SMPP_SERVER_THROTTLE_ACTION", "REJECT")]),
    )
    .expect("loads");
    assert_eq!(cfg.server.throttle_action, ThrottleAction::Reject);
}

#[test]
fn server_throttle_action_env_invalid_is_ignored() {
    let cfg = SmppConfig::from_file(
        file_with(None, Some(ThrottleAction::Reject)),
        &vars(&[("SMPP_SERVER_THROTTLE_ACTION", "nonsense")]),
    )
    .expect("loads");
    assert_eq!(cfg.server.throttle_action, ThrottleAction::Reject);
}

#[test]
fn environment_adds_binds_behind_the_file_and_overrides_the_chain() {
    let cfg = with_environment(
        resolve(sample()),
        &vars(&[
            ("SMPP_DEFAULT_CHAIN", " bind:x , ,queue,"),
            ("SMPP_BIND_X_HOST", "h"),
            ("SMPP_BIND_X_SYSTEM_ID", "s"),
            ("SMPP_BIND_X_PASSWORD", "p"),
            ("SMPP_SERVER_MAX_MPS", " +7 "),
            ("SMPP_SERVER_THROTTLE_ACTION", " Pace\n"),
        ]),
    )
    .expect("loads");
    let names: Vec<&str> = cfg.binds.iter().map(|b| b.name.as_str()).collect();
    assert_eq!(names, vec!["alpha", "beta", "x"]);
    assert_eq!(cfg.routing.default_chain, vec!["bind:x", "queue"]);
    assert_eq!(cfg.server.max_msg_per_sec, 7);
    assert_eq!(cfg.server.throttle_action, ThrottleAction::Pace);
    // What the environment does not name stays.
    assert_eq!(cfg.server.port, Some(9999));
    assert_eq!(cfg.routing.rules.len(), 2);
}

#[test]
fn a_faulty_env_bind_fails_the_load() {
    assert!(with_environment(resolve(sample()), &vars(&[("SMPP_BIND_X_HOST", "h")])).is_err());
}

#[test]
fn chains_are_split_trimmed_and_pruned() {
    assert_eq!(parse_chain("a, b ,c"), vec!["a", "b", "c"]);
    assert!(parse_chain("").is_empty());
    assert!(parse_chain(" , ,").is_empty());
    assert_eq!(parse_chain("\u{2003}x\u{A0}"), vec!["x"]);
}

#[test]
fn routing_default_is_empty() {
    let r = RoutingConfig::default();
    assert!(r.default_chain.is_empty() && r.rules.is_empty());
}

fn get<'a>(n: &'a Node, key: &str) -> &'a Node {
    match n {
        Node::Dict(d) => &d.iter().find(|(k, _)| k == key).expect("key").1,
        other => panic!("no dict: {other:?}"),
    }
}

fn text(n: &Node) -> &str {
    match n {
        Node::Text(s) => s,
        other => panic!("no text: {other:?}"),
    }
}

fn number(n: &Node) -> u64 {
    match n {
        Node::Int(i) => *i,
        other => panic!("no int: {other:?}"),
    }
}

fn items(n: &Node) -> &Vec<Node> {
    match n {
        Node::List(v) => v,
        other => panic!("no list: {other:?}"),
    }
}

#[test]
fn the_script_reads_the_configuration_without_passwords() {
    let dict = build_config_dict(&resolve(sample()));
    let server = get(&dict, "server");
    assert_eq!(text(get(server, "bind_address")), "127.0.0.1");
    assert_eq!(number(get(server, "port")), 9999);
    assert_eq!(number(get(server, "session_init_timer_ms")), 1000);
    assert_eq!(number(get(server, "enquire_link_timer_ms")), 15000);
    assert_eq!(number(get(server, "inactivity_timer_ms")), 300_000);
    assert_eq!(number(get(server, "response_timer_ms")), 30_000);
    assert_eq!(number(get(server, "max_msg_per_sec")), 200);
    assert_eq!(text(get(server, "throttle_action")), "reject");

    let binds = items(get(&dict, "binds"));
    assert_eq!(binds.len(), 2);
    assert_eq!(text(get(&binds[0], "name")), "alpha");
    assert_eq!(text(get(&binds[0], "host")), "smsc-a.example.net");
    assert_eq!(number(get(&binds[0], "port")), 2776);
    assert_eq!(text(get(&binds[0], "system_id")), "alpha_esme");
    assert_eq!(text(get(&binds[0], "system_type")), "");
    assert_eq!(text(get(&binds[0], "bind_type")), "transmitter");
    assert_eq!(number(get(&binds[0], "max_msg_per_sec")), 50);

    let routing = get(&dict, "routing");
    let chain: Vec<&str> = items(get(routing, "default_chain")).iter().map(text).collect();
    assert_eq!(chain, vec!["ims", "ss7", "queue"]);
    let rules = items(get(routing, "rules"));
    assert_eq!(text(get(&rules[0], "prefix")), "3120");
    assert_eq!(text(get(&rules[0], "name")), "amsterdam");
    assert_eq!(text(get(get(&rules[0], "options"), "rate_cap")), "10\n");

    let shown = format!("{dict:?}");
    assert!(!shown.contains("secret-a") && !shown.contains("secret-b"));
    assert!(!shown.contains("password"));
}
