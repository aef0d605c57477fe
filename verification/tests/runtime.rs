use siphon_smpp::auth::BindKind;
use siphon_smpp::config::{
    BindConfig, RoutingConfig, ServerConfig, SmppConfig, ThrottleAction, TlsConfig,
};
use siphon_smpp::dispatch::{
    after_admission, call_pdu_handler, is_gated, on_cancel_sm, on_data_sm, on_data_sm_from_smsc,
    on_deliver_sm, on_query_sm, on_replace_sm, on_submit_sm, on_submit_sm_multi, pick_pdu_handler,
    pick_session_handlers, BareAnswer, Dispatched, HandlerReturn, IdAnswer, InboundStep, Operation,
    QueryReply,
};
use siphon_smpp::limiter::{admit_inbound, limiter_for, InboundAdmit, RateLimiter};
use siphon_smpp::load::{errors_by_status, mock_message_id, percentile, plan_drive, report};
use siphon_smpp::metrics::{
    observe_dispatch, record_bind_reconnect, record_bind_request, record_dispatch_error,
    record_pdu, record_throttled, register_all, result_label, set_binds, Kind, Sample, ACCEPTED,
    EGRESS, INBOUND, REJECTED,
};
use siphon_smpp::plan::{bind_kind, spawn};
use siphon_smpp::reply::PduReply;
use siphon_smpp::script::ScriptError;
use siphon_smpp::sessions::{
    bind_handle, bind_session, esme_handle, esme_session, find_bind, on_esme_bound,
    on_esme_unbound, on_smsc_bound, on_smsc_unbound, sample_binds, BindSession, EsmeSession,
};
use siphon_smpp::status::SmppStatus;
use siphon_smpp::supervisor::{Action, Phase, Supervisor};
use siphon_smpp::tlv::Tlv;

const SECOND: u64 = 1_000_000_000;

#[test]
fn rate_limiter_paces_to_configured_rate() {
    // A 100/s limiter starts full (burst of 100), so the first 100 acquires are
    // instant; the 101st must wait one refill interval.
    let mut rl = RateLimiter::new(100, 0);
    for _ in 0..100 {
        assert_eq!(rl.acquire(0), None);
    }
    // The next token has to be refilled (10ms at 100/s).
    assert_eq!(rl.acquire(0), Some(10_000_000));
    assert_eq!(rl.acquire(9_999_999), Some(1));
    assert_eq!(rl.acquire(10_000_000), None);
}

#[test]
fn rate_limiter_new_clamps_zero_to_one() {
    let mut rl = RateLimiter::new(0, 0);
    assert!(rl.try_acquire(0));
    assert!(!rl.try_acquire(SECOND - 1));
    assert!(rl.try_acquire(SECOND));
}

#[test]
fn try_acquire_drains_burst_then_refuses() {
    let mut rl = RateLimiter::new(5, 0);
    for _ in 0..5 {
        assert!(rl.try_acquire(0), "burst token should be available");
    }
    assert!(
        !rl.try_acquire(0),
        "empty bucket must refuse without waiting"
    );
}

#[test]
fn a_limiter_never_stores_more_than_a_second() {
    let mut rl = RateLimiter::new(3, 0);
    let granted = (0..10).filter(|_| rl.try_acquire(100 * SECOND)).count();
    assert_eq!(granted, 3);
    // Over ten seconds no more pass than the burst and the rate.
    let mut rl = RateLimiter::new(3, 0);
    let granted = (0..=10_000)
        .filter(|ms| rl.try_acquire(ms * 1_000_000))
        .count();
    assert_eq!(granted, 33);
    // A clock that goes back refills nothing.
    let mut rl = RateLimiter::new(1, 5 * SECOND);
    assert!(rl.try_acquire(5 * SECOND));
    assert!(!rl.try_acquire(SECOND));
}

#[test]
fn a_wait_is_rounded_up() {
    let mut rl = RateLimiter::new(3, 0);
    for _ in 0..3 {
        assert!(rl.try_acquire(0));
    }
    let wait = rl.acquire(0).expect("empty");
    assert_eq!(wait, 333_333_334);
    assert_eq!(rl.acquire(wait), None);
}

#[test]
fn admission_follows_the_throttle_action() {
    let mut none = limiter_for(0, 0);
    assert!(none.is_none());
    assert_eq!(
        admit_inbound(ThrottleAction::Reject, &mut none, 0),
        InboundAdmit::Proceed
    );
    let mut some = limiter_for(1, 0);
    assert_eq!(
        admit_inbound(ThrottleAction::Reject, &mut some, 0),
        InboundAdmit::Proceed
    );
    assert_eq!(
        admit_inbound(ThrottleAction::Reject, &mut some, 0),
        InboundAdmit::Throttled
    );
    assert_eq!(
        admit_inbound(ThrottleAction::Pace, &mut some, 0),
        InboundAdmit::Wait(SECOND)
    );
    assert_eq!(
        admit_inbound(ThrottleAction::Pace, &mut some, SECOND),
        InboundAdmit::Proceed
    );
    assert_eq!(after_admission(InboundAdmit::Proceed), InboundStep::Dispatch);
    assert_eq!(
        after_admission(InboundAdmit::Throttled),
        InboundStep::Answer(SmppStatus::ESME_RTHROTTLED)
    );
    assert_eq!(after_admission(InboundAdmit::Wait(7)), InboundStep::Wait(7));
}

// ── Dispatch ─────────────────────────────────────────────────────────────

fn options(v: &[Option<&str>]) -> Vec<Option<String>> {
    v.iter().map(|o| o.map(|s| s.to_string())).collect()
}

#[test]
fn handlers_are_picked_by_their_option() {
    let commands = options(&[None, Some("data_sm"), Some("submit_sm"), Some("data_sm")]);
    assert_eq!(pick_pdu_handler(&commands, "data_sm"), Some(1));
    assert_eq!(pick_pdu_handler(&commands, "submit_sm"), Some(2));
    assert_eq!(pick_pdu_handler(&commands, "query_sm"), None);
    assert_eq!(pick_session_handlers(&commands, "data_sm"), vec![1, 3]);
    assert!(pick_session_handlers(&commands, "bound").is_empty());
}

fn reply(status: &str, id: Option<&str>) -> PduReply {
    PduReply::new(status.to_string(), id.map(|s| s.to_string())).expect("a status")
}

fn replied(status: &str, id: Option<&str>) -> Dispatched {
    Dispatched::Replied(reply(status, id))
}

fn accepted_id(a: &IdAnswer) -> Option<&str> {
    match a {
        IdAnswer::Accept(id) => Some(id),
        IdAnswer::Reject(_) => None,
    }
}

#[test]
fn returns_that_are_no_reply_acknowledge() {
    for returned in [HandlerReturn::Nothing, HandlerReturn::Other] {
        match call_pdu_handler(returned) {
            Dispatched::Replied(r) => {
                assert_eq!(r.command_status, SmppStatus::ESME_ROK);
                assert!(r.message_id.is_none());
            }
            other => panic!("{other:?}"),
        }
    }
    assert!(matches!(
        call_pdu_handler(HandlerReturn::Raised),
        Dispatched::Raised
    ));
    assert!(matches!(
        call_pdu_handler(HandlerReturn::Reply(reply("ESME_RSYSERR", None))),
        Dispatched::Replied(r) if r.command_status == SmppStatus::ESME_RSYSERR
    ));
}

#[test]
fn unhandled_operations_get_the_documented_defaults() {
    let no = || Dispatched::NoHandler;
    assert_eq!(on_submit_sm(no()).status(), SmppStatus::ESME_ROK);
    assert_eq!(on_submit_sm_multi(no()).status(), SmppStatus::ESME_RSYSERR);
    assert_eq!(on_data_sm(no()).answer.status(), SmppStatus::ESME_RSYSERR);
    assert_eq!(
        on_data_sm_from_smsc(no()).answer.status(),
        SmppStatus::ESME_RSYSERR
    );
    assert_eq!(on_cancel_sm(no()).status(), SmppStatus::ESME_RCANCELFAIL);
    assert_eq!(on_query_sm(no()).status(), SmppStatus::ESME_RQUERYFAIL);
    assert_eq!(on_replace_sm(no()).status(), SmppStatus::ESME_RREPLACEFAIL);
    assert_eq!(on_deliver_sm(no()), BareAnswer::Accept);
}

#[test]
fn a_raising_handler_is_never_a_success() {
    let up = || Dispatched::Raised;
    assert_eq!(on_submit_sm(up()).status(), SmppStatus::ESME_RSYSERR);
    assert_eq!(on_submit_sm_multi(up()).status(), SmppStatus::ESME_RSYSERR);
    assert_eq!(on_data_sm(up()).answer.status(), SmppStatus::ESME_RSYSERR);
    assert_eq!(on_cancel_sm(up()).status(), SmppStatus::ESME_RCANCELFAIL);
    assert_eq!(on_query_sm(up()).status(), SmppStatus::ESME_RQUERYFAIL);
    assert_eq!(on_replace_sm(up()).status(), SmppStatus::ESME_RREPLACEFAIL);
    assert_eq!(
        on_deliver_sm(up()),
        BareAnswer::Reject(SmppStatus::ESME_RSYSERR)
    );
}

#[test]
fn replies_become_answers() {
    assert_eq!(
        accepted_id(&on_submit_sm(replied("ESME_ROK", Some("a")))),
        Some("a")
    );
    // Without an id the bare status goes out.
    assert!(matches!(
        on_submit_sm(replied("ESME_ROK", None)),
        IdAnswer::Reject(SmppStatus::ESME_ROK)
    ));
    assert!(matches!(
        on_submit_sm(replied("ESME_RINVDSTADR", None)),
        IdAnswer::Reject(SmppStatus::ESME_RINVDSTADR)
    ));
    assert_eq!(
        accepted_id(&on_data_sm(replied("ESME_ROK", Some("a"))).answer),
        Some("a")
    );
    assert_eq!(accepted_id(&on_data_sm(replied("ESME_ROK", None)).answer), Some(""));
    assert_eq!(
        on_data_sm(replied("ESME_RX_P_APPN", None)).answer.status(),
        SmppStatus::ESME_RX_P_APPN
    );
    assert_eq!(
        accepted_id(&on_data_sm_from_smsc(replied("ESME_ROK", Some("a"))).answer),
        Some("a")
    );
    assert_eq!(
        accepted_id(&on_submit_sm_multi(replied("ESME_ROK", None))),
        Some("")
    );
    assert_eq!(on_cancel_sm(replied("ESME_ROK", None)), BareAnswer::Accept);
    assert_eq!(
        on_replace_sm(replied("ESME_RINVMSGID", None)),
        BareAnswer::Reject(SmppStatus::ESME_RINVMSGID)
    );
    assert_eq!(on_deliver_sm(replied("ESME_ROK", None)), BareAnswer::Accept);
}

#[test]
fn a_status_that_rejects_is_not_hidden_by_an_id() {
    let no = || replied("ESME_RSUBMITFAIL", Some("a"));
    let status = SmppStatus::ESME_RSUBMITFAIL;
    assert!(matches!(on_submit_sm(no()), IdAnswer::Reject(s) if s == status));
    assert!(matches!(on_submit_sm_multi(no()), IdAnswer::Reject(s) if s == status));
    assert!(matches!(on_data_sm(no()).answer, IdAnswer::Reject(s) if s == status));
    assert!(matches!(on_data_sm_from_smsc(no()).answer, IdAnswer::Reject(s) if s == status));
    assert!(matches!(on_query_sm(no()), QueryReply::Reject(s) if s == status));
    assert_eq!(on_cancel_sm(no()), BareAnswer::Reject(status));
    assert_eq!(on_replace_sm(no()), BareAnswer::Reject(status));
    assert_eq!(on_deliver_sm(no()), BareAnswer::Reject(status));
}

#[test]
fn submissions_are_gated_and_nothing_else() {
    for op in [Operation::SubmitSm, Operation::SubmitSmMulti, Operation::DataSm] {
        assert!(is_gated(op), "{op:?}");
    }
    for op in [
        Operation::DataSmFromSmsc,
        Operation::CancelSm,
        Operation::QuerySm,
        Operation::ReplaceSm,
        Operation::DeliverSm,
    ] {
        assert!(!is_gated(op), "{op:?}");
    }
}

#[test]
fn response_parameters_ride_on_the_data_answer() {
    let mut r = reply("ESME_RX_P_APPN", None);
    r.tlvs = vec![Tlv { tag: 0x0425, value: vec![1] }];
    let a = on_data_sm(Dispatched::Replied(r));
    assert_eq!(a.answer.status(), SmppStatus::ESME_RX_P_APPN);
    assert_eq!(a.tlvs[0].tag, 0x0425);
}

#[test]
fn query_replies_fill_their_gaps() {
    let mut r = reply("ESME_ROK", None);
    r.final_date = "2401".into();
    r.error_code = 4;
    match on_query_sm(Dispatched::Replied(r)) {
        QueryReply::Accept { message_id, final_date, message_state, error_code } => {
            assert_eq!(message_id, "");
            assert_eq!(final_date, "2401");
            assert_eq!(message_state, 0);
            assert_eq!(error_code, 4);
        }
        other => panic!("{other:?}"),
    }
    assert!(matches!(
        on_query_sm(replied("ESME_RINVMSGID", None)),
        QueryReply::Reject(SmppStatus::ESME_RINVMSGID)
    ));
}

// ── Sessions ─────────────────────────────────────────────────────────────

fn esme(session_id: &str, system_id: &str) -> EsmeSession<u8, ()> {
    EsmeSession {
        session_id: session_id.into(),
        system_id: system_id.into(),
        client_addr: format!("{system_id}:1"),
        can_receive: true,
        handle: 7,
        throttle: (),
    }
}

#[test]
fn sample_binds_empty_is_zero() {
    let binds = Vec::<BindSession<u8, ()>>::new();
    let esmes = Vec::<EsmeSession<u8, ()>>::new();
    assert_eq!(sample_binds(&binds, &esmes), (0, 0));
}

#[test]
fn esme_sessions_come_and_go() {
    let mut esmes = Vec::new();
    let bound = on_esme_bound(&mut esmes, esme("s1", "one"));
    assert_eq!(bound.kind(), "esme");
    assert_eq!((bound.session_id.as_str(), bound.system_id.as_str()), ("s1", "one"));
    on_esme_bound(&mut esmes, esme("s2", "two"));
    on_esme_bound(&mut esmes, esme("s1", "again"));

    let s = esme_session(&esmes, &"s2".to_string(), "peer:9".to_string());
    assert_eq!((s.system_id.as_str(), s.client_addr.as_str()), ("two", "peer:9"));
    assert_eq!(esme_handle(&esmes, "s1").expect("bound").system_id, "one");
    let err = esme_handle(&esmes, "s9").unwrap_err();
    assert!(matches!(err, ScriptError::Key(_)));
    assert_eq!(err.message(), "esme session \"s9\" not bound");
    assert_eq!(
        esme_session(&esmes, &"s9".to_string(), String::new()).system_id,
        ""
    );

    let gone = on_esme_unbound(&mut esmes, &"s1".to_string());
    assert_eq!((gone.system_id.as_str(), gone.client_addr.as_str()), ("one", "one:1"));
    assert_eq!(esmes.len(), 1);
    assert_eq!(esmes[0].session_id, "s2");
    let unknown = on_esme_unbound(&mut esmes, &"s1".to_string());
    assert_eq!((unknown.system_id.as_str(), unknown.session_id.as_str()), ("", "s1"));
}

#[test]
fn outbound_binds_come_and_go() {
    let mut binds: Vec<BindSession<u8, ()>> = Vec::new();
    let up = on_smsc_bound(
        &mut binds,
        "alpha".to_string(),
        "b1".to_string(),
        "smsc:2775".to_string(),
        1,
        (),
    );
    assert_eq!(up.kind(), "bind");
    assert_eq!((up.system_id.as_str(), up.client_addr.as_str()), ("alpha", "smsc:2775"));
    assert_eq!(bind_handle(&binds, "alpha").expect("bound").handle, 1);
    assert_eq!(find_bind(&binds, "b1").expect("bound").name, "alpha");
    assert!(find_bind(&binds, "b2").is_none());
    let err = bind_handle(&binds, "beta").unwrap_err();
    assert!(matches!(err, ScriptError::Key(_)));
    assert_eq!(err.message(), "bind \"beta\" not bound");
    let esmes = vec![esme("s", "x"), esme("t", "y")];
    assert_eq!(sample_binds(&binds, &esmes), (1, 2));

    let alpha = "alpha".to_string();
    assert!(on_smsc_unbound(&mut binds, &alpha, &"b9".to_string()).is_none());
    let down = on_smsc_unbound(&mut binds, &alpha, &"b1".to_string()).expect("was there");
    assert_eq!((down.session_id.as_str(), down.client_addr.as_str()), ("b1", ""));
    assert!(binds.is_empty());
    let s = bind_session(&alpha, &"b1".to_string(), "smsc:2775".to_string());
    assert_eq!((s.kind(), s.system_id.as_str()), ("bind", "alpha"));
}

// ── Supervision ──────────────────────────────────────────────────────────

#[test]
fn the_supervisor_backs_off_and_recovers() {
    let mut s = Supervisor::new();
    assert_eq!(s.phase, Phase::Down);
    let mut waits = Vec::new();
    for _ in 0..8 {
        let (binding, action) = s.started(0);
        assert_eq!(action, Action::Poll);
        let (still, action) = binding.polled(false, 15 * SECOND - 1);
        assert_eq!(action, Action::PollLater);
        let (backing, action) = still.polled(false, 15 * SECOND);
        match action {
            Action::Retry { wait_ms, lost } => {
                waits.push(wait_ms);
                assert!(!lost);
            }
            other => panic!("{other:?}"),
        }
        let (down, action) = backing.slept();
        assert_eq!(action, Action::Connect);
        s = down;
    }
    assert_eq!(
        waits,
        vec![1000, 2000, 4000, 8000, 16000, 32000, 60000, 60000]
    );

    // A session that was up for a while starts the backoff over.
    let (s, _) = s.started(0);
    let (s, action) = s.polled(true, SECOND);
    assert_eq!((s.phase, action), (Phase::Bound(SECOND), Action::PollLater));
    let (short, action) = s.polled(false, 31 * SECOND - 1);
    assert_eq!(action, Action::Retry { wait_ms: 60000, lost: true });
    assert_eq!(short.backoff_ms, 60000);
    let (long, action) = s.polled(false, 31 * SECOND);
    assert_eq!(action, Action::Retry { wait_ms: 1000, lost: true });
    assert_eq!(long.backoff_ms, 2000);
}

fn bind(name: &str, bind_type: &str) -> BindConfig {
    BindConfig {
        name: name.into(),
        host: "h".into(),
        port: 2775,
        system_id: "s".into(),
        password: "p".into(),
        system_type: "t".into(),
        bind_type: bind_type.into(),
        max_msg_per_sec: 9,
        enquire_link_timer_ms: 1,
        response_timer_ms: 2,
        tls: None,
    }
}

#[test]
fn starting_sets_up_the_listener_and_every_bind() {
    let cfg = SmppConfig {
        server: ServerConfig::default(),
        binds: vec![bind("a", "receiver"), bind("b", "whatever")],
        routing: RoutingConfig::default(),
        bind_address: None,
        port: Some(1234),
    };
    assert!(spawn(&cfg, true).is_none());
    let (server, binds) = spawn(&cfg, false).expect("not running");
    assert_eq!((server.host.as_str(), server.port), ("0.0.0.0", 1234));
    assert_eq!(server.buffer_size, 1500);
    assert_eq!(binds.len(), 2);
    assert_eq!(binds[0].kind, BindKind::Receiver);
    assert_eq!(binds[1].kind, BindKind::Transceiver);
    assert_eq!(binds[1].name, "b");
    assert!(server.tls.is_none());
    assert!(binds[1].tls.is_none());
    assert_eq!(
        (
            binds[0].session_init_timer_ms,
            binds[0].enquire_link_timer_ms,
            binds[0].inactivity_timer_ms,
            binds[0].response_timer_ms,
            binds[0].window_size
        ),
        (5000, 1, 60000, 2, 20)
    );
    assert_eq!(bind_kind("transmitter"), BindKind::Transmitter);
}

#[test]
fn tls_reaches_the_listener_and_the_binds() {
    let tls = |ca: Option<&str>| {
        Some(TlsConfig {
            cert_path: "smpp.crt".into(),
            key_path: "smpp.key".into(),
            ca_path: ca.map(|s| s.to_string()),
        })
    };
    let mut pinned = bind("a", "receiver");
    pinned.tls = tls(Some("upstream.crt"));
    let mut unpinned = bind("b", "receiver");
    unpinned.tls = tls(None);
    let cfg = SmppConfig {
        server: ServerConfig { tls: tls(Some("ca.crt")), ..ServerConfig::default() },
        binds: vec![pinned, unpinned, bind("c", "receiver")],
        routing: RoutingConfig::default(),
        bind_address: None,
        port: None,
    };
    let (server, binds) = spawn(&cfg, false).expect("not running");
    let t = server.tls.expect("speaks TLS");
    assert_eq!((t.cert_path.as_str(), t.key_path.as_str()), ("smpp.crt", "smpp.key"));
    assert_eq!(t.ca_path.as_deref(), Some("ca.crt"));
    let ca = |i: usize| binds[i].tls.as_ref().map(|t| t.ca_path.as_deref());
    assert_eq!(ca(0), Some(Some("upstream.crt")));
    assert_eq!(ca(1), Some(None));
    assert_eq!(ca(2), None);
}

// ── Metrics ──────────────────────────────────────────────────────────────

fn shown(s: &Sample) -> String {
    let labels: Vec<String> = s.labels.iter().map(|(k, v)| format!("{k}={v}")).collect();
    format!("{}{{{}}} {}", s.name, labels.join(","), s.value)
}

#[test]
fn series_are_registered_with_their_labels() {
    let all = register_all();
    let names: Vec<&str> = all.iter().map(|s| s.name).collect();
    assert_eq!(
        names,
        vec![
            "siphon_smpp_binds",
            "siphon_smpp_pdus_total",
            "siphon_smpp_throttled_total",
            "siphon_smpp_bind_reconnects_total",
            "siphon_smpp_dispatch_errors_total",
            "siphon_smpp_dispatch_duration_seconds",
            "siphon_smpp_bind_requests_total",
        ]
    );
    assert_eq!(all[0].kind, Kind::Gauge);
    assert_eq!(all[1].labels, vec!["direction", "command", "result"]);
    assert_eq!(all[5].kind, Kind::Histogram);
    assert_eq!(
        all[5].buckets_ms,
        vec![1, 5, 10, 25, 50, 100, 250, 500, 1000, 2500]
    );
    assert!(all.iter().all(|s| s.kind == Kind::Histogram || s.buckets_ms.is_empty()));
    for sample in [
        record_pdu(true, "a", "b", "c"),
        record_throttled(true, "a"),
        record_bind_reconnect(true, "a"),
        record_dispatch_error(true, "a"),
        observe_dispatch(true, "a", 1),
        record_bind_request(true, "a"),
        Some(set_binds(1, 2).0),
    ] {
        let sample = sample.expect("enabled");
        let series = all.iter().find(|s| s.name == sample.name).expect("registered");
        let labels: Vec<&str> = sample.labels.iter().map(|(k, _)| *k).collect();
        assert_eq!(series.labels, labels);
    }
}

#[test]
fn samples_carry_their_labels() {
    let (egress, inbound) = set_binds(1, 2);
    assert_eq!(shown(&egress), "siphon_smpp_binds{direction=egress,state=bound} 1");
    assert_eq!(shown(&inbound), "siphon_smpp_binds{direction=inbound,state=bound} 2");
    assert_eq!(
        shown(&record_pdu(true, INBOUND, "submit_sm", ACCEPTED).expect("enabled")),
        "siphon_smpp_pdus_total{direction=inbound,command=submit_sm,result=accepted} 1"
    );
    assert_eq!(
        shown(&record_pdu(true, EGRESS, "deliver_sm", REJECTED).expect("enabled")),
        "siphon_smpp_pdus_total{direction=egress,command=deliver_sm,result=rejected} 1"
    );
    assert_eq!(
        shown(&record_throttled(true, INBOUND).expect("enabled")),
        "siphon_smpp_throttled_total{direction=inbound} 1"
    );
    assert_eq!(
        shown(&record_bind_reconnect(true, "trunk").expect("enabled")),
        "siphon_smpp_bind_reconnects_total{bind=trunk} 1"
    );
    assert_eq!(
        shown(&record_dispatch_error(true, "submit_sm").expect("enabled")),
        "siphon_smpp_dispatch_errors_total{command=submit_sm} 1"
    );
    assert_eq!(
        shown(&observe_dispatch(true, "submit_sm", 12_000_000).expect("enabled")),
        "siphon_smpp_dispatch_duration_seconds{command=submit_sm} 12000000"
    );
    assert_eq!(
        shown(&record_bind_request(true, ACCEPTED).expect("enabled")),
        "siphon_smpp_bind_requests_total{result=accepted} 1"
    );
    assert!(record_pdu(false, INBOUND, "submit_sm", ACCEPTED).is_none());
    assert!(record_bind_request(false, ACCEPTED).is_none());
    assert_eq!(result_label(SmppStatus::ESME_ROK), "accepted");
    assert_eq!(result_label(SmppStatus::ESME_RTHROTTLED), "rejected");
}

// ── Load ─────────────────────────────────────────────────────────────────

#[test]
fn a_run_is_planned_and_reported() {
    let plan = plan_drive(3, 2, 4);
    assert_eq!((plan.client_window, plan.warmup), (8, 2));
    assert_eq!(plan.body, b"xxxx");
    let plan = plan_drive(3, 64, 0);
    assert_eq!((plan.client_window, plan.warmup), (64, 3));
    assert_eq!(mock_message_id(1), "1");
    assert_eq!(mock_message_id(0xBEEF), "beef");

    let latencies: Vec<u64> = (1..=1000).rev().collect();
    let r = report(&latencies, 0);
    assert_eq!((r.submitted, r.ok, r.errors), (1000, 1000, 0));
    let l = r.latency.expect("answered");
    assert_eq!((l.p50, l.p90, l.p99, l.p999, l.max), (501, 900, 990, 999, 1000));
    assert!(!r.failed());

    let r = report(&Vec::new(), 2);
    assert_eq!((r.submitted, r.ok, r.errors), (2, 0, 2));
    assert!(r.latency.is_none() && r.failed());
}

#[test]
fn errors_are_broken_down_by_status() {
    assert!(errors_by_status(&Vec::new()).is_empty());
    let errors = vec![
        SmppStatus::ESME_RTHROTTLED,
        SmppStatus::ESME_RSYSERR,
        SmppStatus::ESME_RTHROTTLED,
        SmppStatus::ESME_RTHROTTLED,
    ];
    assert_eq!(
        errors_by_status(&errors),
        vec![
            (SmppStatus::ESME_RTHROTTLED, 3),
            (SmppStatus::ESME_RSYSERR, 1)
        ]
    );
}

#[test]
fn percentiles_are_nearest_rank() {
    assert_eq!(percentile(&vec![], 500), 0);
    assert_eq!(percentile(&vec![7], 999), 7);
    assert_eq!(percentile(&vec![1, 2], 500), 2);
    assert_eq!(percentile(&vec![1, 2, 3], 500), 2);
    assert_eq!(percentile(&vec![1, 2, 3, 4, 5, 6], 900), 6);
    let v: Vec<u64> = (0..=100).collect();
    assert_eq!(percentile(&v, 0), 0);
    assert_eq!(percentile(&v, 900), 90);
    assert_eq!(percentile(&v, 1000), 100);
    // The same as rounding in floating point.
    for n in (1..400usize).chain([501, 1501, 2500, 100_501]) {
        let v: Vec<u64> = (0..n as u64).collect();
        for (permille, p) in [(500, 50.0), (900, 90.0), (990, 99.0), (999, 99.9)] {
            let idx = ((p / 100.0) * (n as f64 - 1.0)).round() as usize;
            assert_eq!(percentile(&v, permille), v[idx.min(n - 1)]);
        }
    }
}
