//! The series and samples in the host's own store, down to the text that it
//! serves.

use siphon::metrics::custom::CustomMetrics;
use siphon_smpp::metrics::{
    observe_dispatch, record_bind_reconnect, record_bind_request, record_dispatch_error,
    record_pdu, record_throttled, register_all, set_binds, Kind, Sample, ACCEPTED, BINDS, EGRESS,
    INBOUND, REJECTED,
};

fn register(cm: &CustomMetrics) -> Vec<Result<(), String>> {
    register_all()
        .iter()
        .map(|s| match s.kind {
            Kind::Gauge => cm.register_gauge(s.name, s.help, &s.labels),
            Kind::Counter => cm.register_counter(s.name, s.help, &s.labels),
            Kind::Histogram => {
                let buckets = s.buckets_ms.iter().map(|ms| *ms as f64 / 1e3).collect();
                cm.register_histogram(s.name, s.help, &s.labels, buckets)
            }
        })
        .collect()
}

fn labels(s: &Sample) -> Vec<(&str, &str)> {
    s.labels.iter().map(|(k, v)| (*k, v.as_str())).collect()
}

fn count(cm: &CustomMetrics, s: Option<Sample>) {
    let s = s.expect("the engine is up");
    cm.counter_inc(s.name, &labels(&s), s.value as f64)
        .expect("registered");
}

#[test]
fn register_emit_and_encode() {
    siphon::metrics::init().expect("metrics init");
    let cm = siphon::metrics::custom_metrics().expect("custom metrics present after init");

    assert!(register(cm).iter().all(|r| r.is_ok()));
    // Double-register is a guarded no-op: the store rejects a duplicate.
    assert!(cm
        .register_gauge(BINDS, "dup", &["direction", "state"])
        .is_err());
    assert!(register(cm).iter().all(|r| r.is_err()));

    let (egress, inbound) = set_binds(1, 2);
    for s in [egress, inbound] {
        cm.gauge_set(s.name, &labels(&s), s.value as f64)
            .expect("registered");
    }
    count(cm, record_pdu(true, INBOUND, "submit_sm", ACCEPTED));
    count(cm, record_pdu(true, EGRESS, "deliver_sm", REJECTED));
    count(cm, record_throttled(true, INBOUND));
    count(cm, record_bind_reconnect(true, "trunk"));
    count(cm, record_dispatch_error(true, "submit_sm"));
    let s = observe_dispatch(true, "submit_sm", 12_000_000).expect("the engine is up");
    cm.histogram_observe(s.name, &labels(&s), s.value as f64 / 1e9)
        .expect("registered");
    count(cm, record_bind_request(true, ACCEPTED));

    let out = siphon::metrics::encode_metrics();
    for line in [
        r#"siphon_smpp_binds{direction="egress",state="bound"} 1"#,
        r#"siphon_smpp_binds{direction="inbound",state="bound"} 2"#,
        r#"siphon_smpp_pdus_total{command="submit_sm",direction="inbound",result="accepted"} 1"#,
        r#"siphon_smpp_pdus_total{command="deliver_sm",direction="egress",result="rejected"} 1"#,
        r#"siphon_smpp_throttled_total{direction="inbound"} 1"#,
        r#"siphon_smpp_bind_reconnects_total{bind="trunk"} 1"#,
        r#"siphon_smpp_dispatch_errors_total{command="submit_sm"} 1"#,
        r#"siphon_smpp_dispatch_duration_seconds_count{command="submit_sm"} 1"#,
        r#"siphon_smpp_bind_requests_total{result="accepted"} 1"#,
        // 12 ms falls between the 10 ms and the 25 ms bucket.
        r#"siphon_smpp_dispatch_duration_seconds_bucket{command="submit_sm",le="0.01"} 0"#,
        r#"siphon_smpp_dispatch_duration_seconds_bucket{command="submit_sm",le="0.025"} 1"#,
    ] {
        assert!(out.contains(line), "{line}\n{out}");
    }
}
