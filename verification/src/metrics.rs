//! Prometheus metrics: the series, and the samples that the runtime takes.
//!
//! Every series lives in the host's metrics store. When the host has not
//! initialised it, every `record_*` helper takes no sample — never a panic, never
//! a broken bind path.
use vstd::prelude::*;

verus! {

/// Current bind sessions.
pub const BINDS: &'static str = "siphon_smpp_binds";

/// PDUs handled.
pub const PDUS: &'static str = "siphon_smpp_pdus_total";

/// PDUs paced or rejected by a rate limiter.
pub const THROTTLED: &'static str = "siphon_smpp_throttled_total";

/// Outbound bind reconnects.
pub const RECONNECTS: &'static str = "siphon_smpp_bind_reconnects_total";

/// Dispatches whose handler raised.
pub const DISPATCH_ERRORS: &'static str = "siphon_smpp_dispatch_errors_total";

/// Handler dispatch duration.
pub const DISPATCH_DURATION: &'static str = "siphon_smpp_dispatch_duration_seconds";

/// Inbound bind requests.
pub const BIND_REQUESTS: &'static str = "siphon_smpp_bind_requests_total";

/// `direction` label: an external ESME bound to *our* listener.
pub const INBOUND: &'static str = "inbound";

/// `direction` label: *our* outbound client bind to the trunk.
pub const EGRESS: &'static str = "egress";

/// `result` label: the PDU was accepted on the wire.
pub const ACCEPTED: &'static str = "accepted";

/// `result` label: the PDU was rejected on the wire (script status, no handler,
/// throttle, or a raised handler).
pub const REJECTED: &'static str = "rejected";

/// `state` label. Only `bound` is emitted: a bind that is still connecting is not
/// in shared state.
pub const BOUND: &'static str = "bound";

/// How often the binds gauge is sampled, in seconds.
pub const SAMPLE_INTERVAL_SECS: u64 = 10;

// ── Series ───────────────────────────────────────────────────────────────

/// The kinds of series.
#[derive(Debug, Clone, Copy, PartialEq, Eq, Structural)]
pub enum Kind {
    Gauge,
    Counter,
    Histogram,
}

/// A series to register.
#[derive(Debug)]
pub struct Series {
    pub kind: Kind,
    pub name: &'static str,
    pub help: &'static str,
    pub labels: Vec<&'static str>,
    /// Upper bounds of the histogram buckets, in milliseconds.
    pub buckets_ms: Vec<u64>,
}

/// A series: kind, name, help, labels and buckets.
pub struct SeriesView {
    pub kind: Kind,
    pub name: Seq<char>,
    pub help: Seq<char>,
    pub labels: Seq<Seq<char>>,
    pub buckets_ms: Seq<u64>,
}

/// The texts of a list of labels.
pub open spec fn label_texts(labels: Seq<&'static str>) -> Seq<Seq<char>> {
    labels.map_values(|l: &'static str| l@)
}

impl View for Series {
    type V = SeriesView;

    open spec fn view(&self) -> SeriesView {
        SeriesView {
            kind: self.kind,
            name: self.name@,
            help: self.help@,
            labels: label_texts(self.labels@),
            buckets_ms: self.buckets_ms@,
        }
    }
}

/// The labels of each series, in the order of registration.
pub open spec fn series_labels(name: Seq<char>) -> Seq<Seq<char>> {
    if name == BINDS@ {
        seq!["direction"@, "state"@]
    } else if name == PDUS@ {
        seq!["direction"@, "command"@, "result"@]
    } else if name == THROTTLED@ {
        seq!["direction"@]
    } else if name == RECONNECTS@ {
        seq!["bind"@]
    } else if name == DISPATCH_ERRORS@ {
        seq!["command"@]
    } else if name == DISPATCH_DURATION@ {
        seq!["command"@]
    } else {
        seq!["result"@]
    }
}

/// Handler-latency histogram buckets in milliseconds.
pub open spec fn duration_buckets_ms() -> Seq<u64> {
    seq![1, 5, 10, 25, 50, 100, 250, 500, 1000, 2500]
}

/// The series, in the order of registration: a gauge of binds, counters, and a
/// histogram of durations.
pub open spec fn all_series() -> Seq<SeriesView> {
    seq![
        plain_series(Kind::Gauge, BINDS@, "Current SMPP bind sessions"@),
        plain_series(
            Kind::Counter,
            PDUS@,
            "SMPP PDUs handled, by direction, command and wire result"@,
        ),
        plain_series(Kind::Counter, THROTTLED@, "SMPP PDUs paced or rejected by a rate limiter"@),
        plain_series(
            Kind::Counter,
            RECONNECTS@,
            "Outbound SMPP bind reconnects (an established session dropped)"@,
        ),
        plain_series(
            Kind::Counter,
            DISPATCH_ERRORS@,
            "SMPP dispatches where the script handler raised"@,
        ),
        SeriesView {
            kind: Kind::Histogram,
            name: DISPATCH_DURATION@,
            help: "SMPP script handler dispatch duration in seconds"@,
            labels: series_labels(DISPATCH_DURATION@),
            buckets_ms: duration_buckets_ms(),
        },
        plain_series(Kind::Counter, BIND_REQUESTS@, "Inbound SMPP bind requests, by outcome"@),
    ]
}

/// A series without buckets.
pub open spec fn plain_series(kind: Kind, name: Seq<char>, help: Seq<char>) -> SeriesView {
    SeriesView { kind, name, help, labels: series_labels(name), buckets_ms: Seq::empty() }
}

/// What a list of series registers.
pub open spec fn series_views(series: Seq<Series>) -> Seq<SeriesView> {
    series.map_values(|s: Series| s@)
}

/// The names differ, so each has labels of its own.
proof fn names_differ()
    ensures
        series_labels(BINDS@) == seq!["direction"@, "state"@],
        series_labels(PDUS@) == seq!["direction"@, "command"@, "result"@],
        series_labels(THROTTLED@) == seq!["direction"@],
        series_labels(RECONNECTS@) == seq!["bind"@],
        series_labels(DISPATCH_ERRORS@) == seq!["command"@],
        series_labels(DISPATCH_DURATION@) == seq!["command"@],
        series_labels(BIND_REQUESTS@) == seq!["result"@],
{
    reveal_strlit("siphon_smpp_binds");
    reveal_strlit("siphon_smpp_pdus_total");
    reveal_strlit("siphon_smpp_throttled_total");
    reveal_strlit("siphon_smpp_bind_reconnects_total");
    reveal_strlit("siphon_smpp_dispatch_errors_total");
    reveal_strlit("siphon_smpp_dispatch_duration_seconds");
    reveal_strlit("siphon_smpp_bind_requests_total");
    assert(BINDS@.len() == 17 && PDUS@.len() == 22 && THROTTLED@.len() == 27);
    assert(RECONNECTS@.len() == 33 && DISPATCH_ERRORS@.len() == 33);
    assert(DISPATCH_DURATION@.len() == 37 && BIND_REQUESTS@.len() == 31);
    assert(RECONNECTS@[12] != DISPATCH_ERRORS@[12]);
}

fn one_label(label: &'static str) -> (out: Vec<&'static str>)
    ensures
        out@ == seq![label],
        label_texts(out@) == seq![label@],
{
    let mut out: Vec<&'static str> = Vec::new();
    out.push(label);
    assert(label_texts(out@) =~= seq![label@]);
    out
}

fn plain(kind: Kind, name: &'static str, help: &'static str, labels: Vec<&'static str>) -> (s:
    Series)
    ensures
        s@ == (SeriesView {
            kind,
            name: name@,
            help: help@,
            labels: label_texts(labels@),
            buckets_ms: Seq::empty(),
        }),
{
    Series { kind, name, help, labels, buckets_ms: Vec::new() }
}

/// Every series, in the order of registration.
pub fn register_all() -> (out: Vec<Series>)
    ensures
        series_views(out@) == all_series(),
{
    proof {
        names_differ();
    }
    let mut out: Vec<Series> = Vec::new();
    let mut binds: Vec<&'static str> = one_label("direction");
    binds.push("state");
    assert(label_texts(binds@) =~= seq!["direction"@, "state"@]);
    out.push(plain(Kind::Gauge, BINDS, "Current SMPP bind sessions", binds));
    let mut pdus: Vec<&'static str> = one_label("direction");
    pdus.push("command");
    pdus.push("result");
    assert(label_texts(pdus@) =~= seq!["direction"@, "command"@, "result"@]);
    out.push(
        plain(
            Kind::Counter,
            PDUS,
            "SMPP PDUs handled, by direction, command and wire result",
            pdus,
        ),
    );
    out.push(
        plain(
            Kind::Counter,
            THROTTLED,
            "SMPP PDUs paced or rejected by a rate limiter",
            one_label("direction"),
        ),
    );
    out.push(
        plain(
            Kind::Counter,
            RECONNECTS,
            "Outbound SMPP bind reconnects (an established session dropped)",
            one_label("bind"),
        ),
    );
    out.push(
        plain(
            Kind::Counter,
            DISPATCH_ERRORS,
            "SMPP dispatches where the script handler raised",
            one_label("command"),
        ),
    );
    let buckets_ms: Vec<u64> = vec![1, 5, 10, 25, 50, 100, 250, 500, 1000, 2500];
    assert(buckets_ms@ =~= duration_buckets_ms());
    out.push(
        Series {
            kind: Kind::Histogram,
            name: DISPATCH_DURATION,
            help: "SMPP script handler dispatch duration in seconds",
            labels: one_label("command"),
            buckets_ms,
        },
    );
    out.push(
        plain(
            Kind::Counter,
            BIND_REQUESTS,
            "Inbound SMPP bind requests, by outcome",
            one_label("result"),
        ),
    );
    assert(series_views(out@) =~= all_series());
    out
}

// ── Samples ──────────────────────────────────────────────────────────────

/// A sample for the store: add one to a counter, set a gauge, or observe a
/// duration in nanoseconds.
#[derive(Debug)]
pub struct Sample {
    pub name: &'static str,
    pub labels: Vec<(&'static str, String)>,
    pub value: u64,
}

/// The labels of a sample: names and values.
pub open spec fn pairs(labels: Seq<(&'static str, String)>) -> Seq<(Seq<char>, Seq<char>)> {
    labels.map_values(|l: (&'static str, String)| (l.0@, l.1@))
}

impl Sample {
    /// Whether the sample puts `value` into the series `name` under `labels`.
    pub open spec fn is(
        self,
        name: Seq<char>,
        labels: Seq<(Seq<char>, Seq<char>)>,
        value: u64,
    ) -> bool {
        self.name@ == name && pairs(self.labels@) == labels && self.value == value
    }
}

fn sample_of(name: &'static str, label: &'static str, text: &str, value: u64) -> (s: Sample)
    ensures
        s.is(name@, seq![(label@, text@)], value),
        s.labels@.len() == 1,
        s.labels@[0].0 == label,
        s.labels@[0].1@ == text@,
{
    let mut labels: Vec<(&'static str, String)> = Vec::new();
    labels.push((label, text.to_owned()));
    assert(pairs(labels@) =~= seq![(label@, text@)]);
    Sample { name, labels, value }
}

/// Count a handled PDU by `direction` (`INBOUND`/`EGRESS`), SMPP `command` name
/// and `result` (`ACCEPTED`/`REJECTED`).
pub fn record_pdu(enabled: bool, direction: &str, command: &str, result: &str) -> (r: Option<
    Sample,
>)
    ensures
        r is Some == enabled,
        r matches Some(s) ==> s.is(
            PDUS@,
            seq![("direction"@, direction@), ("command"@, command@), ("result"@, result@)],
            1,
        ),
{
    if !enabled {
        return None;
    }
    let mut s: Sample = sample_of(PDUS, "direction", direction, 1);
    s.labels.push(("command", command.to_owned()));
    s.labels.push(("result", result.to_owned()));
    assert(pairs(s.labels@) =~= seq![
        ("direction"@, direction@),
        ("command"@, command@),
        ("result"@, result@),
    ]);
    Some(s)
}

/// Count a PDU that was paced (delayed for a token) or rejected
/// (`ESME_RTHROTTLED`) by a rate limiter, by `direction`.
pub fn record_throttled(enabled: bool, direction: &str) -> (r: Option<Sample>)
    ensures
        r is Some == enabled,
        r matches Some(s) ==> s.is(THROTTLED@, seq![("direction"@, direction@)], 1),
{
    if enabled {
        Some(sample_of(THROTTLED, "direction", direction, 1))
    } else {
        None
    }
}

/// Count a reconnect of the named outbound bind (an established session dropped
/// and the supervisor re-established it).
pub fn record_bind_reconnect(enabled: bool, bind: &str) -> (r: Option<Sample>)
    ensures
        r is Some == enabled,
        r matches Some(s) ==> s.is(RECONNECTS@, seq![("bind"@, bind@)], 1),
{
    if enabled {
        Some(sample_of(RECONNECTS, "bind", bind, 1))
    } else {
        None
    }
}

/// Count a dispatch where the `@smpp.on_pdu(command)` handler raised.
pub fn record_dispatch_error(enabled: bool, command: &str) -> (r: Option<Sample>)
    ensures
        r is Some == enabled,
        r matches Some(s) ==> s.is(DISPATCH_ERRORS@, seq![("command"@, command@)], 1),
{
    if enabled {
        Some(sample_of(DISPATCH_ERRORS, "command", command, 1))
    } else {
        None
    }
}

/// Observe a script handler dispatch duration for `command`.
pub fn observe_dispatch(enabled: bool, command: &str, nanos: u64) -> (r: Option<Sample>)
    ensures
        r is Some == enabled,
        r matches Some(s) ==> s.is(DISPATCH_DURATION@, seq![("command"@, command@)], nanos),
{
    if enabled {
        Some(sample_of(DISPATCH_DURATION, "command", command, nanos))
    } else {
        None
    }
}

/// Count an inbound bind request by `result` (`ACCEPTED`/`REJECTED`).
pub fn record_bind_request(enabled: bool, result: &str) -> (r: Option<Sample>)
    ensures
        r is Some == enabled,
        r matches Some(s) ==> s.is(BIND_REQUESTS@, seq![("result"@, result@)], 1),
{
    if enabled {
        Some(sample_of(BIND_REQUESTS, "result", result, 1))
    } else {
        None
    }
}

/// The `result` label of an answer: accepted where it goes onto the wire with
/// `ESME_ROK`.
pub fn result_label(status: crate::status::SmppStatus) -> (r: &'static str)
    ensures
        r@ == if status == crate::status::SmppStatus::ESME_ROK {
            ACCEPTED@
        } else {
            REJECTED@
        },
{
    if status.is_ok() {
        ACCEPTED
    } else {
        REJECTED
    }
}

fn binds_sample(direction: &'static str, count: u64) -> (s: Sample)
    ensures
        s.is(BINDS@, seq![("direction"@, direction@), ("state"@, BOUND@)], count),
{
    let mut s: Sample = sample_of(BINDS, "direction", direction, count);
    s.labels.push(("state", BOUND.to_owned()));
    assert(pairs(s.labels@) =~= seq![("direction"@, direction@), ("state"@, BOUND@)]);
    s
}

/// The `siphon_smpp_binds` gauge from a sample of bound sessions.
pub fn set_binds(egress: u64, inbound: u64) -> (r: (Sample, Sample))
    ensures
        r.0.is(BINDS@, seq![("direction"@, EGRESS@), ("state"@, BOUND@)], egress),
        r.1.is(BINDS@, seq![("direction"@, INBOUND@), ("state"@, BOUND@)], inbound),
{
    (binds_sample(EGRESS, egress), binds_sample(INBOUND, inbound))
}

// ── What is promised of the samples ──────────────────────────────────────

/// The names of labels.
pub open spec fn label_names(labels: Seq<(Seq<char>, Seq<char>)>) -> Seq<Seq<char>> {
    labels.map_values(|l: (Seq<char>, Seq<char>)| l.0)
}

/// Whether a series of this name is registered with these labels.
pub open spec fn is_registered(name: Seq<char>, labels: Seq<Seq<char>>) -> bool {
    exists|i: int|
        0 <= i < all_series().len() && (#[trigger] all_series()[i]).name == name
            && all_series()[i].labels == labels
}

/// Every sample belongs to a series that is registered, with the labels that the
/// series was registered with.
pub proof fn samples_fit_their_series(a: Seq<char>, b: Seq<char>, c: Seq<char>)
    ensures
        is_registered(
            PDUS@,
            label_names(seq![("direction"@, a), ("command"@, b), ("result"@, c)]),
        ),
        is_registered(THROTTLED@, label_names(seq![("direction"@, a)])),
        is_registered(RECONNECTS@, label_names(seq![("bind"@, a)])),
        is_registered(DISPATCH_ERRORS@, label_names(seq![("command"@, a)])),
        is_registered(DISPATCH_DURATION@, label_names(seq![("command"@, a)])),
        is_registered(BIND_REQUESTS@, label_names(seq![("result"@, a)])),
        is_registered(BINDS@, label_names(seq![("direction"@, a), ("state"@, b)])),
{
    names_differ();
    let all = all_series();
    assert(label_names(seq![("direction"@, a), ("state"@, b)]) =~= seq!["direction"@, "state"@]);
    assert(all[0].name == BINDS@);
    assert(label_names(seq![("direction"@, a), ("command"@, b), ("result"@, c)]) =~= seq![
        "direction"@,
        "command"@,
        "result"@,
    ]);
    assert(all[1].name == PDUS@);
    assert(label_names(seq![("direction"@, a)]) =~= seq!["direction"@]);
    assert(all[2].name == THROTTLED@);
    assert(label_names(seq![("bind"@, a)]) =~= seq!["bind"@]);
    assert(all[3].name == RECONNECTS@);
    assert(label_names(seq![("command"@, a)]) =~= seq!["command"@]);
    assert(all[4].name == DISPATCH_ERRORS@);
    assert(all[5].name == DISPATCH_DURATION@);
    assert(label_names(seq![("result"@, a)]) =~= seq!["result"@]);
    assert(all[6].name == BIND_REQUESTS@);
}

/// Whether a name ends in `_total`.
pub open spec fn is_a_total(name: Seq<char>) -> bool {
    name.len() >= 6 && name.subrange(name.len() - 6, name.len() as int) == "_total"@
}

/// A name tells the kind of its series: what ends in `_total` is a counter, and
/// nothing else is. Only a histogram has buckets, and their bounds ascend.
pub proof fn a_name_tells_the_kind(i: int, a: int, b: int)
    requires
        0 <= i < all_series().len(),
    ensures
        all_series().len() == 7,
        all_series()[i].kind == Kind::Counter <==> is_a_total(all_series()[i].name),
        all_series()[i].kind == Kind::Histogram <==> all_series()[i].buckets_ms.len() > 0,
        0 <= a < b < all_series()[i].buckets_ms.len() ==> all_series()[i].buckets_ms[a]
            < all_series()[i].buckets_ms[b],
        0 <= a < b < 7 ==> all_series()[a].name != all_series()[b].name,
{
    reveal_strlit("_total");
    reveal_strlit("siphon_smpp_binds");
    reveal_strlit("siphon_smpp_pdus_total");
    reveal_strlit("siphon_smpp_throttled_total");
    reveal_strlit("siphon_smpp_bind_reconnects_total");
    reveal_strlit("siphon_smpp_dispatch_errors_total");
    reveal_strlit("siphon_smpp_dispatch_duration_seconds");
    reveal_strlit("siphon_smpp_bind_requests_total");
    let name = all_series()[i].name;
    let end = name.subrange(name.len() - 6, name.len() as int);
    if i == 1 || i == 2 || i == 3 || i == 4 || i == 6 {
        assert(end =~= "_total"@);
    } else {
        assert(end[5] == name[name.len() - 1]);
        assert(name[name.len() - 1] == 's');
        assert("_total"@[5] == 'l');
    }
    assert(BINDS@.len() == 17 && PDUS@.len() == 22 && THROTTLED@.len() == 27);
    assert(RECONNECTS@.len() == 33 && DISPATCH_ERRORS@.len() == 33);
    assert(DISPATCH_DURATION@.len() == 37 && BIND_REQUESTS@.len() == 31);
    assert(RECONNECTS@[12] != DISPATCH_ERRORS@[12]);
}

} // verus!
