//! Authorising inbound binds. Binds are closed by default: without an
//! `@smpp.on_bind` handler that says yes, nobody gets in.
use crate::script::{Fault, ScriptError};
use crate::status;
use crate::status::SmppStatus;
use crate::text;
use vstd::prelude::*;

verus! {

/// Argument to `@smpp.on_bind`. The handler authorises the bind by returning
/// `bind.accept()` or `bind.reject("ESME_RINVPASWD", "why")`. Bare truthy/falsy
/// returns still work (truthy = accept, falsy/None = reject).
#[derive(Debug, Clone)]
pub struct Bind {
    pub system_id: String,
    pub password: String,
    pub client_addr: String,
}

/// Outcome of `@smpp.on_bind` — what `bind.accept()` / `bind.reject(...)` return.
/// On reject `status` goes onto the wire and `reason` is logged.
#[derive(Debug, Clone)]
pub struct BindResult {
    pub accept: bool,
    pub status: SmppStatus,
    pub reason: String,
}

impl Bind {
    /// Accept the bind.
    pub fn accept(&self) -> (r: BindResult)
        ensures
            r.accept,
            r.status == SmppStatus::ESME_ROK,
            r.reason@.len() == 0,
    {
        BindResult { accept: true, status: SmppStatus::ESME_ROK, reason: String::new() }
    }

    /// Reject the bind with an explicit SMPP status and an operator-facing
    /// reason (logged on the reject). Common statuses: `ESME_RINVPASWD` (bad
    /// password), `ESME_RINVSYSID` (unknown system_id), `ESME_RBINDFAIL`
    /// (generic), `ESME_RTHROTTLED` (rate-limited).
    pub fn reject(&self, status: String, reason: String) -> (r: Result<BindResult, ScriptError>)
        ensures
            match r {
                Ok(b) => {
                    &&& !b.accept
                    &&& b.status.is_script_status()
                    &&& b.status.spelling() == status@
                    &&& b.reason == reason
                },
                Err(e) => !status::names_a_status(status@) && e@ == Fault::Value(
                    "unknown SMPP status: "@ + text::quoted(status@),
                ),
            },
    {
        match status::parse_smpp_status(status.as_str()) {
            Ok(status) => Ok(BindResult { accept: false, status, reason }),
            Err(e) => Err(e),
        }
    }

    /// How the bind shows in a log. The password does not show.
    pub open spec fn shown(self) -> Seq<char> {
        "Bind(system_id="@ + text::quoted(self.system_id@) + ", client_addr="@ + text::quoted(
            self.client_addr@,
        ) + ")"@
    }

    /// How the bind shows in a log. The password does not show.
    pub fn repr(&self) -> (out: String)
        ensures
            out@ == self.shown(),
    {
        let mut out: String = String::new();
        out.append("Bind(system_id=");
        out.append(text::to_quoted(self.system_id.as_str()).as_str());
        out.append(", client_addr=");
        out.append(text::to_quoted(self.client_addr.as_str()).as_str());
        out.append(")");
        assert(out@ =~= self.shown());
        out
    }
}

impl BindResult {
    /// Whether the bind is accepted: the truth value of the result.
    pub fn is_accepted(&self) -> (r: bool)
        ensures
            r == self.accept,
    {
        self.accept
    }

    /// How the result shows in a log.
    pub fn repr(&self) -> (out: String)
        ensures
            out@ == if self.accept {
                "BindResult(accept)"@
            } else {
                "BindResult(reject, status="@ + self.status.spelling() + ", reason="@
                    + text::quoted(self.reason@) + ")"@
            },
    {
        if self.accept {
            return "BindResult(accept)".to_owned();
        }
        let mut out: String = String::new();
        out.append("BindResult(reject, status=");
        out.append(self.status.name());
        out.append(", reason=");
        out.append(text::to_quoted(self.reason.as_str()).as_str());
        out.append(")");
        assert(out@ =~= "BindResult(reject, status="@ + self.status.spelling() + ", reason="@
            + text::quoted(self.reason@) + ")"@);
        out
    }
}

/// What came of calling the `@smpp.on_bind` handler.
#[derive(Debug)]
pub enum BindReturn {
    /// There is no handler.
    NoHandler,
    /// Its argument could not be built; the text says why.
    ArgsFailed(String),
    /// It raised; the text says what.
    Raised(String),
    /// It returned `None`.
    Nothing,
    /// It returned what `bind.accept()` or `bind.reject(…)` returns.
    Result(BindResult),
    /// It returned something else, with this truth value, or with none where
    /// asking for it raised.
    Other(Option<bool>),
}

impl BindReturn {
    /// Whether the handler said yes.
    pub open spec fn says_yes(self) -> bool {
        match self {
            BindReturn::Result(r) => r.accept,
            BindReturn::Other(truth) => truth == Some(true),
            _ => false,
        }
    }

    /// The status of the outcome: that of the result, `ESME_ROK` for a bare yes,
    /// and `ESME_RBINDFAIL` for anything else.
    pub open spec fn outcome_status(self) -> SmppStatus {
        match self {
            BindReturn::Result(r) => r.status,
            BindReturn::Other(truth) => if truth == Some(true) {
                SmppStatus::ESME_ROK
            } else {
                SmppStatus::ESME_RBINDFAIL
            },
            _ => SmppStatus::ESME_RBINDFAIL,
        }
    }

    /// The reason of the outcome.
    pub open spec fn outcome_reason(self) -> Seq<char> {
        match self {
            BindReturn::NoHandler => "no @smpp.on_bind handler registered"@,
            BindReturn::ArgsFailed(e) => "building bind args failed: "@ + e@,
            BindReturn::Raised(e) => "@smpp.on_bind raised: "@ + e@,
            BindReturn::Nothing => "handler returned None"@,
            BindReturn::Result(r) => r.reason@,
            BindReturn::Other(truth) => if truth == Some(true) {
                Seq::empty()
            } else {
                "handler returned a non-truthy value"@
            },
        }
    }
}

fn rejection(reason: String) -> (r: BindResult)
    ensures
        !r.accept,
        r.status == SmppStatus::ESME_RBINDFAIL,
        r.reason == reason,
{
    BindResult { accept: false, status: SmppStatus::ESME_RBINDFAIL, reason }
}

/// Outcome of an `@smpp.on_bind` dispatch. No handler, no return, or a raised
/// exception → reject (closed by default; the script is the authority on
/// credentials).
pub fn dispatch_bind(returned: BindReturn) -> (r: BindResult)
    ensures
        r.accept == returned.says_yes(),
        r.status == returned.outcome_status(),
        r.reason@ == returned.outcome_reason(),
{
    match returned {
        BindReturn::NoHandler => rejection("no @smpp.on_bind handler registered".to_owned()),
        BindReturn::ArgsFailed(e) => {
            let mut reason: String = "building bind args failed: ".to_owned();
            reason.append(e.as_str());
            rejection(reason)
        },
        BindReturn::Raised(e) => {
            let mut reason: String = "@smpp.on_bind raised: ".to_owned();
            reason.append(e.as_str());
            rejection(reason)
        },
        BindReturn::Nothing => rejection("handler returned None".to_owned()),
        BindReturn::Result(r) => r,
        BindReturn::Other(Some(true)) => BindResult {
            accept: true,
            status: SmppStatus::ESME_ROK,
            reason: String::new(),
        },
        BindReturn::Other(_) => rejection("handler returned a non-truthy value".to_owned()),
    }
}

/// How an ESME asks to be bound.
#[derive(Debug, Clone, Copy, PartialEq, Eq, Structural)]
pub enum BindKind {
    Transmitter,
    Receiver,
    Transceiver,
}

/// The answer to a bind request.
#[derive(Debug)]
pub enum BindAnswer {
    /// Accepted: the system id is echoed, with the interface version.
    Accept { system_id: String, interface_version: u8 },
    /// Rejected with a status.
    Reject(SmppStatus),
}

/// Whether a bind request of this kind is put to the handler. Only transceiver
/// binds are supported; the others are rejected unasked.
pub fn is_dispatched(kind: BindKind) -> (r: bool)
    ensures
        r == (kind == BindKind::Transceiver),
{
    match kind {
        BindKind::Transceiver => true,
        _ => false,
    }
}

/// The answer to a bind request: `ESME_RINVSYSID` to what is no transceiver,
/// else what the handler's outcome says, with the system id echoed on success.
pub fn answer_bind(kind: BindKind, outcome: &BindResult, system_id: &String) -> (r: BindAnswer)
    ensures
        r == if kind != BindKind::Transceiver {
            BindAnswer::Reject(SmppStatus::ESME_RINVSYSID)
        } else if outcome.accept {
            BindAnswer::Accept { system_id: *system_id, interface_version: 0x34 }
        } else {
            BindAnswer::Reject(outcome.status)
        },
{
    match kind {
        BindKind::Transceiver => if outcome.accept {
            BindAnswer::Accept { system_id: system_id.clone(), interface_version: 0x34 }
        } else {
            BindAnswer::Reject(outcome.status)
        },
        _ => BindAnswer::Reject(SmppStatus::ESME_RINVSYSID),
    }
}

// ── What is promised of authorisation ────────────────────────────────────

/// Binds are closed by default: without a handler, or with one that raises,
/// returns nothing or returns no truth, the outcome is a rejection with
/// `ESME_RBINDFAIL`.
pub proof fn binds_are_closed_by_default(returned: BindReturn)
    requires
        !(returned is Result),
        returned != BindReturn::Other(Some(true)),
    ensures
        !returned.says_yes(),
        returned.outcome_status() == SmppStatus::ESME_RBINDFAIL,
        returned.outcome_reason().len() > 0,
{
    reveal_strlit("no @smpp.on_bind handler registered");
    reveal_strlit("building bind args failed: ");
    reveal_strlit("@smpp.on_bind raised: ");
    reveal_strlit("handler returned None");
    reveal_strlit("handler returned a non-truthy value");
}

/// How a bind shows in a log does not depend on its password.
pub proof fn a_log_does_not_tell_the_password(a: Bind, b: Bind)
    requires
        a.system_id@ == b.system_id@,
        a.client_addr@ == b.client_addr@,
    ensures
        a.shown() == b.shown(),
{
}

/// A handler's yes is a yes: what `bind.accept()` or `bind.reject(…)` returned is
/// taken over whole, and a bare truth accepts with `ESME_ROK` and no reason.
pub proof fn what_the_handler_says_counts(r: BindResult)
    ensures
        BindReturn::Result(r).says_yes() == r.accept,
        BindReturn::Result(r).outcome_status() == r.status,
        BindReturn::Result(r).outcome_reason() == r.reason@,
        BindReturn::Other(Some(true)).says_yes(),
        BindReturn::Other(Some(true)).outcome_status() == SmppStatus::ESME_ROK,
        BindReturn::Other(Some(true)).outcome_reason().len() == 0,
{
}

/// What went wrong shows in the reason: the words of an exception stand at its
/// end.
pub proof fn a_reason_tells_what_went_wrong(e: String)
    ensures
        ({
            let a = BindReturn::ArgsFailed(e).outcome_reason();
            a.len() >= e@.len() && a.subrange(a.len() - e@.len(), a.len() as int) == e@
        }),
        ({
            let b = BindReturn::Raised(e).outcome_reason();
            b.len() >= e@.len() && b.subrange(b.len() - e@.len(), b.len() as int) == e@
        }),
        BindReturn::ArgsFailed(e).outcome_reason() != BindReturn::Raised(e).outcome_reason(),
        BindReturn::NoHandler.outcome_reason() != BindReturn::Nothing.outcome_reason(),
{
    let a = BindReturn::ArgsFailed(e).outcome_reason();
    let b = BindReturn::Raised(e).outcome_reason();
    assert(a.subrange(a.len() - e@.len(), a.len() as int) =~= e@);
    assert(b.subrange(b.len() - e@.len(), b.len() as int) =~= e@);
    reveal_strlit("no @smpp.on_bind handler registered");
    reveal_strlit("building bind args failed: ");
    reveal_strlit("@smpp.on_bind raised: ");
    reveal_strlit("handler returned None");
    assert(a[0] == 'b' && b[0] == '@');
    assert(BindReturn::NoHandler.outcome_reason()[0] == 'n');
    assert(BindReturn::Nothing.outcome_reason()[0] == 'h');
}

} // verus!
