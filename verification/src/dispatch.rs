//! From an inbound PDU to its answer: which handler gets it, and what the
//! handler's return means on the wire.
use crate::limiter::InboundAdmit;
use crate::reply::PduReply;
use crate::status::SmppStatus;
use crate::text;
use crate::tlv::Tlv;
use vstd::prelude::*;

verus! {

// ── Which handler ────────────────────────────────────────────────────────

/// Whether an option of a handler is the text `want`. An option that is not
/// there, or is no text, is not.
pub open spec fn option_is(option: Option<String>, want: Seq<char>) -> bool {
    option matches Some(s) && s@ == want
}

/// True when the handler's option equals `want`.
pub fn handler_option_eq(option: &Option<String>, want: &str) -> (r: bool)
    ensures
        r == option_is(*option, want@),
{
    match option {
        Some(s) => text::same(s.as_str(), want),
        None => false,
    }
}

/// The first registered `@smpp.on_pdu` handler for a command, given the
/// `command` option of each handler in the order of registration.
pub fn pick_pdu_handler(commands: &Vec<Option<String>>, command: &str) -> (r: Option<usize>)
    ensures
        match r {
            Some(i) => {
                &&& i < commands@.len()
                &&& option_is(commands@[i as int], command@)
                &&& forall|j: int| 0 <= j < i ==> !option_is(#[trigger] commands@[j], command@)
            },
            None => forall|j: int|
                0 <= j < commands@.len() ==> !option_is(#[trigger] commands@[j], command@),
        },
{
    let mut i: usize = 0;
    while i < commands.len()
        invariant
            i <= commands@.len(),
            forall|j: int| 0 <= j < i ==> !option_is(#[trigger] commands@[j], command@),
        decreases commands@.len() - i,
    {
        if handler_option_eq(&commands[i], command) {
            return Some(i);
        }
        i = i + 1;
    }
    None
}

/// The indices below `n` of the options that are `want`, in order.
pub open spec fn matching(options: Seq<Option<String>>, want: Seq<char>, n: int) -> Seq<usize>
    decreases n,
{
    if n <= 0 {
        Seq::empty()
    } else if option_is(options[n - 1], want) {
        matching(options, want, n - 1).push((n - 1) as usize)
    } else {
        matching(options, want, n - 1)
    }
}

/// All `@smpp.on_session` handlers for an event, in the order of registration,
/// given the `event` option of each handler.
pub fn pick_session_handlers(events: &Vec<Option<String>>, event: &str) -> (out: Vec<usize>)
    ensures
        out@ == matching(events@, event@, events@.len() as int),
{
    let mut out: Vec<usize> = Vec::new();
    let mut i: usize = 0;
    while i < events.len()
        invariant
            i <= events@.len(),
            out@ == matching(events@, event@, i as int),
        decreases events@.len() - i,
    {
        if handler_option_eq(&events[i], event) {
            out.push(i);
        }
        i = i + 1;
    }
    out
}

// ── What the handler returned ────────────────────────────────────────────

/// What came of calling a handler.
#[derive(Debug)]
pub enum HandlerReturn {
    /// It raised, or could not be called.
    Raised,
    /// It returned `None`.
    Nothing,
    /// It returned a reply.
    Reply(PduReply),
    /// It returned something else.
    Other,
}

/// What came of dispatching a PDU.
#[derive(Debug)]
pub enum Dispatched {
    /// There is no handler for its command.
    NoHandler,
    /// The handler raised.
    Raised,
    /// The handler replied, or returned something that counts as a reply.
    Replied(PduReply),
}

/// Whether `d` is what calling a handler comes to: its reply, or the default
/// reply where it returns nothing or something that is no reply.
pub open spec fn is_return_of(d: Dispatched, returned: HandlerReturn) -> bool {
    match returned {
        HandlerReturn::Raised => d is Raised,
        HandlerReturn::Reply(r) => d == Dispatched::Replied(r),
        HandlerReturn::Nothing | HandlerReturn::Other => {
            d matches Dispatched::Replied(r) && r.is_plain(SmppStatus::ESME_ROK, None)
        },
    }
}

/// What calling a handler comes to.
pub fn call_pdu_handler(returned: HandlerReturn) -> (d: Dispatched)
    ensures
        is_return_of(d, returned),
{
    match returned {
        HandlerReturn::Raised => Dispatched::Raised,
        HandlerReturn::Nothing => Dispatched::Replied(PduReply::default_ok()),
        HandlerReturn::Reply(r) => Dispatched::Replied(r),
        HandlerReturn::Other => Dispatched::Replied(PduReply::default_ok()),
    }
}

/// What dispatching comes to where the wire acknowledgement fires in any case
/// (`submit_sm`, `deliver_sm`): no handler counts as one that returns nothing.
pub fn dispatch_pdu(d: Dispatched) -> (r: Dispatched)
    ensures
        match d {
            Dispatched::NoHandler => r matches Dispatched::Replied(reply) && reply.is_plain(
                SmppStatus::ESME_ROK,
                None,
            ),
            _ => r == d,
        },
{
    match d {
        Dispatched::NoHandler => Dispatched::Replied(PduReply::default_ok()),
        d => d,
    }
}

/// What to do next with an inbound message.
#[derive(Debug, Clone, Copy, PartialEq, Eq, Structural)]
pub enum InboundStep {
    /// Hand it to the script.
    Dispatch,
    /// Answer it with a status, without asking the script.
    Answer(SmppStatus),
    /// Wait for so many nanoseconds and ask for admission again.
    Wait(u64),
}

/// What to do next with an inbound message: a throttled one is answered with
/// `ESME_RTHROTTLED` and never reaches the script.
pub fn after_admission(admission: InboundAdmit) -> (r: InboundStep)
    ensures
        r == match admission {
            InboundAdmit::Proceed => InboundStep::Dispatch,
            InboundAdmit::Throttled => InboundStep::Answer(SmppStatus::ESME_RTHROTTLED),
            InboundAdmit::Wait(n) => InboundStep::Wait(n),
        },
{
    match admission {
        InboundAdmit::Proceed => InboundStep::Dispatch,
        InboundAdmit::Throttled => InboundStep::Answer(SmppStatus::ESME_RTHROTTLED),
        InboundAdmit::Wait(n) => InboundStep::Wait(n),
    }
}

// ── Answers ──────────────────────────────────────────────────────────────

/// The operations that a peer asks for.
#[derive(Debug, Clone, Copy, PartialEq, Eq, Structural)]
pub enum Operation {
    SubmitSm,
    SubmitSmMulti,
    /// From an ESME.
    DataSm,
    /// From an SMSC that we are bound to.
    DataSmFromSmsc,
    CancelSm,
    QuerySm,
    ReplaceSm,
    DeliverSm,
}

/// Whether an operation counts against the rate of its session and is admitted
/// before it is dispatched: a submission from an ESME does. Managing messages is
/// free, and so is whatever comes from an SMSC.
pub fn is_gated(op: Operation) -> (r: bool)
    ensures
        r == (op is SubmitSm || op is SubmitSmMulti || op is DataSm),
{
    match op {
        Operation::SubmitSm | Operation::SubmitSmMulti | Operation::DataSm => true,
        _ => false,
    }
}

/// The status with which an operation is answered where no handler is
/// registered for it.
pub open spec fn default_status(op: Operation) -> SmppStatus {
    match op {
        Operation::SubmitSm | Operation::DeliverSm => SmppStatus::ESME_ROK,
        Operation::SubmitSmMulti | Operation::DataSm | Operation::DataSmFromSmsc => {
            SmppStatus::ESME_RSYSERR
        },
        Operation::CancelSm => SmppStatus::ESME_RCANCELFAIL,
        Operation::QuerySm => SmppStatus::ESME_RQUERYFAIL,
        Operation::ReplaceSm => SmppStatus::ESME_RREPLACEFAIL,
    }
}

/// The status with which an operation is answered where its handler raised.
pub open spec fn raised_status(op: Operation) -> SmppStatus {
    match op {
        Operation::SubmitSm | Operation::DeliverSm => SmppStatus::ESME_RSYSERR,
        _ => default_status(op),
    }
}

/// The status with which an operation is answered. A reply answers with its own.
pub open spec fn wire_status(op: Operation, d: Dispatched) -> SmppStatus {
    match d {
        Dispatched::NoHandler => default_status(op),
        Dispatched::Raised => raised_status(op),
        Dispatched::Replied(reply) => reply.command_status,
    }
}

/// The answer to a PDU whose acceptance carries a message id.
#[derive(Debug)]
pub enum IdAnswer {
    Accept(String),
    Reject(SmppStatus),
}

/// The answer to a PDU whose acceptance carries nothing.
#[derive(Debug, Clone, Copy, PartialEq, Eq, Structural)]
pub enum BareAnswer {
    Accept,
    Reject(SmppStatus),
}

/// The answer to a `data_sm`, with the optional parameters of the response.
#[derive(Debug)]
pub struct DataAnswer {
    pub answer: IdAnswer,
    pub tlvs: Vec<Tlv>,
}

/// The answer to a `query_sm`.
#[derive(Debug)]
pub enum QueryReply {
    Accept { message_id: String, final_date: String, message_state: u8, error_code: u8 },
    Reject(SmppStatus),
}

impl IdAnswer {
    /// The status that goes onto the wire.
    pub open spec fn wire(self) -> SmppStatus {
        match self {
            IdAnswer::Accept(_) => SmppStatus::ESME_ROK,
            IdAnswer::Reject(status) => status,
        }
    }

    /// The status that goes onto the wire.
    pub fn status(&self) -> (r: SmppStatus)
        ensures
            r == self.wire(),
    {
        match self {
            IdAnswer::Accept(_) => SmppStatus::ESME_ROK,
            IdAnswer::Reject(status) => *status,
        }
    }
}

impl BareAnswer {
    /// The status that goes onto the wire.
    pub open spec fn wire(self) -> SmppStatus {
        match self {
            BareAnswer::Accept => SmppStatus::ESME_ROK,
            BareAnswer::Reject(status) => status,
        }
    }

    /// The status that goes onto the wire.
    pub fn status(&self) -> (r: SmppStatus)
        ensures
            r == self.wire(),
    {
        match self {
            BareAnswer::Accept => SmppStatus::ESME_ROK,
            BareAnswer::Reject(status) => *status,
        }
    }
}

impl QueryReply {
    /// The status that goes onto the wire.
    pub open spec fn wire(self) -> SmppStatus {
        match self {
            QueryReply::Accept { .. } => SmppStatus::ESME_ROK,
            QueryReply::Reject(status) => status,
        }
    }

    /// The status that goes onto the wire.
    pub fn status(&self) -> (r: SmppStatus)
        ensures
            r == self.wire(),
    {
        match self {
            QueryReply::Accept { .. } => SmppStatus::ESME_ROK,
            QueryReply::Reject(status) => *status,
        }
    }
}

/// The message id of a reply, empty where it has none.
pub open spec fn id_or_empty(id: Option<String>) -> Seq<char> {
    match id {
        Some(s) => s@,
        None => Seq::empty(),
    }
}

fn unwrap_id(id: Option<String>) -> (r: String)
    ensures
        r@ == id_or_empty(id),
        id matches Some(s) ==> r == s,
{
    match id {
        Some(s) => s,
        None => String::new(),
    }
}

/// The answer to a `submit_sm`: a reply whose status is not `ESME_ROK` rejects
/// with it, whether or not it has an id. One that is `ESME_ROK` accepts with its
/// id; without an id its bare status goes onto the wire, so the default reply is
/// a plain `ESME_ROK` acknowledgement. A handler that raised is `ESME_RSYSERR`.
pub fn on_submit_sm(d: Dispatched) -> (r: IdAnswer)
    ensures
        r.wire() == wire_status(Operation::SubmitSm, d),
        match d {
            Dispatched::NoHandler => r == IdAnswer::Reject(SmppStatus::ESME_ROK),
            Dispatched::Raised => r == IdAnswer::Reject(SmppStatus::ESME_RSYSERR),
            Dispatched::Replied(reply) => if reply.command_status == SmppStatus::ESME_ROK {
                r == match reply.message_id {
                    Some(id) => IdAnswer::Accept(id),
                    None => IdAnswer::Reject(SmppStatus::ESME_ROK),
                }
            } else {
                r == IdAnswer::Reject(reply.command_status)
            },
        },
{
    match dispatch_pdu(d) {
        Dispatched::Replied(reply) => if reply.command_status.is_ok() {
            match reply.message_id {
                Some(id) => IdAnswer::Accept(id),
                None => IdAnswer::Reject(SmppStatus::ESME_ROK),
            }
        } else {
            IdAnswer::Reject(reply.command_status)
        },
        _ => IdAnswer::Reject(SmppStatus::ESME_RSYSERR),
    }
}

/// Whether `r` answers a `data_sm`: a reply that is `ESME_ROK` accepts with its
/// id, an empty one where it has none; another rejects with its status. No
/// handler, or one that raised, is `ESME_RSYSERR`. The optional parameters of the
/// reply ride on the response.
pub open spec fn is_data_answer(r: DataAnswer, d: Dispatched) -> bool {
    match d {
        Dispatched::NoHandler | Dispatched::Raised => r.answer == IdAnswer::Reject(
            SmppStatus::ESME_RSYSERR,
        ) && r.tlvs@.len() == 0,
        Dispatched::Replied(reply) => {
            &&& r.tlvs == reply.tlvs
            &&& if reply.command_status == SmppStatus::ESME_ROK {
                r.answer matches IdAnswer::Accept(id) && id@ == id_or_empty(reply.message_id)
            } else {
                r.answer == IdAnswer::Reject(reply.command_status)
            }
        },
    }
}

fn data_answer(d: Dispatched) -> (r: DataAnswer)
    ensures
        is_data_answer(r, d),
{
    match d {
        Dispatched::Replied(reply) => {
            let answer: IdAnswer = if reply.command_status.is_ok() {
                IdAnswer::Accept(unwrap_id(reply.message_id))
            } else {
                IdAnswer::Reject(reply.command_status)
            };
            DataAnswer { answer, tlvs: reply.tlvs }
        },
        _ => DataAnswer {
            answer: IdAnswer::Reject(SmppStatus::ESME_RSYSERR),
            tlvs: Vec::new(),
        },
    }
}

/// The answer to a `data_sm` from an ESME.
pub fn on_data_sm(d: Dispatched) -> (r: DataAnswer)
    ensures
        r.answer.wire() == wire_status(Operation::DataSm, d),
        is_data_answer(r, d),
{
    data_answer(d)
}

/// The answer to a `data_sm` from an SMSC that we are bound to.
pub fn on_data_sm_from_smsc(d: Dispatched) -> (r: DataAnswer)
    ensures
        r.answer.wire() == wire_status(Operation::DataSmFromSmsc, d),
        is_data_answer(r, d),
{
    data_answer(d)
}

/// The status with which a reply answers, or `fallback` where there is none.
pub open spec fn answer_status(d: Dispatched, fallback: SmppStatus) -> SmppStatus {
    match d {
        Dispatched::Replied(reply) => reply.command_status,
        _ => fallback,
    }
}

fn bare_answer(d: Dispatched, fallback: SmppStatus) -> (r: BareAnswer)
    requires
        fallback != SmppStatus::ESME_ROK,
    ensures
        r == if answer_status(d, fallback) == SmppStatus::ESME_ROK {
            BareAnswer::Accept
        } else {
            BareAnswer::Reject(answer_status(d, fallback))
        },
{
    match d {
        Dispatched::Replied(reply) => if reply.command_status.is_ok() {
            BareAnswer::Accept
        } else {
            BareAnswer::Reject(reply.command_status)
        },
        _ => BareAnswer::Reject(fallback),
    }
}

/// The answer to a `cancel_sm`. Opt-in: `ESME_RCANCELFAIL` unless a handler
/// accepts or rejects.
pub fn on_cancel_sm(d: Dispatched) -> (r: BareAnswer)
    ensures
        r.wire() == wire_status(Operation::CancelSm, d),
        r == if answer_status(d, SmppStatus::ESME_RCANCELFAIL) == SmppStatus::ESME_ROK {
            BareAnswer::Accept
        } else {
            BareAnswer::Reject(answer_status(d, SmppStatus::ESME_RCANCELFAIL))
        },
{
    bare_answer(d, SmppStatus::ESME_RCANCELFAIL)
}

/// The answer to a `replace_sm`. Opt-in: `ESME_RREPLACEFAIL` unless a handler
/// accepts or rejects.
pub fn on_replace_sm(d: Dispatched) -> (r: BareAnswer)
    ensures
        r.wire() == wire_status(Operation::ReplaceSm, d),
        r == if answer_status(d, SmppStatus::ESME_RREPLACEFAIL) == SmppStatus::ESME_ROK {
            BareAnswer::Accept
        } else {
            BareAnswer::Reject(answer_status(d, SmppStatus::ESME_RREPLACEFAIL))
        },
{
    bare_answer(d, SmppStatus::ESME_RREPLACEFAIL)
}

/// The answer to a `deliver_sm`: no handler accepts, one that raised is
/// `ESME_RSYSERR`.
pub fn on_deliver_sm(d: Dispatched) -> (r: BareAnswer)
    ensures
        r.wire() == wire_status(Operation::DeliverSm, d),
        r == match d {
            Dispatched::NoHandler => BareAnswer::Accept,
            Dispatched::Raised => BareAnswer::Reject(SmppStatus::ESME_RSYSERR),
            Dispatched::Replied(reply) => if reply.command_status == SmppStatus::ESME_ROK {
                BareAnswer::Accept
            } else {
                BareAnswer::Reject(reply.command_status)
            },
        },
{
    bare_answer(dispatch_pdu(d), SmppStatus::ESME_RSYSERR)
}

/// The answer to a `query_sm`. Opt-in: `ESME_RQUERYFAIL` unless a handler
/// accepts or rejects. What an accepting reply leaves open is empty or 0.
pub fn on_query_sm(d: Dispatched) -> (r: QueryReply)
    ensures
        r.wire() == wire_status(Operation::QuerySm, d),
        match r {
            QueryReply::Accept { message_id, final_date, message_state, error_code } => {
                &&& d matches Dispatched::Replied(reply)
                &&& reply.command_status == SmppStatus::ESME_ROK
                &&& message_id@ == id_or_empty(reply.message_id)
                &&& final_date == reply.final_date
                &&& message_state == (match reply.message_state {
                    Some(n) => n,
                    None => 0,
                })
                &&& error_code == reply.error_code
            },
            QueryReply::Reject(status) => {
                &&& status == answer_status(d, SmppStatus::ESME_RQUERYFAIL)
                &&& status != SmppStatus::ESME_ROK
            },
        },
{
    match d {
        Dispatched::Replied(reply) => if reply.command_status.is_ok() {
            QueryReply::Accept {
                message_id: unwrap_id(reply.message_id),
                final_date: reply.final_date,
                message_state: match reply.message_state {
                    Some(n) => n,
                    None => 0,
                },
                error_code: reply.error_code,
            }
        } else {
            QueryReply::Reject(reply.command_status)
        },
        _ => QueryReply::Reject(SmppStatus::ESME_RQUERYFAIL),
    }
}

/// The answer to a `submit_sm_multi`. Opt-in: `ESME_RSYSERR` unless a handler
/// accepts or rejects; accepted for every destination or for none.
pub fn on_submit_sm_multi(d: Dispatched) -> (r: IdAnswer)
    ensures
        r.wire() == wire_status(Operation::SubmitSmMulti, d),
        match r {
            IdAnswer::Accept(id) => {
                &&& d matches Dispatched::Replied(reply)
                &&& reply.command_status == SmppStatus::ESME_ROK
                &&& id@ == id_or_empty(reply.message_id)
            },
            IdAnswer::Reject(status) => {
                &&& status == answer_status(d, SmppStatus::ESME_RSYSERR)
                &&& status != SmppStatus::ESME_ROK
            },
        },
{
    match d {
        Dispatched::Replied(reply) => if reply.command_status.is_ok() {
            IdAnswer::Accept(unwrap_id(reply.message_id))
        } else {
            IdAnswer::Reject(reply.command_status)
        },
        _ => IdAnswer::Reject(SmppStatus::ESME_RSYSERR),
    }
}

// ── What is promised of the answers ──────────────────────────────────────

/// A handler that raised never makes a success of an operation.
pub proof fn a_raise_is_never_a_success(op: Operation)
    ensures
        wire_status(op, Dispatched::Raised) != SmppStatus::ESME_ROK,
{
}

/// Without a handler only a submission and a delivery are acknowledged. Whatever
/// manages messages is refused, because a silent success would be a lie.
pub proof fn only_messages_are_acknowledged_unhandled(op: Operation)
    ensures
        wire_status(op, Dispatched::NoHandler) == SmppStatus::ESME_ROK <==> (op is SubmitSm
            || op is DeliverSm),
{
}

/// A handler that returns nothing, or something that is no reply, acknowledges
/// the operation.
pub proof fn returning_nothing_acknowledges(op: Operation, d: Dispatched, returned: HandlerReturn)
    requires
        returned is Nothing || returned is Other,
        is_return_of(d, returned),
    ensures
        wire_status(op, d) == SmppStatus::ESME_ROK,
{
}

/// The status of a handler's reply is the status on the wire, whether or not the
/// reply has an id: a status that rejects is never hidden.
pub proof fn a_rejection_reaches_the_wire(op: Operation, reply: PduReply)
    ensures
        wire_status(op, Dispatched::Replied(reply)) == reply.command_status,
{
}

/// The handlers of an event are those whose option names it, each once, in the
/// order in which they were registered.
pub proof fn session_handlers_are_those_that_match(
    events: Seq<Option<String>>,
    event: Seq<char>,
    n: int,
)
    requires
        0 <= n <= events.len(),
        events.len() <= usize::MAX,
    ensures
        ({
            let picked = matching(events, event, n);
            &&& forall|k: int|
                0 <= k < picked.len() ==> (#[trigger] picked[k]) < n && option_is(
                    events[picked[k] as int],
                    event,
                )
            &&& forall|j: int, k: int|
                0 <= j < k < picked.len() ==> #[trigger] picked[j] < #[trigger] picked[k]
            &&& forall|i: int|
                0 <= i < n && option_is(#[trigger] events[i], event) ==> picked.contains(i as usize)
        }),
    decreases n,
{
    if n > 0 {
        session_handlers_are_those_that_match(events, event, n - 1);
        let fewer = matching(events, event, n - 1);
        let picked = matching(events, event, n);
        assert forall|i: int| 0 <= i < n && option_is(#[trigger] events[i], event) implies picked.contains(
            i as usize,
        ) by {
            if i == n - 1 {
                assert(picked[picked.len() - 1] == i as usize);
            } else {
                let k = choose|k: int| 0 <= k < fewer.len() && fewer[k] == i as usize;
                assert(picked[k] == i as usize);
            }
        }
    }
}

/// Without a handler each operation has its own answer: a submission and a
/// delivery are acknowledged, and the others are refused with the status that
/// says what failed.
pub proof fn unhandled_operations_have_their_answers()
    ensures
        wire_status(Operation::SubmitSm, Dispatched::NoHandler) == SmppStatus::ESME_ROK,
        wire_status(Operation::DeliverSm, Dispatched::NoHandler) == SmppStatus::ESME_ROK,
        wire_status(Operation::SubmitSmMulti, Dispatched::NoHandler) == SmppStatus::ESME_RSYSERR,
        wire_status(Operation::DataSm, Dispatched::NoHandler) == SmppStatus::ESME_RSYSERR,
        wire_status(Operation::DataSmFromSmsc, Dispatched::NoHandler) == SmppStatus::ESME_RSYSERR,
        wire_status(Operation::CancelSm, Dispatched::NoHandler) == SmppStatus::ESME_RCANCELFAIL,
        wire_status(Operation::QuerySm, Dispatched::NoHandler) == SmppStatus::ESME_RQUERYFAIL,
        wire_status(Operation::ReplaceSm, Dispatched::NoHandler) == SmppStatus::ESME_RREPLACEFAIL,
{
}

/// A handler that raised is answered as one that is missing, but that a
/// submission and a delivery are then refused with a system error.
pub proof fn a_raise_is_answered_as_a_missing_handler(op: Operation)
    ensures
        op is SubmitSm || op is DeliverSm ==> wire_status(op, Dispatched::Raised)
            == SmppStatus::ESME_RSYSERR,
        !(op is SubmitSm || op is DeliverSm) ==> wire_status(op, Dispatched::Raised) == wire_status(
            op,
            Dispatched::NoHandler,
        ),
{
}

/// A reply reaches the answer as the handler made it.
pub proof fn a_reply_reaches_the_answer(d: Dispatched, reply: PduReply)
    requires
        is_return_of(d, HandlerReturn::Reply(reply)),
    ensures
        d == Dispatched::Replied(reply),
        answer_status(d, SmppStatus::ESME_RSYSERR) == reply.command_status,
{
}

/// A raise is passed on as a raise.
pub proof fn a_raise_stays_a_raise(d: Dispatched)
    requires
        is_return_of(d, HandlerReturn::Raised),
    ensures
        d is Raised,
        forall|fallback: SmppStatus| #[trigger] answer_status(d, fallback) == fallback,
{
}

/// A `data_sm` is accepted with the id of the reply, or refused with its status,
/// and the parameters of the reply ride along either way. Without a reply it is
/// refused with a system error, and carries none.
pub proof fn a_data_answer_carries_the_reply(r: DataAnswer, d: Dispatched)
    requires
        is_data_answer(r, d),
    ensures
        match d {
            Dispatched::Replied(reply) => {
                &&& r.tlvs == reply.tlvs
                &&& reply.command_status == SmppStatus::ESME_ROK <==> r.answer is Accept
                &&& r.answer matches IdAnswer::Accept(id) ==> (match reply.message_id {
                    Some(given) => id@ == given@,
                    None => id@.len() == 0,
                })
                &&& r.answer matches IdAnswer::Reject(status) ==> status == reply.command_status
            },
            _ => r.answer == IdAnswer::Reject(SmppStatus::ESME_RSYSERR) && r.tlvs@.len() == 0,
        },
{
}

/// Accepting is success on the wire, and rejecting is the status of the
/// rejection.
pub proof fn answers_have_their_status(id: IdAnswer, bare: BareAnswer, query: QueryReply)
    ensures
        id is Accept ==> id.wire() == SmppStatus::ESME_ROK,
        id matches IdAnswer::Reject(s) ==> id.wire() == s,
        bare is Accept ==> bare.wire() == SmppStatus::ESME_ROK,
        bare matches BareAnswer::Reject(s) ==> bare.wire() == s,
        query is Accept ==> query.wire() == SmppStatus::ESME_ROK,
        query matches QueryReply::Reject(s) ==> query.wire() == s,
{
}

/// A handler is picked by the whole of its option; one without an option is never
/// picked. An id that is missing is empty.
pub proof fn a_handler_is_picked_by_its_option(option: String, want: Seq<char>)
    ensures
        option_is(Some(option), want) <==> option@ == want,
        !option_is(None, want),
        id_or_empty(Some(option)) == option@,
        id_or_empty(None).len() == 0,
{
}

} // verus!
