//! Who is bound: the outbound binds and the inbound ESME sessions, and the
//! [`Session`] that a handler sees.
//!
//! A session carries a handle, by which the caller sends on it, and a throttle;
//! neither is looked at here.
use crate::script::{Fault, ScriptError};
use crate::text;
use vstd::prelude::*;

verus! {

/// Which side delivered a PDU.
#[derive(Debug, Clone, Copy, PartialEq, Eq, Structural)]
pub enum SourceKind {
    /// An outbound bind (we bound to an aggregator).
    Bind,
    /// An external client bound to our listener.
    EsmeServer,
}

/// Per-PDU context — which side delivered this PDU and which session.
#[derive(Debug, Clone)]
pub struct Session {
    pub kind: SourceKind,
    pub session_id: String,
    pub system_id: String,
    pub client_addr: String,
}

impl Session {
    /// The kind in a word.
    pub open spec fn kind_word(self) -> Seq<char> {
        match self.kind {
            SourceKind::Bind => "bind"@,
            SourceKind::EsmeServer => "esme"@,
        }
    }

    /// "bind" when the PDU arrived via an outbound bind (we bound to an
    /// aggregator), "esme" when an external client bound to our listener.
    pub fn kind(&self) -> (r: &'static str)
        ensures
            r@ == self.kind_word(),
    {
        match self.kind {
            SourceKind::Bind => "bind",
            SourceKind::EsmeServer => "esme",
        }
    }

    /// How the session shows in a log.
    pub fn repr(&self) -> (out: String)
        ensures
            out@ == "Session(kind="@ + self.kind_word() + ", system_id="@ + text::quoted(
                self.system_id@,
            ) + ", session_id="@ + text::quoted(self.session_id@) + ", client_addr="@
                + text::quoted(self.client_addr@) + ")"@,
    {
        let mut out: String = String::new();
        out.append("Session(kind=");
        out.append(self.kind());
        out.append(", system_id=");
        out.append(text::to_quoted(self.system_id.as_str()).as_str());
        out.append(", session_id=");
        out.append(text::to_quoted(self.session_id.as_str()).as_str());
        out.append(", client_addr=");
        out.append(text::to_quoted(self.client_addr.as_str()).as_str());
        out.append(")");
        assert(out@ =~= "Session(kind="@ + self.kind_word() + ", system_id="@ + text::quoted(
            self.system_id@,
        ) + ", session_id="@ + text::quoted(self.session_id@) + ", client_addr="@ + text::quoted(
            self.client_addr@,
        ) + ")"@);
        out
    }
}

// ── Outbound binds ───────────────────────────────────────────────────────

/// An outbound bind that is up.
#[derive(Debug)]
pub struct BindSession<H, T> {
    pub name: String,
    pub session_id: String,
    pub handle: H,
    /// The outbound rate limiter (`max_msg_per_sec`).
    pub throttle: T,
}

/// The index of the first bind called `name`.
pub open spec fn bind_named<H, T>(binds: Seq<BindSession<H, T>>, name: Seq<char>) -> Option<int>
    decreases binds.len(),
{
    if binds.len() == 0 {
        None
    } else {
        match bind_named(binds.drop_last(), name) {
            Some(i) => Some(i),
            None => if binds.last().name@ == name {
                Some(binds.len() - 1)
            } else {
                None
            },
        }
    }
}

proof fn bind_named_is_first<H, T>(binds: Seq<BindSession<H, T>>, name: Seq<char>, n: int)
    requires
        0 <= n <= binds.len(),
    ensures
        bind_named(binds.take(n), name) is Some ==> bind_named(binds, name) == bind_named(
            binds.take(n),
            name,
        ),
    decreases binds.len() - n,
{
    if n < binds.len() {
        assert(binds.take(n + 1).drop_last() =~= binds.take(n));
        bind_named_is_first(binds, name, n + 1);
    } else {
        assert(binds.take(n) =~= binds);
    }
}

/// Resolve an outbound bind by name. A key error if the bind isn't currently
/// bound (it may be mid-reconnect).
pub fn bind_handle<'a, H, T>(binds: &'a Vec<BindSession<H, T>>, bind: &str) -> (r: Result<
    &'a BindSession<H, T>,
    ScriptError,
>)
    ensures
        match r {
            Ok(b) => bind_named(binds@, bind@) matches Some(i) && 0 <= i < binds@.len() && *b
                == binds@[i],
            Err(e) => bind_named(binds@, bind@) is None && e@ == Fault::Key(
                "bind "@ + text::quoted(bind@) + " not bound"@,
            ),
        },
{
    let mut i: usize = 0;
    assert(bind_named(binds@.take(0), bind@) is None);
    while i < binds.len()
        invariant
            i <= binds@.len(),
            bind_named(binds@.take(i as int), bind@) is None,
        decreases binds@.len() - i,
    {
        assert(binds@.take(i + 1).drop_last() =~= binds@.take(i as int));
        assert(binds@.take(i + 1).last() == binds@[i as int]);
        if text::same(binds[i].name.as_str(), bind) {
            proof {
                bind_named_is_first(binds@, bind@, i + 1);
            }
            return Ok(&binds[i]);
        }
        i = i + 1;
    }
    assert(binds@.take(i as int) =~= binds@);
    let mut m: String = String::new();
    m.append("bind ");
    m.append(text::to_quoted(bind).as_str());
    m.append(" not bound");
    assert(m@ =~= "bind "@ + text::quoted(bind@) + " not bound"@);
    Err(ScriptError::Key(m))
}

/// Whether `b` is the first bind whose session is `session_id`, or nothing where
/// none is.
pub open spec fn is_first_with_session<H, T>(
    b: Option<&BindSession<H, T>>,
    binds: Seq<BindSession<H, T>>,
    session_id: Seq<char>,
) -> bool {
    match b {
        Some(b) => exists|i: int|
            0 <= i < binds.len() && *b == #[trigger] binds[i] && b.session_id@ == session_id
                && forall|j: int|
                0 <= j < i ==> (#[trigger] binds[j]).session_id@ != session_id,
        None => forall|j: int|
            0 <= j < binds.len() ==> (#[trigger] binds[j]).session_id@ != session_id,
    }
}

/// The first bind whose session is `session_id`: the one to unbind where a
/// response timed out.
pub fn find_bind<'a, H, T>(binds: &'a Vec<BindSession<H, T>>, session_id: &str) -> (r: Option<
    &'a BindSession<H, T>,
>)
    ensures
        is_first_with_session(r, binds@, session_id@),
{
    let mut i: usize = 0;
    while i < binds.len()
        invariant
            i <= binds@.len(),
            forall|j: int| 0 <= j < i ==> (#[trigger] binds@[j]).session_id@ != session_id@,
        decreases binds@.len() - i,
    {
        if text::same(binds[i].session_id.as_str(), session_id) {
            return Some(&binds[i]);
        }
        i = i + 1;
    }
    None
}

/// The binds whose session is not `session_id`.
pub open spec fn without_bind<H, T>(
    binds: Seq<BindSession<H, T>>,
    session_id: Seq<char>,
) -> Seq<BindSession<H, T>> {
    binds.filter(|b: BindSession<H, T>| b.session_id@ != session_id)
}

/// A bind came up: it is added behind the others, and the handlers hear of it.
/// The system id that they see is the name of the bind.
pub fn on_smsc_bound<H, T>(
    binds: &mut Vec<BindSession<H, T>>,
    name: String,
    session_id: String,
    server_address: String,
    handle: H,
    throttle: T,
) -> (r: Session)
    ensures
        final(binds)@ == old(binds)@.push(BindSession { name, session_id, handle, throttle }),
        r == (Session {
            kind: SourceKind::Bind,
            session_id,
            system_id: name,
            client_addr: server_address,
        }),
{
    let session: Session = Session {
        kind: SourceKind::Bind,
        session_id: session_id.clone(),
        system_id: name.clone(),
        client_addr: server_address,
    };
    binds.push(BindSession { name, session_id, handle, throttle });
    session
}

/// A bind went down: its session is removed, and the handlers hear of it, unless
/// it was not there.
pub fn on_smsc_unbound<H, T>(
    binds: &mut Vec<BindSession<H, T>>,
    name: &String,
    session_id: &String,
) -> (r: Option<Session>)
    ensures
        final(binds)@ == without_bind(old(binds)@, session_id@),
        match r {
            Some(s) => {
                &&& exists|i: int|
                    0 <= i < old(binds)@.len() && (#[trigger] old(binds)@[i]).session_id@
                        == session_id@
                &&& s.kind == SourceKind::Bind
                &&& s.session_id == *session_id
                &&& s.system_id == *name
                &&& s.client_addr@.len() == 0
            },
            None => forall|i: int|
                0 <= i < old(binds)@.len() ==> (#[trigger] old(binds)@[i]).session_id@
                    != session_id@,
        },
{
    let ghost was = binds@;
    let ghost stays = |b: BindSession<H, T>| b.session_id@ != session_id@;
    let mut removed: bool = false;
    let mut i: usize = 0;
    proof {
        reveal(Seq::filter);
        assert(was.skip(0) =~= was);
    }
    assert(binds@ =~= was.take(0).filter(stays) + was.skip(0));
    let ghost mut done: int = 0;
    while i < binds.len()
        invariant
            0 <= done <= was.len(),
            stays == (|b: BindSession<H, T>| b.session_id@ != session_id@),
            i == was.take(done).filter(stays).len(),
            binds@ == was.take(done).filter(stays) + was.skip(done),
            removed ==> exists|j: int|
                0 <= j < was.len() && (#[trigger] was[j]).session_id@ == session_id@,
            !removed ==> forall|j: int|
                0 <= j < done ==> (#[trigger] was[j]).session_id@ != session_id@,
        decreases was.len() - done,
    {
        proof {
            assert(done < was.len());
            assert(binds@[i as int] == was[done]);
            assert(was.take(done + 1).drop_last() =~= was.take(done));
            assert(was.take(done + 1).last() == was[done]);
            reveal(Seq::filter);
        }
        if text::same(binds[i].session_id.as_str(), session_id.as_str()) {
            let gone: BindSession<H, T> = binds.remove(i);
            removed = true;
            assert(was[done].session_id@ == session_id@);
            assert(binds@ =~= was.take(done + 1).filter(stays) + was.skip(done + 1));
        } else {
            i = i + 1;
            assert(binds@ =~= was.take(done + 1).filter(stays) + was.skip(done + 1));
        }
        proof {
            done = done + 1;
        }
    }
    proof {
        assert(was.skip(done).len() == 0);
        assert(was.take(done) =~= was);
        assert(binds@ =~= was.filter(stays));
    }
    if removed {
        Some(
            Session {
                kind: SourceKind::Bind,
                session_id: session_id.clone(),
                system_id: name.clone(),
                client_addr: String::new(),
            },
        )
    } else {
        None
    }
}

/// The session that a PDU on an outbound bind comes with.
pub fn bind_session(name: &String, session_id: &String, server_address: String) -> (r: Session)
    ensures
        r.kind == SourceKind::Bind,
        r.session_id == *session_id,
        r.system_id == *name,
        r.client_addr == server_address,
{
    Session {
        kind: SourceKind::Bind,
        session_id: session_id.clone(),
        system_id: name.clone(),
        client_addr: server_address,
    }
}

// ── Inbound sessions ─────────────────────────────────────────────────────

/// A bound inbound ESME session (an ESME that connected to *us*).
#[derive(Debug)]
pub struct EsmeSession<H, T> {
    pub session_id: String,
    pub system_id: String,
    pub client_addr: String,
    /// Whether it bound as a receiver or a transceiver.
    pub can_receive: bool,
    pub handle: H,
    /// The inbound rate limiter (`server.max_msg_per_sec`).
    pub throttle: T,
}

/// The index of the first session with the id `session_id`.
pub open spec fn esme_with_id<H, T>(
    esmes: Seq<EsmeSession<H, T>>,
    session_id: Seq<char>,
) -> Option<int>
    decreases esmes.len(),
{
    if esmes.len() == 0 {
        None
    } else {
        match esme_with_id(esmes.drop_last(), session_id) {
            Some(i) => Some(i),
            None => if esmes.last().session_id@ == session_id {
                Some(esmes.len() - 1)
            } else {
                None
            },
        }
    }
}

proof fn esme_with_id_is_first<H, T>(
    esmes: Seq<EsmeSession<H, T>>,
    session_id: Seq<char>,
    n: int,
)
    requires
        0 <= n <= esmes.len(),
    ensures
        esme_with_id(esmes.take(n), session_id) is Some ==> esme_with_id(esmes, session_id)
            == esme_with_id(esmes.take(n), session_id),
    decreases esmes.len() - n,
{
    if n < esmes.len() {
        assert(esmes.take(n + 1).drop_last() =~= esmes.take(n));
        esme_with_id_is_first(esmes, session_id, n + 1);
    } else {
        assert(esmes.take(n) =~= esmes);
    }
}

/// The first session with the id `session_id`.
pub fn find_esme<'a, H, T>(esmes: &'a Vec<EsmeSession<H, T>>, session_id: &str) -> (r: Option<
    &'a EsmeSession<H, T>,
>)
    ensures
        match r {
            Some(e) => esme_with_id(esmes@, session_id@) matches Some(i) && 0 <= i < esmes@.len()
                && *e == esmes@[i],
            None => esme_with_id(esmes@, session_id@) is None,
        },
{
    let mut i: usize = 0;
    assert(esme_with_id(esmes@.take(0), session_id@) is None);
    while i < esmes.len()
        invariant
            i <= esmes@.len(),
            esme_with_id(esmes@.take(i as int), session_id@) is None,
        decreases esmes@.len() - i,
    {
        assert(esmes@.take(i + 1).drop_last() =~= esmes@.take(i as int));
        assert(esmes@.take(i + 1).last() == esmes@[i as int]);
        if text::same(esmes[i].session_id.as_str(), session_id) {
            proof {
                esme_with_id_is_first(esmes@, session_id@, i + 1);
            }
            return Some(&esmes[i]);
        }
        i = i + 1;
    }
    assert(esmes@.take(i as int) =~= esmes@);
    None
}

/// Resolve an inbound ESME session by `session_id`. A key error if no such
/// session is currently bound.
pub fn esme_handle<'a, H, T>(esmes: &'a Vec<EsmeSession<H, T>>, session_id: &str) -> (r: Result<
    &'a EsmeSession<H, T>,
    ScriptError,
>)
    ensures
        match r {
            Ok(s) => esme_with_id(esmes@, session_id@) matches Some(i) && 0 <= i < esmes@.len()
                && *s == esmes@[i],
            Err(e) => esme_with_id(esmes@, session_id@) is None && e@ == Fault::Key(
                "esme session "@ + text::quoted(session_id@) + " not bound"@,
            ),
        },
{
    match find_esme(esmes, session_id) {
        Some(s) => Ok(s),
        None => {
            let mut m: String = String::new();
            m.append("esme session ");
            m.append(text::to_quoted(session_id).as_str());
            m.append(" not bound");
            assert(m@ =~= "esme session "@ + text::quoted(session_id@) + " not bound"@);
            Err(ScriptError::Key(m))
        },
    }
}

/// The system id of the session `session_id`, empty where there is none.
pub open spec fn system_id_of<H, T>(
    esmes: Seq<EsmeSession<H, T>>,
    session_id: Seq<char>,
) -> Seq<char> {
    match esme_with_id(esmes, session_id) {
        Some(i) => esmes[i].system_id@,
        None => Seq::empty(),
    }
}

/// The session that an inbound PDU comes with: its system id is resolved from the
/// bound sessions, since the connection doesn't carry it.
pub fn esme_session<H, T>(
    esmes: &Vec<EsmeSession<H, T>>,
    session_id: &String,
    client_address: String,
) -> (r: Session)
    ensures
        r.kind == SourceKind::EsmeServer,
        r.session_id == *session_id,
        r.system_id@ == system_id_of(esmes@, session_id@),
        r.client_addr == client_address,
{
    let system_id: String = match find_esme(esmes, session_id.as_str()) {
        Some(e) => e.system_id.clone(),
        None => String::new(),
    };
    Session {
        kind: SourceKind::EsmeServer,
        session_id: session_id.clone(),
        system_id,
        client_addr: client_address,
    }
}

/// An ESME bound: its session is added behind the others, and the handlers hear
/// of it.
pub fn on_esme_bound<H, T>(esmes: &mut Vec<EsmeSession<H, T>>, esme: EsmeSession<H, T>) -> (r:
    Session)
    ensures
        final(esmes)@ == old(esmes)@.push(esme),
        r == (Session {
            kind: SourceKind::EsmeServer,
            session_id: esme.session_id,
            system_id: esme.system_id,
            client_addr: esme.client_addr,
        }),
{
    let session: Session = Session {
        kind: SourceKind::EsmeServer,
        session_id: esme.session_id.clone(),
        system_id: esme.system_id.clone(),
        client_addr: esme.client_addr.clone(),
    };
    esmes.push(esme);
    session
}

/// The sessions other than `session_id`.
pub open spec fn without_esme<H, T>(
    esmes: Seq<EsmeSession<H, T>>,
    session_id: Seq<char>,
) -> Seq<EsmeSession<H, T>> {
    esmes.filter(|e: EsmeSession<H, T>| e.session_id@ != session_id)
}

/// An ESME is gone: its session is removed, and the handlers hear of it, with the
/// identity that it had, or an empty one where it was not there.
pub fn on_esme_unbound<H, T>(esmes: &mut Vec<EsmeSession<H, T>>, session_id: &String) -> (r:
    Session)
    ensures
        final(esmes)@ == without_esme(old(esmes)@, session_id@),
        r.kind == SourceKind::EsmeServer,
        r.session_id == *session_id,
        r.system_id@ == system_id_of(old(esmes)@, session_id@),
        r.client_addr@ == match esme_with_id(old(esmes)@, session_id@) {
            Some(i) => old(esmes)@[i].client_addr@,
            None => Seq::empty(),
        },
{
    let session: Session = match find_esme(esmes, session_id.as_str()) {
        Some(e) => Session {
            kind: SourceKind::EsmeServer,
            session_id: session_id.clone(),
            system_id: e.system_id.clone(),
            client_addr: e.client_addr.clone(),
        },
        None => Session {
            kind: SourceKind::EsmeServer,
            session_id: session_id.clone(),
            system_id: String::new(),
            client_addr: String::new(),
        },
    };
    let ghost was = esmes@;
    let ghost stays = |e: EsmeSession<H, T>| e.session_id@ != session_id@;
    let mut i: usize = 0;
    proof {
        reveal(Seq::filter);
        assert(was.skip(0) =~= was);
    }
    assert(esmes@ =~= was.take(0).filter(stays) + was.skip(0));
    let ghost mut done: int = 0;
    while i < esmes.len()
        invariant
            0 <= done <= was.len(),
            stays == (|e: EsmeSession<H, T>| e.session_id@ != session_id@),
            i == was.take(done).filter(stays).len(),
            esmes@ == was.take(done).filter(stays) + was.skip(done),
        decreases was.len() - done,
    {
        proof {
            assert(done < was.len());
            assert(esmes@[i as int] == was[done]);
            assert(was.take(done + 1).drop_last() =~= was.take(done));
            assert(was.take(done + 1).last() == was[done]);
            reveal(Seq::filter);
        }
        if text::same(esmes[i].session_id.as_str(), session_id.as_str()) {
            let gone: EsmeSession<H, T> = esmes.remove(i);
            assert(esmes@ =~= was.take(done + 1).filter(stays) + was.skip(done + 1));
        } else {
            i = i + 1;
            assert(esmes@ =~= was.take(done + 1).filter(stays) + was.skip(done + 1));
        }
        proof {
            done = done + 1;
        }
    }
    proof {
        assert(was.skip(done).len() == 0);
        assert(was.take(done) =~= was);
        assert(esmes@ =~= was.filter(stays));
    }
    session
}

/// The current bound-session counts as `(egress, inbound)` = `(outbound binds,
/// inbound ESMEs)`.
pub fn sample_binds<H, T, G, U>(
    binds: &Vec<BindSession<H, T>>,
    esmes: &Vec<EsmeSession<G, U>>,
) -> (r: (u64, u64))
    ensures
        r.0 == binds@.len(),
        r.1 == esmes@.len(),
{
    (binds.len() as u64, esmes.len() as u64)
}

// ── What is promised of the sessions ─────────────────────────────────────

/// An ESME that bound is found by its id, unless an earlier session has the same
/// one, and once it is gone it is not.
pub proof fn a_bound_esme_is_found_until_it_is_gone<H, T>(
    esmes: Seq<EsmeSession<H, T>>,
    esme: EsmeSession<H, T>,
)
    ensures
        esme_with_id(esmes, esme.session_id@) is None ==> esme_with_id(
            esmes.push(esme),
            esme.session_id@,
        ) == Some(esmes.len() as int),
        esme_with_id(without_esme(esmes.push(esme), esme.session_id@), esme.session_id@) is None,
{
    assert(esmes.push(esme).drop_last() =~= esmes);
    without_has_none(esmes.push(esme), esme.session_id@);
}

proof fn without_has_none<H, T>(esmes: Seq<EsmeSession<H, T>>, session_id: Seq<char>)
    ensures
        esme_with_id(without_esme(esmes, session_id), session_id) is None,
    decreases esmes.len(),
{
    reveal(Seq::filter);
    if esmes.len() > 0 {
        let shorter = esmes.drop_last();
        without_has_none(shorter, session_id);
        let kept = without_esme(shorter, session_id);
        if esmes.last().session_id@ != session_id {
            assert(without_esme(esmes, session_id).drop_last() =~= kept);
        }
    }
}

/// A session that goes leaves every other session where it is found.
pub proof fn other_esmes_stay<H, T>(
    esmes: Seq<EsmeSession<H, T>>,
    gone: Seq<char>,
    other: Seq<char>,
)
    requires
        gone != other,
    ensures
        system_id_of(without_esme(esmes, gone), other) == system_id_of(esmes, other),
        esme_with_id(without_esme(esmes, gone), other) is Some == (esme_with_id(
            esmes,
            other,
        ) is Some),
    decreases esmes.len(),
{
    reveal(Seq::filter);
    if esmes.len() > 0 {
        let shorter = esmes.drop_last();
        other_esmes_stay(shorter, gone, other);
        let kept = without_esme(shorter, gone);
        let all = without_esme(esmes, gone);
        index_is_inside(shorter, other);
        index_is_inside(kept, other);
        if esmes.last().session_id@ != gone {
            assert(all.drop_last() =~= kept);
        }
    }
}

proof fn index_is_inside<H, T>(esmes: Seq<EsmeSession<H, T>>, session_id: Seq<char>)
    ensures
        esme_with_id(esmes, session_id) matches Some(i) ==> 0 <= i < esmes.len()
            && esmes[i].session_id@ == session_id,
    decreases esmes.len(),
{
    if esmes.len() > 0 {
        index_is_inside(esmes.drop_last(), session_id);
    }
}

/// A bind that came up is reached by its name, where no other bind of that name
/// is up, and once its session is gone it is not.
pub proof fn a_bind_is_reached_until_it_is_down<H, T>(
    binds: Seq<BindSession<H, T>>,
    bind: BindSession<H, T>,
)
    requires
        bind_named(binds, bind.name@) is None,
    ensures
        bind_named(binds.push(bind), bind.name@) == Some(binds.len() as int),
        bind_named(without_bind(binds.push(bind), bind.session_id@), bind.name@) is None,
{
    let all = binds.push(bind);
    assert(all.drop_last() =~= binds);
    reveal(Seq::filter);
    assert(without_bind(all, bind.session_id@) == without_bind(binds, bind.session_id@));
    removing_names_none(binds, bind.session_id@, bind.name@);
}

proof fn removing_names_none<H, T>(
    binds: Seq<BindSession<H, T>>,
    session_id: Seq<char>,
    name: Seq<char>,
)
    requires
        bind_named(binds, name) is None,
    ensures
        bind_named(without_bind(binds, session_id), name) is None,
    decreases binds.len(),
{
    reveal(Seq::filter);
    if binds.len() > 0 {
        let shorter = binds.drop_last();
        removing_names_none(shorter, session_id, name);
        let kept = without_bind(shorter, session_id);
        if binds.last().session_id@ != session_id {
            assert(without_bind(binds, session_id).drop_last() =~= kept);
        }
    }
}

/// A session that goes takes no other bind with it: what is left is every bind
/// on another session.
pub proof fn other_binds_stay<H, T>(binds: Seq<BindSession<H, T>>, gone: Seq<char>)
    ensures
        forall|b: BindSession<H, T>|
            #[trigger] without_bind(binds, gone).contains(b) <==> binds.contains(b)
                && b.session_id@ != gone,
    decreases binds.len(),
{
    reveal(Seq::filter);
    if binds.len() > 0 {
        let shorter = binds.drop_last();
        let last = binds.last();
        other_binds_stay(shorter, gone);
        let kept = without_bind(shorter, gone);
        let left = without_bind(binds, gone);
        assert forall|b: BindSession<H, T>|
            #[trigger] left.contains(b) <==> binds.contains(b) && b.session_id@ != gone by {
            if left.contains(b) {
                let k = choose|k: int| 0 <= k < left.len() && left[k] == b;
                if k < kept.len() {
                    assert(kept[k] == b);
                    assert(kept.contains(b));
                    let m = choose|m: int| 0 <= m < shorter.len() && shorter[m] == b;
                    assert(binds[m] == b);
                } else {
                    assert(binds[binds.len() - 1] == b);
                }
            }
            if binds.contains(b) && b.session_id@ != gone {
                let k = choose|k: int| 0 <= k < binds.len() && binds[k] == b;
                if k < shorter.len() {
                    assert(shorter[k] == b);
                    assert(kept.contains(b));
                    let m = choose|m: int| 0 <= m < kept.len() && kept[m] == b;
                    assert(left[m] == b);
                } else {
                    assert(left[left.len() - 1] == b);
                }
            }
        }
    }
}

/// A session is found by its id: the first that has it, and none where none has.
pub proof fn a_session_is_found_by_its_id<H, T>(
    esmes: Seq<EsmeSession<H, T>>,
    session_id: Seq<char>,
)
    ensures
        match esme_with_id(esmes, session_id) {
            Some(i) => {
                &&& 0 <= i < esmes.len()
                &&& esmes[i].session_id@ == session_id
                &&& system_id_of(esmes, session_id) == esmes[i].system_id@
                &&& forall|j: int| 0 <= j < i ==> (#[trigger] esmes[j]).session_id@ != session_id
            },
            None => {
                &&& system_id_of(esmes, session_id).len() == 0
                &&& forall|j: int|
                    0 <= j < esmes.len() ==> (#[trigger] esmes[j]).session_id@ != session_id
            },
        },
    decreases esmes.len(),
{
    if esmes.len() > 0 {
        let shorter = esmes.drop_last();
        a_session_is_found_by_its_id(shorter, session_id);
        assert forall|j: int|
            0 <= j < shorter.len() && (#[trigger] esmes[j]).session_id@ == session_id implies
            esme_with_id(shorter, session_id) matches Some(i) && i <= j by {
            assert(shorter[j] == esmes[j]);
        }
    }
}

/// A bind is found by its name: the first that has it, and none where none has.
pub proof fn a_bind_is_found_by_its_name<H, T>(binds: Seq<BindSession<H, T>>, name: Seq<char>)
    ensures
        match bind_named(binds, name) {
            Some(i) => {
                &&& 0 <= i < binds.len()
                &&& binds[i].name@ == name
                &&& forall|j: int| 0 <= j < i ==> (#[trigger] binds[j]).name@ != name
            },
            None => forall|j: int| 0 <= j < binds.len() ==> (#[trigger] binds[j]).name@ != name,
        },
    decreases binds.len(),
{
    if binds.len() > 0 {
        let shorter = binds.drop_last();
        a_bind_is_found_by_its_name(shorter, name);
        assert forall|j: int|
            0 <= j < shorter.len() && (#[trigger] binds[j]).name@ == name implies bind_named(
            shorter,
            name,
        ) matches Some(i) && i <= j by {
            assert(shorter[j] == binds[j]);
        }
    }
}

/// A session that goes takes no other with it: what is left is every session with
/// another id.
pub proof fn every_other_esme_is_left<H, T>(esmes: Seq<EsmeSession<H, T>>, gone: Seq<char>)
    ensures
        forall|e: EsmeSession<H, T>|
            #[trigger] without_esme(esmes, gone).contains(e) <==> esmes.contains(e)
                && e.session_id@ != gone,
    decreases esmes.len(),
{
    reveal(Seq::filter);
    if esmes.len() > 0 {
        let shorter = esmes.drop_last();
        every_other_esme_is_left(shorter, gone);
        let kept = without_esme(shorter, gone);
        let left = without_esme(esmes, gone);
        assert forall|e: EsmeSession<H, T>|
            #[trigger] left.contains(e) <==> esmes.contains(e) && e.session_id@ != gone by {
            if left.contains(e) {
                let k = choose|k: int| 0 <= k < left.len() && left[k] == e;
                if k < kept.len() {
                    assert(kept[k] == e);
                    assert(kept.contains(e));
                    let m = choose|m: int| 0 <= m < shorter.len() && shorter[m] == e;
                    assert(esmes[m] == e);
                } else {
                    assert(esmes[esmes.len() - 1] == e);
                }
            }
            if esmes.contains(e) && e.session_id@ != gone {
                let k = choose|k: int| 0 <= k < esmes.len() && esmes[k] == e;
                if k < shorter.len() {
                    assert(shorter[k] == e);
                    assert(kept.contains(e));
                    let m = choose|m: int| 0 <= m < kept.len() && kept[m] == e;
                    assert(left[m] == e);
                } else {
                    assert(left[left.len() - 1] == e);
                }
            }
        }
    }
}

} // verus!
