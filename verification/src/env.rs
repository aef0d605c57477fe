//! What the process environment contributes to a configuration: `${VAR}`
//! references in the file, whole binds declared as `SMPP_BIND_<NAME>_*`, and
//! the server and routing overrides.
//!
//! The environment comes in as a list of variables, each a name and a value, in
//! the order in which the process holds them.
use crate::config::{
    default_bind_type, default_enquire_link, default_response, BindConfig, ConfigError,
    SmppConfig, ThrottleAction, TlsConfig,
};
use crate::numbers;
use crate::numbers::IntError;
use crate::order;
use crate::sections;
use crate::sections::ConfigFile;
use crate::text;
use vstd::prelude::*;

verus! {

// ── One variable ─────────────────────────────────────────────────────────

/// The value of the variable `name`: the first one of that name.
pub open spec fn env_value(vars: Seq<(String, String)>, name: Seq<char>) -> Option<Seq<char>>
    decreases vars.len(),
{
    if vars.len() == 0 {
        None
    } else if vars[0].0@ == name {
        Some(vars[0].1@)
    } else {
        env_value(vars.skip(1), name)
    }
}

/// The value of the variable `name`.
pub fn var(vars: &Vec<(String, String)>, name: &str) -> (r: Option<String>)
    ensures
        text::holds(r, env_value(vars@, name@)),
{
    let mut i: usize = 0;
    assert(vars@.skip(0) =~= vars@);
    while i < vars.len()
        invariant
            i <= vars@.len(),
            env_value(vars@, name@) == env_value(vars@.skip(i as int), name@),
        decreases vars@.len() - i,
    {
        if text::same(vars[i].0.as_str(), name) {
            return Some(vars[i].1.clone());
        }
        assert(vars@.skip(i as int).skip(1) =~= vars@.skip(i + 1));
        i = i + 1;
    }
    None
}

// ── `${VAR}` and `${VAR:-default}` ───────────────────────────────────────

/// What a reference `${spec}` stands for: the variable named before the first
/// `:-`, else the default after it, else nothing.
pub open spec fn reference_value(spec_text: Seq<char>, vars: Seq<(String, String)>) -> Seq<char> {
    match text::find(spec_text, ":-"@) {
        Some(c) => match env_value(vars, spec_text.take(c)) {
            Some(v) => v,
            None => spec_text.skip(c + 2),
        },
        None => match env_value(vars, spec_text) {
            Some(v) => v,
            None => Seq::empty(),
        },
    }
}

/// `s` with every reference replaced by what it stands for, from left to right.
/// A `${` without a `}` after it is kept as it is.
pub open spec fn expanded(s: Seq<char>, vars: Seq<(String, String)>) -> Seq<char>
    decreases s.len(),
{
    match text::find(s, "${"@) {
        None => s,
        Some(p) => {
            let after = s.skip(p + 2);
            proof {
                reveal_strlit("${");
                reveal_strlit("}");
                text::find_from_is_first(s, "${"@, 0);
                text::find_from_is_first(after, "}"@, 0);
            }
            match text::find(after, "}"@) {
                None => s.take(p) + "${"@ + expanded(after, vars),
                Some(e) => s.take(p) + reference_value(after.take(e), vars) + expanded(
                    after.skip(e + 1),
                    vars,
                ),
            }
        },
    }
}

/// What a reference `${spec}` stands for.
fn reference(spec_text: &Vec<char>, vars: &Vec<(String, String)>) -> (r: String)
    ensures
        r@ == reference_value(spec_text@, vars@),
{
    let n: usize = spec_text.len();
    let sep: Vec<char> = text::chars_of(":-");
    proof {
        reveal_strlit(":-");
        text::find_from_is_first(spec_text@, ":-"@, 0);
    }
    match text::position_from(spec_text, &sep, 0) {
        Some(c) => {
            let name: String = text::string_of(spec_text, 0, c);
            assert(name@ =~= spec_text@.take(c as int));
            match var(vars, name.as_str()) {
                Some(v) => v,
                None => {
                    let d: String = text::string_of(spec_text, c + 2, n);
                    assert(d@ =~= spec_text@.skip(c + 2));
                    d
                },
            }
        },
        None => {
            let name: String = text::string_of(spec_text, 0, n);
            assert(name@ =~= spec_text@);
            match var(vars, name.as_str()) {
                Some(v) => v,
                None => String::new(),
            }
        },
    }
}

/// Expand `${VAR}` and `${VAR:-default}` references against the environment.
pub fn expand_env_vars(input: &str, vars: &Vec<(String, String)>) -> (out: String)
    ensures
        out@ == expanded(input@, vars@),
{
    let chars: Vec<char> = text::chars_of(input);
    let n: usize = chars.len();
    let open: Vec<char> = text::chars_of("${");
    let close: Vec<char> = text::chars_of("}");
    proof {
        reveal_strlit("${");
        reveal_strlit("}");
    }
    let mut out: String = String::new();
    let mut i: usize = 0;
    assert(input@.skip(0) =~= input@);
    assert(out@ + expanded(input@, vars@) =~= expanded(input@, vars@));
    loop
        invariant
            n == chars.len(),
            chars@ == input@,
            open@ == "${"@,
            close@ == "}"@,
            open@.len() == 2,
            close@.len() == 1,
            i <= n,
            out@ + expanded(input@.skip(i as int), vars@) == expanded(input@, vars@),
        decreases n - i,
    {
        let ghost rest = input@.skip(i as int);
        let ghost was = out@;
        proof {
            text::find_from_skip(input@, "${"@, i as int, 0);
            text::find_from_is_first(input@, "${"@, i as int);
        }
        match text::position_from(&chars, &open, i) {
            None => {
                let tail: String = text::string_of(&chars, i, n);
                out.append(tail.as_str());
                assert(tail@ =~= rest);
                return out;
            },
            Some(p) => {
                let before: String = text::string_of(&chars, i, p);
                out.append(before.as_str());
                assert(before@ =~= rest.take(p - i));
                let from: usize = p + 2;
                let ghost after = rest.skip(p - i + 2);
                assert(after =~= input@.skip(from as int));
                proof {
                    text::find_from_skip(input@, "}"@, from as int, 0);
                    text::find_from_is_first(input@, "}"@, from as int);
                }
                match text::position_from(&chars, &close, from) {
                    None => {
                        out.append("${");
                        i = from;
                        assert(out@ + expanded(after, vars@) =~= was + (before@ + "${"@ + expanded(
                            after,
                            vars@,
                        )));
                    },
                    Some(e) => {
                        let spec_text: Vec<char> = text::slice_of(&chars, from, e);
                        assert(spec_text@ =~= after.take(e - from));
                        let value: String = reference(&spec_text, vars);
                        out.append(value.as_str());
                        assert(after.skip(e - from + 1) =~= input@.skip(e + 1));
                        assert(out@ + expanded(input@.skip(e + 1), vars@) =~= was + (before@
                            + value@ + expanded(input@.skip(e + 1), vars@)));
                        i = e + 1;
                    },
                }
            },
        }
    }
}

/// Text without a `${` comes out as it went in.
pub proof fn text_without_references_is_kept(s: Seq<char>, vars: Seq<(String, String)>)
    requires
        forall|i: int| !text::stands_at(s, "${"@, i),
    ensures
        expanded(s, vars) == s,
{
    text::find_from_is_first(s, "${"@, 0);
}

/// A variable that is set wins over the default written beside its name; one
/// that is not set gives way to it, and to nothing where there is none.
pub proof fn a_set_variable_wins_over_its_default(
    name: Seq<char>,
    default: Seq<char>,
    vars: Seq<(String, String)>,
)
    requires
        forall|i: int| !text::stands_at(name + ":-"@ + default, ":-"@, i) || i >= name.len(),
        forall|i: int| !text::stands_at(name, ":-"@, i),
    ensures
        reference_value(name + ":-"@ + default, vars) == match env_value(vars, name) {
            Some(v) => v,
            None => default,
        },
        reference_value(name, vars) == match env_value(vars, name) {
            Some(v) => v,
            None => Seq::empty(),
        },
{
    reveal_strlit(":-");
    let s = name + ":-"@ + default;
    assert(s.subrange(name.len() as int, name.len() as int + 2) =~= ":-"@);
    assert(text::stands_at(s, ":-"@, name.len() as int));
    text::find_from_is_first(s, ":-"@, 0);
    text::find_from_is_first(name, ":-"@, 0);
    assert(s.take(name.len() as int) =~= name);
    assert(s.skip(name.len() as int + 2) =~= default);
}

// ── Binds declared as `SMPP_BIND_<NAME>_*` ───────────────────────────────

/// The bind and the field that a variable declares: the name between
/// `SMPP_BIND_` and the first underscore after it, in lower case, and all that
/// stands behind that underscore.
pub open spec fn bind_field_of(key: Seq<char>) -> Option<(Seq<char>, Seq<char>)> {
    let prefix = "SMPP_BIND_"@;
    let rest = key.skip(prefix.len() as int);
    if !text::stands_at(key, prefix, 0) {
        None
    } else {
        match text::find(rest, "_"@) {
            Some(i) => Some((text::lowercase(rest.take(i)), rest.skip(i + 1))),
            None => None,
        }
    }
}

/// The value of `field` of the bind `bind`: the last one that is given.
pub open spec fn field_value(
    vars: Seq<(String, String)>,
    bind: Seq<char>,
    field: Seq<char>,
) -> Option<Seq<char>>
    decreases vars.len(),
{
    if vars.len() == 0 {
        None
    } else if bind_field_of(vars.last().0@) == Some((bind, field)) {
        Some(vars.last().1@)
    } else {
        field_value(vars.drop_last(), bind, field)
    }
}

/// The value of `field` of the bind `bind`, where it is more than nothing.
pub open spec fn given(
    vars: Seq<(String, String)>,
    bind: Seq<char>,
    field: Seq<char>,
) -> Option<Seq<char>> {
    match field_value(vars, bind, field) {
        Some(v) => if v.len() > 0 {
            Some(v)
        } else {
            None
        },
        None => None,
    }
}

/// The names of the binds of which some field is declared, in order.
pub open spec fn bind_names(vars: Seq<(String, String)>) -> Seq<Seq<char>>
    decreases vars.len(),
{
    if vars.len() == 0 {
        Seq::empty()
    } else {
        match bind_field_of(vars.last().0@) {
            Some((bind, _)) => order::insert_name(bind_names(vars.drop_last()), bind),
            None => bind_names(vars.drop_last()),
        }
    }
}

/// The numeric `field` of the bind `bind`, or `default` where it is not given.
pub open spec fn number_of(
    vars: Seq<(String, String)>,
    bind: Seq<char>,
    field: Seq<char>,
    default: nat,
) -> Result<nat, IntError> {
    match given(vars, bind, field) {
        Some(v) => numbers::read_uint(v, u64::MAX as nat),
        None => Ok(default),
    }
}

/// What is wrong with a bind that the environment declares.
pub enum EnvFault {
    Missing { field: Seq<char> },
    Invalid { field: Seq<char>, value: Seq<char>, source: IntError },
}

/// What is wrong with the numeric `field`, if anything.
pub open spec fn number_fault(
    vars: Seq<(String, String)>,
    bind: Seq<char>,
    field: Seq<char>,
) -> Option<EnvFault> {
    match number_of(vars, bind, field, 0) {
        Ok(_) => None,
        Err(source) => Some(
            EnvFault::Invalid { field, value: given(vars, bind, field)->0, source },
        ),
    }
}

/// What is wrong with the required `field`, if anything.
pub open spec fn missing_fault(
    vars: Seq<(String, String)>,
    bind: Seq<char>,
    field: Seq<char>,
) -> Option<EnvFault> {
    if given(vars, bind, field) is None {
        Some(EnvFault::Missing { field })
    } else {
        None
    }
}

/// The first of two faults.
pub open spec fn or_else(a: Option<EnvFault>, b: Option<EnvFault>) -> Option<EnvFault> {
    if a is Some {
        a
    } else {
        b
    }
}

/// The first thing that is wrong with the bind `bind`: `PORT` and `MAX_MPS` are
/// looked at first, then the credentials, then the timers.
pub open spec fn bind_fault(vars: Seq<(String, String)>, bind: Seq<char>) -> Option<EnvFault> {
    or_else(
        number_fault(vars, bind, "PORT"@),
        or_else(
            number_fault(vars, bind, "MAX_MPS"@),
            or_else(
                missing_fault(vars, bind, "SYSTEM_ID"@),
                or_else(
                    missing_fault(vars, bind, "PASSWORD"@),
                    or_else(
                        number_fault(vars, bind, "ENQUIRE_LINK_MS"@),
                        number_fault(vars, bind, "RESPONSE_MS"@),
                    ),
                ),
            ),
        ),
    )
}

/// Whether a `TLS` field switches TLS on.
pub open spec fn switches_on(value: Seq<char>) -> bool {
    let v = text::lowercase(text::trimmed(value));
    v == "true"@ || v == "1"@ || v == "yes"@ || v == "on"@
}

/// Whether `b` is the bind `name` as the environment declares it. A port or a
/// rate that is too large for its field keeps its low bits.
pub open spec fn is_env_bind(
    b: BindConfig,
    vars: Seq<(String, String)>,
    name: Seq<char>,
) -> bool {
    &&& b.name@ == name
    &&& given(vars, name, "HOST"@) == Some(b.host@)
    &&& b.port as nat == number_of(vars, name, "PORT"@, 2775)->Ok_0 % 0x1_0000
    &&& given(vars, name, "SYSTEM_ID"@) == Some(b.system_id@)
    &&& given(vars, name, "PASSWORD"@) == Some(b.password@)
    &&& b.system_type@ == match field_value(vars, name, "SYSTEM_TYPE"@) {
        Some(v) => v,
        None => Seq::empty(),
    }
    &&& b.bind_type@ == match field_value(vars, name, "BIND_TYPE"@) {
        Some(v) => v,
        None => "transceiver"@,
    }
    &&& b.max_msg_per_sec as nat == number_of(vars, name, "MAX_MPS"@, 0)->Ok_0 % 0x1_0000_0000
    &&& b.enquire_link_timer_ms as nat == number_of(vars, name, "ENQUIRE_LINK_MS"@, 30000)->Ok_0
    &&& b.response_timer_ms as nat == number_of(vars, name, "RESPONSE_MS"@, 30000)->Ok_0
    &&& match field_value(vars, name, "TLS"@) {
        Some(v) => b.tls is Some == switches_on(v),
        None => b.tls is None,
    }
    &&& b.tls matches Some(t) ==> t.cert_path@.len() == 0 && t.key_path@.len() == 0
        && t.ca_path is None
}

/// The binds that the environment declares, in order: those with a host.
pub open spec fn declared_binds(vars: Seq<(String, String)>) -> Seq<Seq<char>> {
    bind_names(vars).filter(|name: Seq<char>| given(vars, name, "HOST"@) is Some)
}

/// The first of `names` with a fault, and the fault.
pub open spec fn first_fault(
    vars: Seq<(String, String)>,
    names: Seq<Seq<char>>,
) -> Option<(Seq<char>, EnvFault)>
    decreases names.len(),
{
    if names.len() == 0 {
        None
    } else {
        match first_fault(vars, names.drop_last()) {
            Some(f) => Some(f),
            None => match bind_fault(vars, names.last()) {
                Some(f) => Some((names.last(), f)),
                None => None,
            },
        }
    }
}

/// Whether `binds` are the binds that the environment declares.
pub open spec fn are_env_binds(binds: Seq<BindConfig>, vars: Seq<(String, String)>) -> bool {
    &&& binds.len() == declared_binds(vars).len()
    &&& forall|i: int|
        0 <= i < binds.len() ==> is_env_bind(#[trigger] binds[i], vars, declared_binds(vars)[i])
}

/// Whether `e` reports the fault `f` of the bind `name`.
pub open spec fn reports(e: ConfigError, name: Seq<char>, f: EnvFault) -> bool {
    match f {
        EnvFault::Missing { field } => {
            &&& e matches ConfigError::EnvBindMissing { bind, field: ef }
            &&& bind@ == name
            &&& ef@ == field
        },
        EnvFault::Invalid { field, value, source } => {
            &&& e matches ConfigError::EnvBindInvalid { bind, field: ef, value: ev, source: es }
            &&& bind@ == name
            &&& ef@ == field
            &&& ev@ == value
            &&& es == source
        },
    }
}

/// The bind and the field that a variable declares.
fn split_bind_key(key: &str) -> (r: Option<(String, String)>)
    ensures
        match r {
            Some((bind, field)) => bind_field_of(key@) == Some((bind@, field@)),
            None => bind_field_of(key@) is None,
        },
{
    let chars: Vec<char> = text::chars_of(key);
    let prefix: Vec<char> = text::chars_of("SMPP_BIND_");
    if !text::is_at(&chars, &prefix, 0) {
        return None;
    }
    let n: usize = chars.len();
    let from: usize = prefix.len();
    let underscore: Vec<char> = text::chars_of("_");
    let ghost rest = key@.skip(from as int);
    proof {
        reveal_strlit("_");
        text::find_from_skip(key@, "_"@, from as int, 0);
        text::find_from_is_first(key@, "_"@, from as int);
    }
    match text::position_from(&chars, &underscore, from) {
        None => None,
        Some(i) => {
            let name: String = text::string_of(&chars, from, i);
            let field: String = text::string_of(&chars, i + 1, n);
            assert(name@ =~= rest.take(i - from));
            assert(field@ =~= rest.skip(i - from + 1));
            Some((text::to_lowercase(name.as_str()), field))
        },
    }
}

/// The value of `field` of the bind `bind`.
fn field(vars: &Vec<(String, String)>, bind: &str, name: &str) -> (r: Option<String>)
    ensures
        text::holds(r, field_value(vars@, bind@, name@)),
{
    let mut i: usize = vars.len();
    assert(vars@.take(vars@.len() as int) =~= vars@);
    while i > 0
        invariant
            i <= vars@.len(),
            field_value(vars@, bind@, name@) == field_value(
                vars@.take(i as int),
                bind@,
                name@,
            ),
        decreases i,
    {
        let ghost upto = vars@.take(i as int);
        i = i - 1;
        assert(upto.drop_last() =~= vars@.take(i as int));
        assert(upto.last() == vars@[i as int]);
        if let Some((b, f)) = split_bind_key(vars[i].0.as_str()) {
            if text::same(b.as_str(), bind) && text::same(f.as_str(), name) {
                return Some(vars[i].1.clone());
            }
        }
    }
    None
}

/// The value of `field` of the bind `bind`, where it is more than nothing.
fn given_field(vars: &Vec<(String, String)>, bind: &str, name: &str) -> (r: Option<String>)
    ensures
        text::holds(r, given(vars@, bind@, name@)),
{
    match field(vars, bind, name) {
        Some(v) => if v.as_str().is_empty() {
            None
        } else {
            Some(v)
        },
        None => None,
    }
}

/// The names of the binds of which some field is declared, in order.
fn names_of(vars: &Vec<(String, String)>) -> (out: Vec<String>)
    ensures
        order::texts(out@) == bind_names(vars@),
{
    let mut out: Vec<String> = Vec::new();
    let mut i: usize = 0;
    assert(order::texts(out@) =~= bind_names(vars@.take(0)));
    while i < vars.len()
        invariant
            i <= vars@.len(),
            order::texts(out@) == bind_names(vars@.take(i as int)),
        decreases vars@.len() - i,
    {
        assert(vars@.take(i + 1).drop_last() =~= vars@.take(i as int));
        assert(vars@.take(i + 1).last() == vars@[i as int]);
        if let Some((bind, _field)) = split_bind_key(vars[i].0.as_str()) {
            order::add_name(&mut out, bind);
        }
        i = i + 1;
    }
    assert(vars@.take(vars@.len() as int) =~= vars@);
    out
}

/// The required `field` of the bind `bind`.
fn required(
    vars: &Vec<(String, String)>,
    bind: &str,
    name: &'static str,
) -> (r: Result<String, ConfigError>)
    ensures
        match r {
            Ok(v) => given(vars@, bind@, name@) == Some(v@),
            Err(e) => missing_fault(vars@, bind@, name@) matches Some(f) && reports(e, bind@, f),
        },
{
    match given_field(vars, bind, name) {
        Some(v) => Ok(v),
        None => Err(ConfigError::EnvBindMissing { bind: bind.to_owned(), field: name }),
    }
}

/// The numeric `field` of the bind `bind`, or `default` where it is not given.
fn number(
    vars: &Vec<(String, String)>,
    bind: &str,
    name: &'static str,
    default: u64,
) -> (r: Result<u64, ConfigError>)
    ensures
        match r {
            Ok(v) => number_of(vars@, bind@, name@, default as nat) == Ok::<nat, IntError>(
                v as nat,
            ) && number_fault(vars@, bind@, name@) is None,
            Err(e) => number_fault(vars@, bind@, name@) matches Some(f) && reports(e, bind@, f),
        },
{
    match given_field(vars, bind, name) {
        Some(v) => match numbers::parse_uint(v.as_str(), u64::MAX) {
            Ok(n) => Ok(n),
            Err(source) => Err(
                ConfigError::EnvBindInvalid {
                    bind: bind.to_owned(),
                    field: name,
                    value: v,
                    source,
                },
            ),
        },
        None => Ok(default),
    }
}

/// The bind `name` as the environment declares it; nothing where it has no
/// host.
fn env_bind(vars: &Vec<(String, String)>, name: &str) -> (r: Option<
    Result<BindConfig, ConfigError>,
>)
    ensures
        match r {
            None => given(vars@, name@, "HOST"@) is None,
            Some(Ok(b)) => is_env_bind(b, vars@, name@) && bind_fault(vars@, name@) is None,
            Some(Err(e)) => {
                &&& given(vars@, name@, "HOST"@) is Some
                &&& bind_fault(vars@, name@) matches Some(f)
                &&& reports(e, name@, f)
            },
        },
{
    let host: String = match given_field(vars, name, "HOST") {
        Some(h) => h,
        None => {
            return None;
        },
    };
    let port: u64 = match number(vars, name, "PORT", 2775) {
        Ok(v) => v,
        Err(e) => {
            return Some(Err(e));
        },
    };
    let max_mps: u64 = match number(vars, name, "MAX_MPS", 0) {
        Ok(v) => v,
        Err(e) => {
            return Some(Err(e));
        },
    };
    let system_id: String = match required(vars, name, "SYSTEM_ID") {
        Ok(v) => v,
        Err(e) => {
            return Some(Err(e));
        },
    };
    let password: String = match required(vars, name, "PASSWORD") {
        Ok(v) => v,
        Err(e) => {
            return Some(Err(e));
        },
    };
    let enquire_link_timer_ms: u64 = match number(
        vars,
        name,
        "ENQUIRE_LINK_MS",
        default_enquire_link(),
    ) {
        Ok(v) => v,
        Err(e) => {
            return Some(Err(e));
        },
    };
    let response_timer_ms: u64 = match number(vars, name, "RESPONSE_MS", default_response()) {
        Ok(v) => v,
        Err(e) => {
            return Some(Err(e));
        },
    };
    let system_type: String = match field(vars, name, "SYSTEM_TYPE") {
        Some(v) => v,
        None => String::new(),
    };
    let bind_type: String = match field(vars, name, "BIND_TYPE") {
        Some(v) => v,
        None => default_bind_type(),
    };
    let tls: Option<TlsConfig> = match field(vars, name, "TLS") {
        Some(v) => if is_switched_on(v.as_str()) {
            Some(
                TlsConfig {
                    cert_path: String::new(),
                    key_path: String::new(),
                    ca_path: None,
                },
            )
        } else {
            None
        },
        None => None,
    };
    Some(
        Ok(
            BindConfig {
                name: name.to_owned(),
                host,
                port: (port % 0x1_0000) as u16,
                system_id,
                password,
                system_type,
                bind_type,
                max_msg_per_sec: (max_mps % 0x1_0000_0000) as u32,
                enquire_link_timer_ms,
                response_timer_ms,
                tls,
            },
        ),
    )
}

/// Whether a `TLS` field switches TLS on.
fn is_switched_on(value: &str) -> (r: bool)
    ensures
        r == switches_on(value@),
{
    let v: String = text::to_lowercase(text::trim(value).as_str());
    let v: &str = v.as_str();
    text::same(v, "true") || text::same(v, "1") || text::same(v, "yes") || text::same(v, "on")
}

/// Discover binds declared via `SMPP_BIND_<NAME>_*` variables.
///
/// `<NAME>` is uppercased in the variable; the bind identity is the lowercase
/// form. The presence of `SMPP_BIND_<NAME>_HOST` is the discovery signal —
/// binds without it are ignored. Names must not contain underscores (the first
/// `_` after `SMPP_BIND_` separates name from field).
pub fn binds_from_env(vars: &Vec<(String, String)>) -> (r: Result<Vec<BindConfig>, ConfigError>)
    ensures
        match r {
            Ok(binds) => first_fault(vars@, declared_binds(vars@)) is None && are_env_binds(
                binds@,
                vars@,
            ),
            Err(e) => first_fault(vars@, declared_binds(vars@)) matches Some((name, f)) && reports(
                e,
                name,
                f,
            ),
        },
{
    let names: Vec<String> = names_of(vars);
    let ghost all = bind_names(vars@);
    let ghost has_host = |name: Seq<char>| given(vars@, name, "HOST"@) is Some;
    let mut out: Vec<BindConfig> = Vec::new();
    let mut i: usize = 0;
    assert(all.take(0) =~= Seq::empty());
    proof {
        reveal(Seq::filter);
    }
    while i < names.len()
        invariant
            i <= names@.len(),
            order::texts(names@) == all,
            all == bind_names(vars@),
            has_host == (|name: Seq<char>| given(vars@, name, "HOST"@) is Some),
            out@.len() == all.take(i as int).filter(has_host).len(),
            forall|k: int|
                0 <= k < out@.len() ==> is_env_bind(
                    #[trigger] out@[k],
                    vars@,
                    all.take(i as int).filter(has_host)[k],
                ),
            first_fault(vars@, all.take(i as int).filter(has_host)) is None,
        decreases names@.len() - i,
    {
        let ghost done = all.take(i as int);
        let ghost next = all.take(i + 1);
        assert(all[i as int] == names@[i as int]@);
        proof {
            reveal(Seq::filter);
            assert(next.drop_last() =~= done);
            assert(next.last() == all[i as int]);
            if has_host(all[i as int]) {
                assert(next.filter(has_host) == done.filter(has_host).push(all[i as int]));
                assert(next.filter(has_host).drop_last() =~= done.filter(has_host));
            } else {
                assert(next.filter(has_host) == done.filter(has_host));
            }
        }
        match env_bind(vars, names[i].as_str()) {
            None => {},
            Some(Ok(b)) => {
                out.push(b);
            },
            Some(Err(e)) => {
                proof {
                    fault_settles(vars@, all, i + 1);
                }
                return Err(e);
            },
        }
        i = i + 1;
    }
    assert(all.take(names@.len() as int) =~= all);
    Ok(out)
}

/// A fault among the binds with a host of the first `n` names is the first of
/// all.
proof fn fault_settles(vars: Seq<(String, String)>, names: Seq<Seq<char>>, n: int)
    requires
        0 <= n <= names.len(),
        first_fault(
            vars,
            names.take(n).filter(|name: Seq<char>| given(vars, name, "HOST"@) is Some),
        ) is Some,
    ensures
        first_fault(vars, names.filter(|name: Seq<char>| given(vars, name, "HOST"@) is Some))
            == first_fault(
            vars,
            names.take(n).filter(|name: Seq<char>| given(vars, name, "HOST"@) is Some),
        ),
    decreases names.len() - n,
{
    let has_host = |name: Seq<char>| given(vars, name, "HOST"@) is Some;
    if n < names.len() {
        let next = names.take(n + 1);
        reveal(Seq::filter);
        assert(next.drop_last() =~= names.take(n));
        if has_host(next.last()) {
            assert(next.filter(has_host).drop_last() =~= names.take(n).filter(has_host));
        }
        fault_settles(vars, names, n + 1);
    } else {
        assert(names.take(n) =~= names);
    }
}

/// Picking names out of a list in order keeps the order, and picks those that
/// satisfy the condition.
proof fn filter_keeps_order(names: Seq<Seq<char>>, pred: spec_fn(Seq<char>) -> bool)
    requires
        order::in_order(names),
    ensures
        order::in_order(names.filter(pred)),
        forall|x: Seq<char>|
            #[trigger] names.filter(pred).contains(x) <==> names.contains(x) && pred(x),
    decreases names.len(),
{
    reveal(Seq::filter);
    if names.len() > 0 {
        let shorter = names.drop_last();
        let last = names.last();
        let kept = shorter.filter(pred);
        filter_keeps_order(shorter, pred);
        let out = names.filter(pred);
        assert forall|x: Seq<char>| kept.contains(x) implies order::before(x, last) by {
            assert(shorter.contains(x));
        }
        assert forall|i: int, j: int| 0 <= i < j < out.len() implies order::before(
            #[trigger] out[i],
            #[trigger] out[j],
        ) by {
            if pred(last) && j == out.len() - 1 {
                assert(kept[i] == out[i]);
                assert(kept.contains(out[i]));
            }
        }
        assert forall|x: Seq<char>|
            #[trigger] out.contains(x) <==> names.contains(x) && pred(x) by {
            if out.contains(x) {
                let k = choose|k: int| 0 <= k < out.len() && out[k] == x;
                if k < kept.len() {
                    assert(kept[k] == x);
                    assert(kept.contains(x));
                    let m = choose|m: int| 0 <= m < shorter.len() && shorter[m] == x;
                    assert(names[m] == x);
                } else {
                    assert(names[names.len() - 1] == x);
                }
            }
            if names.contains(x) && pred(x) {
                let k = choose|k: int| 0 <= k < names.len() && names[k] == x;
                if k < shorter.len() {
                    assert(shorter[k] == x);
                    assert(kept.contains(x));
                    let m = choose|m: int| 0 <= m < kept.len() && kept[m] == x;
                    assert(out[m] == x);
                } else {
                    assert(out[out.len() - 1] == x);
                }
            }
        }
    }
}

/// The names of the binds stand in order, and a bind with a field is among
/// them.
proof fn bind_names_are_in_order(vars: Seq<(String, String)>)
    ensures
        order::in_order(bind_names(vars)),
        forall|name: Seq<char>, field: Seq<char>|
            (#[trigger] field_value(vars, name, field)) is Some ==> bind_names(vars).contains(name),
    decreases vars.len(),
{
    if vars.len() > 0 {
        let shorter = vars.drop_last();
        bind_names_are_in_order(shorter);
        if let Some((bind, _)) = bind_field_of(vars.last().0@) {
            order::insert_name_keeps_order(bind_names(shorter), bind);
            assert(bind_names(vars).contains(bind));
        }
        assert forall|name: Seq<char>, field: Seq<char>|
            (#[trigger] field_value(vars, name, field)) is Some implies bind_names(vars).contains(
            name,
        ) by {
            if bind_field_of(vars.last().0@) != Some((name, field)) {
                assert(field_value(shorter, name, field) is Some);
                assert(bind_names(shorter).contains(name));
            }
        }
    }
}

/// The names of the binds that the environment declares stand in order, each
/// once, and are those whose host is given.
pub proof fn declared_binds_are_in_order(vars: Seq<(String, String)>)
    ensures
        order::in_order(declared_binds(vars)),
        forall|name: Seq<char>|
            #[trigger] declared_binds(vars).contains(name) <==> given(vars, name, "HOST"@) is Some,
{
    bind_names_are_in_order(vars);
    let has_host = |name: Seq<char>| given(vars, name, "HOST"@) is Some;
    filter_keeps_order(bind_names(vars), has_host);
    assert forall|name: Seq<char>|
        #[trigger] declared_binds(vars).contains(name) <==> given(vars, name, "HOST"@) is Some by {
        assert(has_host(name) ==> field_value(vars, name, "HOST"@) is Some);
    }
}

/// No two of the binds that the environment declares have the same name.
pub proof fn env_bind_names_are_distinct(
    binds: Seq<BindConfig>,
    vars: Seq<(String, String)>,
    i: int,
    j: int,
)
    requires
        are_env_binds(binds, vars),
        0 <= i < j < binds.len(),
    ensures
        order::before(binds[i].name@, binds[j].name@),
        binds[i].name@ != binds[j].name@,
{
    declared_binds_are_in_order(vars);
    assert(is_env_bind(binds[i], vars, declared_binds(vars)[i]));
    assert(is_env_bind(binds[j], vars, declared_binds(vars)[j]));
    order::before_is_total(binds[i].name@, binds[j].name@);
}

/// A bind that is declared without a system id or without a password is
/// reported, never left out or brought up without it.
pub proof fn a_bind_without_credentials_is_a_fault(vars: Seq<(String, String)>, name: Seq<char>)
    requires
        given(vars, name, "HOST"@) is Some,
        given(vars, name, "SYSTEM_ID"@) is None || given(vars, name, "PASSWORD"@) is None,
    ensures
        first_fault(vars, declared_binds(vars)) is Some,
{
    declared_binds_are_in_order(vars);
    let all = declared_binds(vars);
    assert(all.contains(name));
    let k = choose|k: int| 0 <= k < all.len() && all[k] == name;
    a_fault_is_found(vars, all, k);
}

proof fn a_fault_is_found(vars: Seq<(String, String)>, names: Seq<Seq<char>>, k: int)
    requires
        0 <= k < names.len(),
        bind_fault(vars, names[k]) is Some,
    ensures
        first_fault(vars, names) is Some,
    decreases names.len(),
{
    if k < names.len() - 1 {
        a_fault_is_found(vars, names.drop_last(), k);
    }
}

// ── Overrides ────────────────────────────────────────────────────────────

/// A step of a chain, where it is more than white space.
pub open spec fn chain_step(raw: Seq<char>) -> Seq<Seq<char>> {
    if text::trimmed(raw).len() == 0 {
        Seq::empty()
    } else {
        seq![text::trimmed(raw)]
    }
}

/// The chain that a comma-separated list stands for: its steps, trimmed, the
/// empty ones left out.
pub open spec fn chain_of(raw: Seq<char>) -> Seq<Seq<char>>
    decreases raw.len(),
{
    match text::find(raw, ","@) {
        None => chain_step(raw),
        Some(i) => {
            proof {
                reveal_strlit(",");
                text::find_from_is_first(raw, ","@, 0);
            }
            chain_step(raw.take(i)) + chain_of(raw.skip(i + 1))
        },
    }
}

/// Adds the step that `chars` holds from `from` up to `to`.
fn push_step(out: &mut Vec<String>, chars: &Vec<char>, from: usize, to: usize)
    requires
        from <= to <= chars@.len(),
    ensures
        order::texts(final(out)@) == order::texts(old(out)@) + chain_step(
            chars@.subrange(from as int, to as int),
        ),
{
    let ghost was = out@;
    let step: String = text::trim_range(chars, from, to);
    let ghost t = step@;
    if !step.as_str().is_empty() {
        out.push(step);
        assert(order::texts(out@) =~= order::texts(was) + seq![t]);
    } else {
        assert(order::texts(out@) =~= order::texts(was) + Seq::empty());
    }
}

/// The chain that a comma-separated list stands for.
pub fn parse_chain(raw: &str) -> (out: Vec<String>)
    ensures
        order::texts(out@) == chain_of(raw@),
{
    let chars: Vec<char> = text::chars_of(raw);
    let n: usize = chars.len();
    let comma: Vec<char> = text::chars_of(",");
    proof {
        reveal_strlit(",");
    }
    let mut out: Vec<String> = Vec::new();
    let mut i: usize = 0;
    assert(raw@.skip(0) =~= raw@);
    assert(order::texts(out@) + chain_of(raw@) =~= chain_of(raw@));
    loop
        invariant
            n == chars.len(),
            chars@ == raw@,
            comma@ == ","@,
            comma@.len() == 1,
            i <= n,
            order::texts(out@) + chain_of(raw@.skip(i as int)) == chain_of(raw@),
        decreases n - i,
    {
        let ghost rest = raw@.skip(i as int);
        let ghost was = order::texts(out@);
        proof {
            text::find_from_skip(raw@, ","@, i as int, 0);
            text::find_from_is_first(raw@, ","@, i as int);
        }
        match text::position_from(&chars, &comma, i) {
            None => {
                push_step(&mut out, &chars, i, n);
                assert(raw@.subrange(i as int, n as int) =~= rest);
                return out;
            },
            Some(p) => {
                push_step(&mut out, &chars, i, p);
                assert(raw@.subrange(i as int, p as int) =~= rest.take(p - i));
                assert(rest.skip(p - i + 1) =~= raw@.skip(p + 1));
                assert(order::texts(out@) + chain_of(raw@.skip(p + 1)) =~= was + (chain_step(
                    rest.take(p - i),
                ) + chain_of(raw@.skip(p + 1))));
                i = p + 1;
            },
        }
    }
}

/// The inbound rate cap after `SMPP_SERVER_MAX_MPS`: its number, or `current`
/// where it is not set or not a number.
pub open spec fn overridden_max_mps(vars: Seq<(String, String)>, current: u32) -> u32 {
    match env_value(vars, "SMPP_SERVER_MAX_MPS"@) {
        Some(raw) => match numbers::read_uint(text::trimmed(raw), u32::MAX as nat) {
            Ok(v) => v as u32,
            Err(_) => current,
        },
        None => current,
    }
}

/// The throttle action after `SMPP_SERVER_THROTTLE_ACTION`: the one it names in
/// whatever case, or `current` where it is not set or names none.
pub open spec fn overridden_action(
    vars: Seq<(String, String)>,
    current: ThrottleAction,
) -> ThrottleAction {
    match env_value(vars, "SMPP_SERVER_THROTTLE_ACTION"@) {
        Some(raw) => {
            let v = text::lowercase(text::trimmed(raw));
            if v == "pace"@ {
                ThrottleAction::Pace
            } else if v == "reject"@ {
                ThrottleAction::Reject
            } else {
                current
            }
        },
        None => current,
    }
}

/// The default chain after `SMPP_DEFAULT_CHAIN`.
pub open spec fn overridden_chain(
    vars: Seq<(String, String)>,
    current: Seq<Seq<char>>,
) -> Seq<Seq<char>> {
    match env_value(vars, "SMPP_DEFAULT_CHAIN"@) {
        Some(raw) => chain_of(raw),
        None => current,
    }
}

/// Whether `out` is `cfg` with what the environment adds: its binds behind
/// those of `cfg`, and its overrides. All the rest stays.
pub open spec fn is_with_environment(
    out: SmppConfig,
    cfg: SmppConfig,
    vars: Seq<(String, String)>,
) -> bool {
    let n = cfg.binds@.len() as int;
    &&& n <= out.binds@.len()
    &&& out.binds@.take(n) == cfg.binds@
    &&& are_env_binds(out.binds@.skip(n), vars)
    &&& out.server == (crate::config::ServerConfig {
        max_msg_per_sec: overridden_max_mps(vars, cfg.server.max_msg_per_sec),
        throttle_action: overridden_action(vars, cfg.server.throttle_action),
        ..cfg.server
    })
    &&& order::texts(out.routing.default_chain@) == overridden_chain(
        vars,
        order::texts(cfg.routing.default_chain@),
    )
    &&& out.routing.rules == cfg.routing.rules
    &&& out.bind_address == cfg.bind_address
    &&& out.port == cfg.port
}

/// Adds to a configuration what the environment declares: its binds, and the
/// overrides `SMPP_DEFAULT_CHAIN`, `SMPP_SERVER_MAX_MPS` and
/// `SMPP_SERVER_THROTTLE_ACTION`. Fails where a declared bind is faulty.
pub fn with_environment(cfg: SmppConfig, vars: &Vec<(String, String)>) -> (r: Result<
    SmppConfig,
    ConfigError,
>)
    ensures
        match r {
            Ok(out) => first_fault(vars@, declared_binds(vars@)) is None && is_with_environment(
                out,
                cfg,
                vars@,
            ),
            Err(e) => first_fault(vars@, declared_binds(vars@)) matches Some((name, f)) && reports(
                e,
                name,
                f,
            ),
        },
{
    let mut out: SmppConfig = cfg;
    let mut more: Vec<BindConfig> = match binds_from_env(vars) {
        Ok(binds) => binds,
        Err(e) => {
            return Err(e);
        },
    };
    let ghost env_binds = more@;
    out.binds.append(&mut more);
    assert(out.binds@.take(cfg.binds@.len() as int) =~= cfg.binds@);
    assert(out.binds@.skip(cfg.binds@.len() as int) =~= env_binds);
    if let Some(raw) = var(vars, "SMPP_DEFAULT_CHAIN") {
        out.routing.default_chain = parse_chain(raw.as_str());
    }
    if let Some(raw) = var(vars, "SMPP_SERVER_MAX_MPS") {
        if let Ok(mps) = numbers::parse_uint(text::trim(raw.as_str()).as_str(), u32::MAX as u64) {
            out.server.max_msg_per_sec = mps as u32;
        }
    }
    if let Some(raw) = var(vars, "SMPP_SERVER_THROTTLE_ACTION") {
        let action: String = text::to_lowercase(text::trim(raw.as_str()).as_str());
        if text::same(action.as_str(), "pace") {
            out.server.throttle_action = ThrottleAction::Pace;
        } else if text::same(action.as_str(), "reject") {
            out.server.throttle_action = ThrottleAction::Reject;
        }
    }
    Ok(out)
}

impl SmppConfig {
    /// The configuration of a file that was read and parsed, with its defaults
    /// and with what the environment adds. Fails where a bind that the
    /// environment declares is faulty.
    pub fn from_file(file: ConfigFile, vars: &Vec<(String, String)>) -> (r: Result<
        SmppConfig,
        ConfigError,
    >)
        ensures
            match r {
                Ok(out) => {
                    &&& first_fault(vars@, declared_binds(vars@)) is None
                    &&& exists|cfg: SmppConfig|
                        sections::is_config(cfg, file) && #[trigger] is_with_environment(
                            out,
                            cfg,
                            vars@,
                        )
                },
                Err(e) => first_fault(vars@, declared_binds(vars@)) matches Some((name, f))
                    && reports(e, name, f),
            },
    {
        with_environment(sections::resolve(file), vars)
    }
}

// ── What is promised of the environment ──────────────────────────────────

/// Of several variables with one name the first counts.
pub proof fn the_first_variable_of_a_name_counts(vars: Seq<(String, String)>, name: Seq<char>)
    ensures
        match env_value(vars, name) {
            Some(v) => exists|i: int|
                0 <= i < vars.len() && (#[trigger] vars[i]).0@ == name && vars[i].1@ == v && forall|
                    j: int,
                |
                    0 <= j < i ==> (#[trigger] vars[j]).0@ != name,
            None => forall|j: int| 0 <= j < vars.len() ==> (#[trigger] vars[j]).0@ != name,
        },
    decreases vars.len(),
{
    if vars.len() > 0 {
        if vars[0].0@ == name {
            assert(vars[0].1@ == env_value(vars, name)->0);
        } else {
            let rest = vars.skip(1);
            the_first_variable_of_a_name_counts(rest, name);
            match env_value(rest, name) {
                Some(v) => {
                    let i = choose|i: int|
                        0 <= i < rest.len() && (#[trigger] rest[i]).0@ == name && rest[i].1@ == v
                            && forall|j: int| 0 <= j < i ==> (#[trigger] rest[j]).0@ != name;
                    assert(vars[i + 1] == rest[i]);
                    assert forall|j: int| 0 <= j < i + 1 implies (#[trigger] vars[j]).0@ != name by {
                        if j > 0 {
                            assert(rest[j - 1] == vars[j]);
                        }
                    }
                },
                None => {
                    assert forall|j: int| 0 <= j < vars.len() implies (#[trigger] vars[j]).0@
                        != name by {
                        if j > 0 {
                            assert(rest[j - 1] == vars[j]);
                        }
                    }
                },
            }
        }
    }
}

/// Of several values of one field of a bind the last counts.
pub proof fn the_last_value_of_a_field_counts(
    vars: Seq<(String, String)>,
    bind: Seq<char>,
    field: Seq<char>,
)
    ensures
        match field_value(vars, bind, field) {
            Some(v) => exists|i: int|
                0 <= i < vars.len() && bind_field_of((#[trigger] vars[i]).0@) == Some((bind, field))
                    && vars[i].1@ == v && forall|j: int|
                    i < j < vars.len() ==> bind_field_of((#[trigger] vars[j]).0@) != Some(
                        (bind, field),
                    ),
            None => forall|j: int|
                0 <= j < vars.len() ==> bind_field_of((#[trigger] vars[j]).0@) != Some(
                    (bind, field),
                ),
        },
        given(vars, bind, field) is Some <==> field_value(vars, bind, field) is Some && field_value(
            vars,
            bind,
            field,
        )->0.len() > 0,
        given(vars, bind, field) is Some ==> given(vars, bind, field) == field_value(
            vars,
            bind,
            field,
        ),
    decreases vars.len(),
{
    if vars.len() > 0 {
        let last = vars.len() - 1;
        if bind_field_of(vars[last].0@) == Some((bind, field)) {
            assert(vars[last].1@ == field_value(vars, bind, field)->0);
        } else {
            let shorter = vars.drop_last();
            the_last_value_of_a_field_counts(shorter, bind, field);
            match field_value(shorter, bind, field) {
                Some(v) => {
                    let i = choose|i: int|
                        0 <= i < shorter.len() && bind_field_of((#[trigger] shorter[i]).0@) == Some(
                            (bind, field),
                        ) && shorter[i].1@ == v && forall|j: int|
                            i < j < shorter.len() ==> bind_field_of((#[trigger] shorter[j]).0@)
                                != Some((bind, field));
                    assert(vars[i] == shorter[i]);
                    assert forall|j: int| i < j < vars.len() implies bind_field_of(
                        (#[trigger] vars[j]).0@,
                    ) != Some((bind, field)) by {
                        if j < last {
                            assert(shorter[j] == vars[j]);
                        }
                    }
                },
                None => {
                    assert forall|j: int| 0 <= j < vars.len() implies bind_field_of(
                        (#[trigger] vars[j]).0@,
                    ) != Some((bind, field)) by {
                        if j < last {
                            assert(shorter[j] == vars[j]);
                        }
                    }
                },
            }
        }
    }
}

/// The variable that declares `field` of the bind that is written `name`.
pub open spec fn bind_variable(name: Seq<char>, field: Seq<char>) -> Seq<char> {
    "SMPP_BIND_"@ + name + "_"@ + field
}

/// A variable `SMPP_BIND_<NAME>_<FIELD>` declares that field of the bind of that
/// name in small letters, where the name holds no underscore. The field may.
pub proof fn a_variable_names_its_bind_and_field(name: Seq<char>, field: Seq<char>)
    requires
        forall|i: int| 0 <= i < name.len() ==> #[trigger] name[i] != '_',
    ensures
        bind_field_of("SMPP_BIND_"@ + name + "_"@ + field) == Some((text::lowercase(name), field)),
{
    reveal_strlit("SMPP_BIND_");
    reveal_strlit("_");
    let key = "SMPP_BIND_"@ + name + "_"@ + field;
    let rest = key.skip(10);
    assert(key.subrange(0, 10) =~= "SMPP_BIND_"@);
    assert(rest =~= name + "_"@ + field);
    let n = name.len() as int;
    assert(rest.subrange(n, n + 1) =~= "_"@);
    assert(text::stands_at(rest, "_"@, n));
    text::find_from_is_first(rest, "_"@, 0);
    let p = text::find(rest, "_"@)->0;
    if p < n {
        assert(rest.subrange(p, p + 1)[0] == name[p]);
        assert("_"@[0] == '_');
    }
    assert(text::find(rest, "_"@) == Some(n));
    assert(rest.take(n) =~= name);
    assert(rest.skip(n + 1) =~= field);
}

/// No other variable declares a field of a bind.
pub proof fn no_other_variable_declares_a_bind(key: Seq<char>)
    requires
        bind_field_of(key) is Some,
    ensures
        exists|name: Seq<char>, field: Seq<char>|
            #[trigger] bind_variable(name, field) == key && bind_field_of(key) == Some(
                (text::lowercase(name), field),
            ) && forall|i: int| 0 <= i < name.len() ==> #[trigger] name[i] != '_',
{
    reveal_strlit("SMPP_BIND_");
    reveal_strlit("_");
    let rest = key.skip(10);
    text::find_from_is_first(rest, "_"@, 0);
    let p = text::find(rest, "_"@)->0;
    let name = rest.take(p);
    let field = rest.skip(p + 1);
    assert(bind_field_of(key) == Some((text::lowercase(name), field)));
    assert(key.subrange(0, 10) == "SMPP_BIND_"@);
    assert(rest.subrange(p, p + 1) == "_"@);
    assert(bind_variable(name, field) =~= key) by {
        assert(key =~= key.subrange(0, 10) + name + rest.subrange(p, p + 1) + field);
    }
    assert forall|i: int| 0 <= i < name.len() implies #[trigger] name[i] != '_' by {
        if name[i] == '_' {
            assert(rest.subrange(i, i + 1) =~= "_"@);
            assert(text::stands_at(rest, "_"@, i));
        }
    }
}

/// A reference is replaced by what it stands for, and what stands before and
/// behind it is not touched; what it stands for is not expanded again.
pub proof fn a_reference_is_replaced(
    pre: Seq<char>,
    reference: Seq<char>,
    rest: Seq<char>,
    vars: Seq<(String, String)>,
)
    requires
        forall|i: int| !text::stands_at(pre, "${"@, i),
        forall|i: int| 0 <= i < reference.len() ==> #[trigger] reference[i] != '}',
    ensures
        expanded(pre + "${"@ + reference + "}"@ + rest, vars) == pre + reference_value(
            reference,
            vars,
        ) + expanded(rest, vars),
{
    reveal_strlit("${");
    reveal_strlit("}");
    let s = pre + "${"@ + reference + "}"@ + rest;
    let n = pre.len() as int;
    assert(s.subrange(n, n + 2) =~= "${"@);
    assert(text::stands_at(s, "${"@, n));
    text::find_from_is_first(s, "${"@, 0);
    let p = text::find(s, "${"@)->0;
    if p < n {
        let found = s.subrange(p, p + 2);
        assert(found == "${"@);
        if p + 2 <= n {
            assert(pre.subrange(p, p + 2) =~= found);
            assert(text::stands_at(pre, "${"@, p));
        } else {
            assert(found[1] == s[n]);
            assert("${"@[1] == '{' && "${"@[0] == '$');
            assert(s[n] == '$');
        }
    }
    assert(p == n);
    let after = s.skip(n + 2);
    assert(after =~= reference + "}"@ + rest);
    let e = reference.len() as int;
    assert(after.subrange(e, e + 1) =~= "}"@);
    assert(text::stands_at(after, "}"@, e));
    text::find_from_is_first(after, "}"@, 0);
    let q = text::find(after, "}"@)->0;
    if q < e {
        assert(after.subrange(q, q + 1)[0] == reference[q]);
        assert("}"@[0] == '}');
    }
    assert(q == e);
    assert(s.take(n) =~= pre);
    assert(after.take(e) =~= reference);
    assert(after.skip(e + 1) =~= rest);
}

/// Text in which no reference is closed comes out as it went in, whatever stands
/// before the first of them.
pub proof fn open_references_are_kept(s: Seq<char>, vars: Seq<(String, String)>)
    requires
        forall|i: int, j: int|
            #[trigger] text::stands_at(s, "${"@, i) && i < j < s.len() ==> #[trigger] s[j] != '}',
    ensures
        expanded(s, vars) == s,
    decreases s.len(),
{
    reveal_strlit("${");
    reveal_strlit("}");
    text::find_from_is_first(s, "${"@, 0);
    if let Some(p) = text::find(s, "${"@) {
        let after = s.skip(p + 2);
        text::find_from_is_first(after, "}"@, 0);
        if let Some(e) = text::find(after, "}"@) {
            assert(after.subrange(e, e + 1)[0] == s[p + 2 + e]);
            assert("}"@[0] == '}');
        }
        assert forall|i: int, j: int|
            #[trigger] text::stands_at(after, "${"@, i) && i < j < after.len() implies
            #[trigger] after[j] != '}' by {
            assert(after[j] == s[j + p + 2]);
        }
        open_references_are_kept(after, vars);
        assert(s.subrange(p, p + 2) == "${"@);
        assert(s.take(p) + "${"@ + after =~= s);
    }
}

/// A bind that the environment declares has the fields that are declared, the
/// numbers as they are written, and the documented defaults for the rest: port
/// 2775, no cap, timers of 30 s, a transceiver, no TLS.
pub proof fn a_declared_bind_has_its_fields(
    b: BindConfig,
    vars: Seq<(String, String)>,
    name: Seq<char>,
    n: nat,
)
    requires
        is_env_bind(b, vars, name),
    ensures
        b.name@ == name,
        given(vars, name, "HOST"@) == Some(b.host@),
        given(vars, name, "SYSTEM_ID"@) == Some(b.system_id@),
        given(vars, name, "PASSWORD"@) == Some(b.password@),
        given(vars, name, "PORT"@) is None ==> b.port == 2775,
        given(vars, name, "PORT"@) == Some(numbers::decimal(n)) && n <= 0xFFFF ==> b.port == n,
        given(vars, name, "MAX_MPS"@) is None ==> b.max_msg_per_sec == 0,
        given(vars, name, "MAX_MPS"@) == Some(numbers::decimal(n)) && n <= 0xFFFF_FFFF
            ==> b.max_msg_per_sec == n,
        given(vars, name, "ENQUIRE_LINK_MS"@) is None ==> b.enquire_link_timer_ms == 30_000,
        given(vars, name, "ENQUIRE_LINK_MS"@) == Some(numbers::decimal(n)) && n <= u64::MAX
            ==> b.enquire_link_timer_ms == n,
        given(vars, name, "RESPONSE_MS"@) is None ==> b.response_timer_ms == 30_000,
        given(vars, name, "RESPONSE_MS"@) == Some(numbers::decimal(n)) && n <= u64::MAX
            ==> b.response_timer_ms == n,
        field_value(vars, name, "SYSTEM_TYPE"@) matches Some(v) ==> b.system_type@ == v,
        field_value(vars, name, "SYSTEM_TYPE"@) is None ==> b.system_type@.len() == 0,
        field_value(vars, name, "BIND_TYPE"@) matches Some(v) ==> b.bind_type@ == v,
        field_value(vars, name, "BIND_TYPE"@) is None ==> b.bind_type@ == "transceiver"@,
        b.tls is Some ==> field_value(vars, name, "TLS"@) is Some && b.tls->0.ca_path is None,
        field_value(vars, name, "TLS"@) matches Some(v) ==> (b.tls is Some <==> ({
            let word = text::lowercase(text::trimmed(v));
            word == "true"@ || word == "1"@ || word == "yes"@ || word == "on"@
        })),
{
    if n <= u64::MAX {
        numbers::decimal_reads_back(n, u64::MAX as nat);
    }
}

/// Whether the numeric `field` of a bind, where it is given, is a number.
pub open spec fn is_readable(vars: Seq<(String, String)>, name: Seq<char>, field: Seq<char>) -> bool {
    given(vars, name, field) matches Some(v) ==> numbers::read_uint(v, u64::MAX as nat) is Ok
}

/// The binds of the environment are refused only for a fault: where every bind
/// with a host has its credentials, and its numbers are numbers, they are taken.
pub proof fn the_environment_is_refused_only_for_a_fault(vars: Seq<(String, String)>)
    ensures
        first_fault(vars, declared_binds(vars)) is None <==> forall|name: Seq<char>|
            (#[trigger] given(vars, name, "HOST"@)) is Some ==> {
                &&& given(vars, name, "SYSTEM_ID"@) is Some
                &&& given(vars, name, "PASSWORD"@) is Some
                &&& is_readable(vars, name, "PORT"@)
                &&& is_readable(vars, name, "MAX_MPS"@)
                &&& is_readable(vars, name, "ENQUIRE_LINK_MS"@)
                &&& is_readable(vars, name, "RESPONSE_MS"@)
            },
{
    declared_binds_are_in_order(vars);
    let all = declared_binds(vars);
    the_first_faulty_bind_is_reported(vars, all);
    if first_fault(vars, all) is None {
        assert forall|name: Seq<char>| (#[trigger] given(vars, name, "HOST"@)) is Some implies {
            &&& given(vars, name, "SYSTEM_ID"@) is Some
            &&& given(vars, name, "PASSWORD"@) is Some
            &&& is_readable(vars, name, "PORT"@)
            &&& is_readable(vars, name, "MAX_MPS"@)
            &&& is_readable(vars, name, "ENQUIRE_LINK_MS"@)
            &&& is_readable(vars, name, "RESPONSE_MS"@)
        } by {
            assert(all.contains(name));
            let k = choose|k: int| 0 <= k < all.len() && all[k] == name;
            assert(bind_fault(vars, all[k]) is None);
        }
    } else {
        let k = choose|k: int| 0 <= k < all.len() && bind_fault(vars, #[trigger] all[k]) is Some;
        assert(all.contains(all[k]));
        assert(given(vars, all[k], "HOST"@) is Some);
    }
}

/// Of several faulty binds the first is reported, with its own fault.
pub proof fn the_first_faulty_bind_is_reported(
    vars: Seq<(String, String)>,
    names: Seq<Seq<char>>,
)
    ensures
        match first_fault(vars, names) {
            Some((name, f)) => exists|k: int|
                0 <= k < names.len() && (#[trigger] names[k]) == name && bind_fault(vars, names[k])
                    == Some(f) && forall|j: int|
                    0 <= j < k ==> bind_fault(vars, #[trigger] names[j]) is None,
            None => forall|j: int|
                0 <= j < names.len() ==> bind_fault(vars, #[trigger] names[j]) is None,
        },
    decreases names.len(),
{
    if names.len() > 0 {
        let shorter = names.drop_last();
        the_first_faulty_bind_is_reported(vars, shorter);
        match first_fault(vars, shorter) {
            Some((name, f)) => {
                let k = choose|k: int|
                    0 <= k < shorter.len() && (#[trigger] shorter[k]) == name && bind_fault(
                        vars,
                        shorter[k],
                    ) == Some(f) && forall|j: int|
                        0 <= j < k ==> bind_fault(vars, #[trigger] shorter[j]) is None;
                assert(names[k] == shorter[k]);
                assert forall|j: int| 0 <= j < k implies bind_fault(
                    vars,
                    #[trigger] names[j],
                ) is None by {
                    assert(shorter[j] == names[j]);
                }
            },
            None => {
                assert forall|j: int| 0 <= j < shorter.len() implies bind_fault(
                    vars,
                    #[trigger] names[j],
                ) is None by {
                    assert(shorter[j] == names[j]);
                }
                assert(names[names.len() - 1] == names.last());
            },
        }
    }
}

/// A fault says what is wrong: a field that is missing is not given, and one that
/// is no number is given with the value that is reported, and cannot be read for
/// the reason that is reported.
pub proof fn a_fault_is_what_is_wrong(vars: Seq<(String, String)>, name: Seq<char>)
    ensures
        match bind_fault(vars, name) {
            Some(EnvFault::Missing { field }) => {
                &&& field == "SYSTEM_ID"@ || field == "PASSWORD"@
                &&& given(vars, name, field) is None
            },
            Some(EnvFault::Invalid { field, value, source }) => {
                &&& field == "PORT"@ || field == "MAX_MPS"@ || field == "ENQUIRE_LINK_MS"@ || field
                    == "RESPONSE_MS"@
                &&& given(vars, name, field) == Some(value)
                &&& numbers::read_uint(value, u64::MAX as nat) == Err::<nat, IntError>(source)
            },
            None => true,
        },
{
}

/// A chain is split at its commas; a step is trimmed, and left out where nothing
/// is left of it.
pub proof fn a_chain_is_split_at_its_commas(a: Seq<char>, b: Seq<char>)
    requires
        forall|i: int| 0 <= i < a.len() ==> #[trigger] a[i] != ',',
    ensures
        text::trimmed(a).len() == 0 ==> chain_of(a).len() == 0,
        text::trimmed(a).len() > 0 ==> chain_of(a) == seq![text::trimmed(a)],
        chain_of(a + ","@ + b) == chain_of(a) + chain_of(b),
{
    reveal_strlit(",");
    text::find_from_is_first(a, ","@, 0);
    if let Some(p) = text::find(a, ","@) {
        assert(a.subrange(p, p + 1)[0] == a[p]);
        assert(","@[0] == ',');
    }
    let s = a + ","@ + b;
    let n = a.len() as int;
    assert(s.subrange(n, n + 1) =~= ","@);
    assert(text::stands_at(s, ","@, n));
    text::find_from_is_first(s, ","@, 0);
    let p = text::find(s, ","@)->0;
    if p < n {
        assert(s.subrange(p, p + 1)[0] == a[p]);
        assert(","@[0] == ',');
    }
    assert(s.take(n) =~= a);
    assert(s.skip(n + 1) =~= b);
}

/// What the environment does not set stays as the file has it, and what it sets
/// wins: the cap, the chain, and the binds that come behind those of the file.
pub proof fn the_environment_wins_where_it_speaks(
    out: SmppConfig,
    cfg: SmppConfig,
    vars: Seq<(String, String)>,
    raw: Seq<char>,
    n: nat,
)
    requires
        is_with_environment(out, cfg, vars),
    ensures
        out.server.bind_address == cfg.server.bind_address,
        out.server.port == cfg.server.port,
        out.server.session_init_timer_ms == cfg.server.session_init_timer_ms,
        out.server.enquire_link_timer_ms == cfg.server.enquire_link_timer_ms,
        out.server.inactivity_timer_ms == cfg.server.inactivity_timer_ms,
        out.server.response_timer_ms == cfg.server.response_timer_ms,
        out.server.tls == cfg.server.tls,
        out.bind_address == cfg.bind_address,
        out.port == cfg.port,
        out.routing.rules == cfg.routing.rules,
        env_value(vars, "SMPP_SERVER_MAX_MPS"@) is None ==> out.server.max_msg_per_sec
            == cfg.server.max_msg_per_sec,
        env_value(vars, "SMPP_SERVER_MAX_MPS"@) == Some(raw) && text::trimmed(raw)
            == numbers::decimal(n) && n <= u32::MAX ==> out.server.max_msg_per_sec == n,
        env_value(vars, "SMPP_SERVER_MAX_MPS"@) == Some(raw) && numbers::read_uint(
            text::trimmed(raw),
            u32::MAX as nat,
        ) is Err ==> out.server.max_msg_per_sec == cfg.server.max_msg_per_sec,
        env_value(vars, "SMPP_SERVER_THROTTLE_ACTION"@) is None ==> out.server.throttle_action
            == cfg.server.throttle_action,
        env_value(vars, "SMPP_SERVER_THROTTLE_ACTION"@) == Some(raw) && text::lowercase(
            text::trimmed(raw),
        ) == "pace"@ ==> out.server.throttle_action == ThrottleAction::Pace,
        env_value(vars, "SMPP_SERVER_THROTTLE_ACTION"@) == Some(raw) && text::lowercase(
            text::trimmed(raw),
        ) == "reject"@ ==> out.server.throttle_action == ThrottleAction::Reject,
        env_value(vars, "SMPP_SERVER_THROTTLE_ACTION"@) == Some(raw) && text::lowercase(
            text::trimmed(raw),
        ) != "pace"@ && text::lowercase(text::trimmed(raw)) != "reject"@
            ==> out.server.throttle_action == cfg.server.throttle_action,
        env_value(vars, "SMPP_DEFAULT_CHAIN"@) is None ==> order::texts(
            out.routing.default_chain@,
        ) == order::texts(cfg.routing.default_chain@),
        env_value(vars, "SMPP_DEFAULT_CHAIN"@) == Some(raw) ==> order::texts(
            out.routing.default_chain@,
        ) == chain_of(raw),
        out.binds@.len() == cfg.binds@.len() + declared_binds(vars).len(),
        forall|i: int| 0 <= i < cfg.binds@.len() ==> #[trigger] out.binds@[i] == cfg.binds@[i],
        forall|i: int|
            cfg.binds@.len() <= i < out.binds@.len() ==> is_env_bind(
                #[trigger] out.binds@[i],
                vars,
                declared_binds(vars)[i - cfg.binds@.len()],
            ),
{
    let m = cfg.binds@.len() as int;
    if n <= u32::MAX {
        numbers::decimal_reads_back(n, u32::MAX as nat);
    }
    reveal_strlit("pace");
    reveal_strlit("reject");
    assert("pace"@.len() != "reject"@.len());
    assert forall|i: int| 0 <= i < m implies #[trigger] out.binds@[i] == cfg.binds@[i] by {
        assert(out.binds@.take(m)[i] == out.binds@[i]);
    }
    assert forall|i: int| m <= i < out.binds@.len() implies is_env_bind(
        #[trigger] out.binds@[i],
        vars,
        declared_binds(vars)[i - m],
    ) by {
        assert(out.binds@.skip(m)[i - m] == out.binds@[i]);
    }
}

} // verus!
