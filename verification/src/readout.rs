//! The configuration as the script reads it: `siphon.smpp.config()`.
//!
//! The shape mirrors [`SmppConfig`], with one deliberate gap: no password ever
//! shows. The runtime side handles bind authentication; if a script needs a bind
//! identity, its name is the handle.
use crate::config::{BindConfig, RoutingRule, SmppConfig};
use crate::order;
use vstd::prelude::*;

verus! {

/// A value that the script reads.
#[derive(Debug)]
pub enum Node {
    Text(String),
    Int(u64),
    List(Vec<Node>),
    /// Keys in order, with their values.
    Dict(Vec<(String, Node)>),
}

/// What a [`Node`] holds.
#[verifier::ext_equal]
pub enum Tree {
    Text(Seq<char>),
    Int(int),
    List(Seq<Tree>),
    Dict(Seq<(Seq<char>, Tree)>),
}

impl Node {
    /// What the node holds.
    pub open spec fn tree(self) -> Tree
        decreases self,
    {
        match self {
            Node::Text(s) => Tree::Text(s@),
            Node::Int(n) => Tree::Int(n as int),
            Node::List(v) => Tree::List(
                Seq::new(
                    v@.len(),
                    |i: int|
                        if 0 <= i < v@.len() {
                            v@[i].tree()
                        } else {
                            Tree::Int(0)
                        },
                ),
            ),
            Node::Dict(v) => Tree::Dict(
                Seq::new(
                    v@.len(),
                    |i: int|
                        if 0 <= i < v@.len() {
                            (v@[i].0@, v@[i].1.tree())
                        } else {
                            (Seq::empty(), Tree::Int(0))
                        },
                ),
            ),
        }
    }
}

/// What the nodes of a list hold.
pub open spec fn trees(v: Seq<Node>) -> Seq<Tree> {
    v.map_values(|n: Node| n.tree())
}

/// What the entries of a dict hold.
pub open spec fn entries(v: Seq<(String, Node)>) -> Seq<(Seq<char>, Tree)> {
    v.map_values(|e: (String, Node)| (e.0@, e.1.tree()))
}

fn list(v: Vec<Node>) -> (n: Node)
    ensures
        n.tree() == Tree::List(trees(v@)),
{
    let ghost all = trees(v@);
    let n: Node = Node::List(v);
    assert(n.tree()->List_0 =~= all);
    n
}

fn dict(v: Vec<(String, Node)>) -> (n: Node)
    ensures
        n.tree() == Tree::Dict(entries(v@)),
{
    let ghost all = entries(v@);
    let n: Node = Node::Dict(v);
    assert(n.tree()->Dict_0 =~= all);
    n
}

fn put(d: &mut Vec<(String, Node)>, key: &str, value: Node)
    ensures
        entries(final(d)@) == entries(old(d)@).push((key@, value.tree())),
{
    let ghost was = d@;
    let ghost added = value.tree();
    d.push((key.to_owned(), value));
    assert(entries(d@) =~= entries(was).push((key@, added)));
}

fn put_text(d: &mut Vec<(String, Node)>, key: &str, value: &str)
    ensures
        entries(final(d)@) == entries(old(d)@).push((key@, Tree::Text(value@))),
{
    put(d, key, Node::Text(value.to_owned()));
}

fn put_int(d: &mut Vec<(String, Node)>, key: &str, value: u64)
    ensures
        entries(final(d)@) == entries(old(d)@).push((key@, Tree::Int(value as int))),
{
    put(d, key, Node::Int(value));
}

/// A list of texts.
pub open spec fn text_list(v: Seq<String>) -> Tree {
    Tree::List(order::texts(v).map_values(|t: Seq<char>| Tree::Text(t)))
}

fn texts_node(v: &Vec<String>) -> (n: Node)
    ensures
        n.tree() == text_list(v@),
{
    let mut out: Vec<Node> = Vec::new();
    let mut i: usize = 0;
    while i < v.len()
        invariant
            i <= v@.len(),
            out@.len() == i,
            forall|j: int| 0 <= j < i ==> (#[trigger] out@[j]).tree() == Tree::Text(v@[j]@),
        decreases v@.len() - i,
    {
        out.push(Node::Text(v[i].clone()));
        i = i + 1;
    }
    assert(trees(out@) =~= order::texts(v@).map_values(|t: Seq<char>| Tree::Text(t)));
    list(out)
}

/// The listener as the script reads it: the resolved address, the timers and the
/// throttle.
pub open spec fn server_tree(cfg: SmppConfig) -> Tree {
    Tree::Dict(
        seq![
            ("bind_address"@, Tree::Text(cfg.listen_host())),
            ("port"@, Tree::Int(cfg.listen_port() as int)),
            ("session_init_timer_ms"@, Tree::Int(cfg.server.session_init_timer_ms as int)),
            ("enquire_link_timer_ms"@, Tree::Int(cfg.server.enquire_link_timer_ms as int)),
            ("inactivity_timer_ms"@, Tree::Int(cfg.server.inactivity_timer_ms as int)),
            ("response_timer_ms"@, Tree::Int(cfg.server.response_timer_ms as int)),
            ("max_msg_per_sec"@, Tree::Int(cfg.server.max_msg_per_sec as int)),
            ("throttle_action"@, Tree::Text(cfg.server.throttle_action.label())),
        ],
    )
}

/// A bind as the script reads it, without its password.
pub open spec fn bind_tree(b: BindConfig) -> Tree {
    Tree::Dict(
        seq![
            ("name"@, Tree::Text(b.name@)),
            ("host"@, Tree::Text(b.host@)),
            ("port"@, Tree::Int(b.port as int)),
            ("system_id"@, Tree::Text(b.system_id@)),
            ("system_type"@, Tree::Text(b.system_type@)),
            ("bind_type"@, Tree::Text(b.bind_type@)),
            ("max_msg_per_sec"@, Tree::Int(b.max_msg_per_sec as int)),
        ],
    )
}

/// The metadata of a rule: each key with its text.
pub open spec fn options_tree(options: Seq<(String, String)>) -> Tree {
    Tree::Dict(options.map_values(|o: (String, String)| (o.0@, Tree::Text(o.1@))))
}

/// A routing rule as the script reads it.
pub open spec fn rule_tree(r: RoutingRule) -> Tree {
    Tree::Dict(
        seq![
            ("prefix"@, Tree::Text(r.prefix@)),
            ("name"@, Tree::Text(r.name@)),
            ("chain"@, text_list(r.chain@)),
            ("options"@, options_tree(r.options@)),
        ],
    )
}

/// The configuration as the script reads it.
pub open spec fn config_tree(cfg: SmppConfig) -> Tree {
    Tree::Dict(
        seq![
            ("server"@, server_tree(cfg)),
            ("binds"@, Tree::List(cfg.binds@.map_values(|b: BindConfig| bind_tree(b)))),
            (
                "routing"@,
                Tree::Dict(
                    seq![
                        ("default_chain"@, text_list(cfg.routing.default_chain@)),
                        (
                            "rules"@,
                            Tree::List(
                                cfg.routing.rules@.map_values(|r: RoutingRule| rule_tree(r)),
                            ),
                        ),
                    ],
                ),
            ),
        ],
    )
}

fn server_node(cfg: &SmppConfig) -> (n: Node)
    ensures
        n.tree() == server_tree(*cfg),
{
    let (host, port) = cfg.listen();
    let mut d: Vec<(String, Node)> = Vec::new();
    put_text(&mut d, "bind_address", host.as_str());
    put_int(&mut d, "port", port as u64);
    put_int(&mut d, "session_init_timer_ms", cfg.server.session_init_timer_ms);
    put_int(&mut d, "enquire_link_timer_ms", cfg.server.enquire_link_timer_ms);
    put_int(&mut d, "inactivity_timer_ms", cfg.server.inactivity_timer_ms);
    put_int(&mut d, "response_timer_ms", cfg.server.response_timer_ms);
    put_int(&mut d, "max_msg_per_sec", cfg.server.max_msg_per_sec as u64);
    put_text(&mut d, "throttle_action", cfg.server.throttle_action.as_str());
    assert(entries(d@) =~= server_tree(*cfg)->Dict_0);
    dict(d)
}

fn bind_node(b: &BindConfig) -> (n: Node)
    ensures
        n.tree() == bind_tree(*b),
{
    let mut d: Vec<(String, Node)> = Vec::new();
    put_text(&mut d, "name", b.name.as_str());
    put_text(&mut d, "host", b.host.as_str());
    put_int(&mut d, "port", b.port as u64);
    put_text(&mut d, "system_id", b.system_id.as_str());
    put_text(&mut d, "system_type", b.system_type.as_str());
    put_text(&mut d, "bind_type", b.bind_type.as_str());
    put_int(&mut d, "max_msg_per_sec", b.max_msg_per_sec as u64);
    assert(entries(d@) =~= bind_tree(*b)->Dict_0);
    dict(d)
}

fn options_node(options: &Vec<(String, String)>) -> (n: Node)
    ensures
        n.tree() == options_tree(options@),
{
    let mut d: Vec<(String, Node)> = Vec::new();
    let mut i: usize = 0;
    while i < options.len()
        invariant
            i <= options@.len(),
            entries(d@) == options_tree(options@.take(i as int))->Dict_0,
        decreases options@.len() - i,
    {
        put_text(&mut d, options[i].0.as_str(), options[i].1.as_str());
        i = i + 1;
        assert(entries(d@) =~= options_tree(options@.take(i as int))->Dict_0);
    }
    assert(options@.take(i as int) =~= options@);
    dict(d)
}

fn rule_node(r: &RoutingRule) -> (n: Node)
    ensures
        n.tree() == rule_tree(*r),
{
    let mut d: Vec<(String, Node)> = Vec::new();
    put_text(&mut d, "prefix", r.prefix.as_str());
    put_text(&mut d, "name", r.name.as_str());
    put(&mut d, "chain", texts_node(&r.chain));
    put(&mut d, "options", options_node(&r.options));
    assert(entries(d@) =~= rule_tree(*r)->Dict_0);
    dict(d)
}

/// The `_config` dict that the script reads via `siphon.smpp.config()`.
pub fn build_config_dict(cfg: &SmppConfig) -> (n: Node)
    ensures
        n.tree() == config_tree(*cfg),
{
    let mut binds: Vec<Node> = Vec::new();
    let mut i: usize = 0;
    while i < cfg.binds.len()
        invariant
            i <= cfg.binds@.len(),
            binds@.len() == i,
            forall|j: int| 0 <= j < i ==> (#[trigger] binds@[j]).tree() == bind_tree(cfg.binds@[j]),
        decreases cfg.binds@.len() - i,
    {
        binds.push(bind_node(&cfg.binds[i]));
        i = i + 1;
    }
    assert(trees(binds@) =~= cfg.binds@.map_values(|b: BindConfig| bind_tree(b)));
    let mut rules: Vec<Node> = Vec::new();
    let mut k: usize = 0;
    while k < cfg.routing.rules.len()
        invariant
            k <= cfg.routing.rules@.len(),
            rules@.len() == k,
            forall|j: int|
                0 <= j < k ==> (#[trigger] rules@[j]).tree() == rule_tree(cfg.routing.rules@[j]),
        decreases cfg.routing.rules@.len() - k,
    {
        rules.push(rule_node(&cfg.routing.rules[k]));
        k = k + 1;
    }
    assert(trees(rules@) =~= cfg.routing.rules@.map_values(|r: RoutingRule| rule_tree(r)));
    let mut routing: Vec<(String, Node)> = Vec::new();
    put(&mut routing, "default_chain", texts_node(&cfg.routing.default_chain));
    put(&mut routing, "rules", list(rules));
    assert(entries(routing@) =~= config_tree(*cfg)->Dict_0[2].1->Dict_0);
    let mut d: Vec<(String, Node)> = Vec::new();
    put(&mut d, "server", server_node(cfg));
    put(&mut d, "binds", list(binds));
    put(&mut d, "routing", dict(routing));
    assert(entries(d@) =~= config_tree(*cfg)->Dict_0);
    dict(d)
}

// ── What is promised of the readout ──────────────────────────────────────

/// Whether two binds differ in their passwords at most.
pub open spec fn same_but_password(a: BindConfig, b: BindConfig) -> bool {
    a == BindConfig { password: a.password, ..b }
}

/// No password can be told from what the script reads: two configurations that
/// differ in the passwords of their binds read the same.
pub proof fn passwords_never_show(a: SmppConfig, b: SmppConfig)
    requires
        a.server == b.server,
        a.routing == b.routing,
        a.bind_address == b.bind_address,
        a.port == b.port,
        a.binds@.len() == b.binds@.len(),
        forall|i: int|
            0 <= i < a.binds@.len() ==> same_but_password(#[trigger] a.binds@[i], b.binds@[i]),
    ensures
        config_tree(a) == config_tree(b),
{
    let x = a.binds@.map_values(|t: BindConfig| bind_tree(t));
    let y = b.binds@.map_values(|t: BindConfig| bind_tree(t));
    assert forall|i: int| 0 <= i < x.len() implies x[i] == y[i] by {
        assert(same_but_password(a.binds@[i], b.binds@[i]));
    }
    assert(x =~= y);
}

/// Whether a dict holds `value` under `key`.
pub open spec fn shows(t: Tree, key: Seq<char>, value: Tree) -> bool {
    t matches Tree::Dict(d) && d.contains((key, value))
}

/// Under each key of the listener the script reads the setting of that name, and
/// there is nothing else to read.
pub proof fn the_listener_reads_by_its_names(cfg: SmppConfig)
    ensures
        ({
            let t = server_tree(cfg);
            &&& t->Dict_0.len() == 8
            &&& shows(t, "bind_address"@, Tree::Text(cfg.listen_host()))
            &&& shows(t, "port"@, Tree::Int(cfg.listen_port() as int))
            &&& shows(
                t,
                "session_init_timer_ms"@,
                Tree::Int(cfg.server.session_init_timer_ms as int),
            )
            &&& shows(
                t,
                "enquire_link_timer_ms"@,
                Tree::Int(cfg.server.enquire_link_timer_ms as int),
            )
            &&& shows(t, "inactivity_timer_ms"@, Tree::Int(cfg.server.inactivity_timer_ms as int))
            &&& shows(t, "response_timer_ms"@, Tree::Int(cfg.server.response_timer_ms as int))
            &&& shows(t, "max_msg_per_sec"@, Tree::Int(cfg.server.max_msg_per_sec as int))
            &&& shows(
                t,
                "throttle_action"@,
                Tree::Text(
                    if cfg.server.throttle_action is Pace {
                        "pace"@
                    } else {
                        "reject"@
                    },
                ),
            )
        }),
{
    let d = server_tree(cfg)->Dict_0;
    assert(d.contains(d[0]) && d.contains(d[1]) && d.contains(d[2]) && d.contains(d[3]));
    assert(d.contains(d[4]) && d.contains(d[5]) && d.contains(d[6]) && d.contains(d[7]));
}

/// Under each key of a bind or a rule the script reads the setting of that name,
/// and there is nothing else to read.
pub proof fn binds_and_rules_read_by_their_names(b: BindConfig, r: RoutingRule)
    ensures
        ({
            let t = bind_tree(b);
            &&& t->Dict_0.len() == 7
            &&& shows(t, "name"@, Tree::Text(b.name@))
            &&& shows(t, "host"@, Tree::Text(b.host@))
            &&& shows(t, "port"@, Tree::Int(b.port as int))
            &&& shows(t, "system_id"@, Tree::Text(b.system_id@))
            &&& shows(t, "system_type"@, Tree::Text(b.system_type@))
            &&& shows(t, "bind_type"@, Tree::Text(b.bind_type@))
            &&& shows(t, "max_msg_per_sec"@, Tree::Int(b.max_msg_per_sec as int))
        }),
        ({
            let t = rule_tree(r);
            &&& t->Dict_0.len() == 4
            &&& shows(t, "prefix"@, Tree::Text(r.prefix@))
            &&& shows(t, "name"@, Tree::Text(r.name@))
            &&& shows(t, "chain"@, text_list(r.chain@))
            &&& shows(t, "options"@, options_tree(r.options@))
        }),
{
    let d = bind_tree(b)->Dict_0;
    assert(d.contains(d[0]) && d.contains(d[1]) && d.contains(d[2]) && d.contains(d[3]));
    assert(d.contains(d[4]) && d.contains(d[5]) && d.contains(d[6]));
    let e = rule_tree(r)->Dict_0;
    assert(e.contains(e[0]) && e.contains(e[1]) && e.contains(e[2]) && e.contains(e[3]));
}

/// Lists read one for one and in order: the binds, the rules, the steps of a
/// chain and the options of a rule.
pub proof fn lists_read_in_their_order(cfg: SmppConfig, r: RoutingRule, i: int)
    ensures
        config_tree(cfg)->Dict_0.len() == 3,
        shows(config_tree(cfg), "server"@, server_tree(cfg)),
        exists|binds: Seq<Tree>|
            #[trigger] shows(config_tree(cfg), "binds"@, Tree::List(binds)) && binds.len()
                == cfg.binds@.len() && (0 <= i < binds.len() ==> binds[i] == bind_tree(
                cfg.binds@[i],
            )),
        exists|routing: Tree, rules: Seq<Tree>|
            shows(config_tree(cfg), "routing"@, routing) && shows(
                routing,
                "default_chain"@,
                text_list(cfg.routing.default_chain@),
            ) && #[trigger] shows(routing, "rules"@, Tree::List(rules)) && rules.len()
                == cfg.routing.rules@.len() && (0 <= i < rules.len() ==> rules[i] == rule_tree(
                cfg.routing.rules@[i],
            )),
        text_list(r.chain@)->List_0.len() == r.chain@.len(),
        0 <= i < r.chain@.len() ==> text_list(r.chain@)->List_0[i] == Tree::Text(r.chain@[i]@),
        options_tree(r.options@)->Dict_0.len() == r.options@.len(),
        0 <= i < r.options@.len() ==> options_tree(r.options@)->Dict_0[i] == (
            r.options@[i].0@,
            Tree::Text(r.options@[i].1@),
        ),
{
    let d = config_tree(cfg)->Dict_0;
    assert(d.contains(d[0]) && d.contains(d[1]) && d.contains(d[2]));
    let binds = cfg.binds@.map_values(|b: BindConfig| bind_tree(b));
    assert(shows(config_tree(cfg), "binds"@, Tree::List(binds)));
    let routing = d[2].1;
    let rules = cfg.routing.rules@.map_values(|r: RoutingRule| rule_tree(r));
    let e = routing->Dict_0;
    assert(e.contains(e[0]) && e.contains(e[1]));
    assert(shows(config_tree(cfg), "routing"@, routing));
    assert(shows(routing, "default_chain"@, text_list(cfg.routing.default_chain@)));
    assert(shows(routing, "rules"@, Tree::List(rules)));
}

} // verus!
