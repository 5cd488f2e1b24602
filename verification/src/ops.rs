//! The operations of the proxy manager on a configuration and a Docker
//! engine.
use crate::config::{
    Config, ConfigView, Container, ContainerView, Route, RouteView, DEFAULT_PORT,
    containers_view, routes_view, match_index, named_index, route_index, spec_add_or_update,
    spec_set_route, opt_view, spec_find_named, is_first_route, lemma_set_route_then_find,
    spec_find_route, routes_without_target, targets_other_than, retain_routes_not_targeting,
    lemma_filter_contains_iff,
};
use crate::docker::{
    DockerRuntime, Engine, Exchange, NetworkInfo, RuntimeError, continues, lemma_since_concat,
    lemma_since_push, lemma_since_same, since,
};
use crate::nginx::{generate_nginx_config, render_dockerfile, spec_dockerfile, spec_nginx_config, plain_style};
use crate::text::{
    decimal, push_decimal, string_views, lowercase, to_lowercase, contains_seq, str_contains,
};
use vstd::prelude::*;

verus! {

/// Why an operation failed.
#[derive(Debug, Clone, PartialEq, Eq)]
pub enum OpsError {
    /// The configuration holds no container.
    NoContainers,
    /// The configuration holds no route.
    NoRoutes,
    /// No container is named or labelled by the identifier.
    ContainerNotFound(String),
    /// The Docker engine failed.
    Runtime(RuntimeError),
}

/// Whether switching a port added a route or changed one.
#[derive(Debug, Clone, Copy, PartialEq, Eq, Structural)]
pub enum SwitchResult {
    Added,
    Updated,
}

/// What adding a container did.
#[derive(Debug, Clone, PartialEq, Eq)]
pub struct AddOutcome {
    /// A container of that name existed and was updated.
    pub updated: bool,
    /// The network found for the container, when none was given.
    pub detected_network: Option<String>,
}

/// The state of one route.
#[derive(Debug, Clone, PartialEq, Eq)]
pub struct RouteStatus {
    pub host_port: u16,
    pub target: String,
    pub internal_port: u16,
    /// No configured container has the target's name.
    pub missing: bool,
}

/// The state of the proxy and its routes.
#[derive(Debug, Clone, PartialEq, Eq)]
pub struct StatusInfo {
    pub proxy_name: String,
    pub status: Option<String>,
    pub routes: Vec<RouteStatus>,
}

/// The files from which the proxy image is built.
#[derive(Debug, Clone, PartialEq, Eq)]
pub struct BuildFiles {
    /// The contents of `nginx.conf`.
    pub nginx_conf: String,
    /// The contents of `Dockerfile`.
    pub dockerfile: String,
}

/// What starting the proxy did.
#[derive(Debug, Clone, PartialEq, Eq)]
pub enum StartOutcome {
    /// The proxy container existed already and was left as it is; it
    /// listens on these ports.
    AlreadyRunning(Vec<u16>),
    /// The image was built and the proxy run and connected.
    Started(LaunchReport),
}

impl OpsError {
    /// The message that the command line shows for the error.
    pub fn message(&self) -> (r: String)
        ensures
            r@ == spec_error_message(*self),
    {
        match self {
            OpsError::NoContainers => NO_CONTAINERS_MESSAGE.to_owned(),
            OpsError::NoRoutes => NO_ROUTES_MESSAGE.to_owned(),
            OpsError::ContainerNotFound(id) => {
                let mut s = CONTAINER_PREFIX.to_owned();
                s.append(id.as_str());
                s.append(NOT_FOUND_SUFFIX);
                s
            },
            OpsError::Runtime(e) => e.message.clone(),
        }
    }
}

/// The message for a configuration without containers.
pub const NO_CONTAINERS_MESSAGE: &'static str = "No containers configured. Use 'add' command first.";

/// The message for a configuration without routes.
pub const NO_ROUTES_MESSAGE: &'static str = "No routes configured. Use 'switch' command first.";

/// The start of the message for an unknown container.
pub const CONTAINER_PREFIX: &'static str = "Container '";

/// The end of the message for an unknown container.
pub const NOT_FOUND_SUFFIX: &'static str = "' not found in config";

/// The message that the command line shows for an error.
pub open spec fn spec_error_message(e: OpsError) -> Seq<char> {
    match e {
        OpsError::NoContainers => NO_CONTAINERS_MESSAGE@,
        OpsError::NoRoutes => NO_ROUTES_MESSAGE@,
        OpsError::ContainerNotFound(id) => CONTAINER_PREFIX@ + id@ + NOT_FOUND_SUFFIX@,
        OpsError::Runtime(e) => e.message@,
    }
}

/// The configuration with `cs` as its containers.
pub open spec fn with_containers(c: ConfigView, cs: Seq<ContainerView>) -> ConfigView {
    ConfigView { containers: cs, ..c }
}

/// The configuration with `rs` as its routes.
pub open spec fn with_routes(c: ConfigView, rs: Seq<RouteView>) -> ConfigView {
    ConfigView { routes: rs, ..c }
}

/// The predicate that keeps containers not named `name`.
pub open spec fn named_other_than(name: Seq<char>) -> spec_fn(ContainerView) -> bool {
    |c: ContainerView| c.name != name
}

/// The predicate that keeps routes not from `port`.
pub open spec fn port_other_than(port: u16) -> spec_fn(RouteView) -> bool {
    |r: RouteView| r.host_port != port
}

/// The containers not named `name`, in order.
fn keep_containers_not_named(cs: &Vec<Container>, name: &String) -> (r: Vec<Container>)
    ensures
        containers_view(r@) == containers_view(cs@).filter(named_other_than(name@)),
{
    let mut out: Vec<Container> = Vec::new();
    let ghost v = containers_view(cs@);
    let mut i: usize = 0;
    while i < cs.len()
        invariant
            0 <= i <= cs.len(),
            v == containers_view(cs@),
            containers_view(out@) == v.take(i as int).filter(named_other_than(name@)),
        decreases cs.len() - i,
    {
        proof {
            assert(v.take(i + 1) =~= v.take(i as int).push(v[i as int]));
            v.take(i as int).lemma_filter_push(v[i as int], named_other_than(name@));
        }
        if cs[i].name != *name {
            let ghost before = out@;
            out.push(cs[i].copy());
            proof {
                assert(containers_view(out@) =~= containers_view(before).push(v[i as int]));
            }
        }
        i = i + 1;
    }
    proof {
        assert(v.take(cs.len() as int) =~= v);
    }
    out
}

/// The routes not from `port`, in order.
fn keep_routes_not_from(rs: &Vec<Route>, port: u16) -> (r: Vec<Route>)
    ensures
        routes_view(r@) == routes_view(rs@).filter(port_other_than(port)),
{
    let ghost p = port_other_than(port);
    let mut out: Vec<Route> = Vec::new();
    let ghost v = routes_view(rs@);
    let mut i: usize = 0;
    while i < rs.len()
        invariant
            0 <= i <= rs.len(),
            v == routes_view(rs@),
            p == port_other_than(port),
            routes_view(out@) == v.take(i as int).filter(p),
        decreases rs.len() - i,
    {
        proof {
            assert(v.take(i + 1) =~= v.take(i as int).push(v[i as int]));
            v.take(i as int).lemma_filter_push(v[i as int], p);
        }
        if rs[i].host_port != port {
            let ghost before = out@;
            out.push(rs[i].copy());
            proof {
                assert(routes_view(out@) =~= routes_view(before).push(v[i as int]));
            }
        }
        i = i + 1;
    }
    proof {
        assert(v.take(rs.len() as int) =~= v);
    }
    out
}

/// Adds a container, or sets each field given on the first container of
/// that name; tells whether a container of that name existed.
pub fn upsert_container(
    config: &mut Config,
    name: &str,
    label: Option<String>,
    port: Option<u16>,
    network: Option<String>,
) -> (existed: bool)
    ensures
        existed == named_index(old(config)@.containers, name@) is Some,
        final(config)@ == with_containers(
            old(config)@,
            spec_add_or_update(
                old(config)@.containers,
                ContainerView {
                    name: name@,
                    label: opt_view(label),
                    port,
                    network: opt_view(network),
                },
            ),
        ),
{
    let n = name.to_owned();
    let existed = config.index_of_named(&n).is_some();
    config.add_or_update_container(Container { name: n, label, port, network });
    existed
}

/// The configuration after removing every container named like the first
/// container that `id` names or labels, with every route to it.
pub open spec fn spec_ops_remove_container(c: ConfigView, id: Seq<char>) -> ConfigView {
    match match_index(c.containers, id) {
        Some(i) => ConfigView {
            containers: c.containers.filter(named_other_than(c.containers[i].name)),
            routes: routes_without_target(c.routes, c.containers[i].name),
            ..c
        },
        None => c,
    }
}

/// Removes every container named like the first container that
/// `identifier` names or labels, and every route to it; gives that name.
pub fn remove_container(config: &mut Config, identifier: &str) -> (r: Option<String>)
    ensures
        final(config)@ == spec_ops_remove_container(old(config)@, identifier@),
        match match_index(old(config)@.containers, identifier@) {
            Some(i) => r matches Some(n) && n@ == old(config)@.containers[i].name,
            None => r is None,
        },
{
    let id = identifier.to_owned();
    match config.index_of_container(&id) {
        Some(i) => {
            let name = config.containers[i].name.clone();
            config.containers = keep_containers_not_named(&config.containers, &name);
            config.routes = retain_routes_not_targeting(&config.routes, &name);
            Some(name)
        },
        None => None,
    }
}

/// Routes a host port (the default port when none is given) to the
/// container that `identifier` names or labels.
pub fn switch_route(config: &mut Config, identifier: &str, host_port: Option<u16>) -> (r: Result<
    SwitchResult,
    OpsError,
>)
    ensures
        match match_index(old(config)@.containers, identifier@) {
            None => r matches Err(OpsError::ContainerNotFound(id)) && id@ == identifier@
                && final(config)@ == old(config)@,
            Some(i) => {
                let port = match host_port {
                    Some(p) => p,
                    None => DEFAULT_PORT,
                };
                &&& final(config)@ == with_routes(
                    old(config)@,
                    spec_set_route(old(config)@.routes, port, old(config)@.containers[i].name),
                )
                &&& r == Ok::<SwitchResult, OpsError>(
                    if route_index(old(config)@.routes, port) is Some {
                        SwitchResult::Updated
                    } else {
                        SwitchResult::Added
                    },
                )
            },
        },
{
    let id = identifier.to_owned();
    let i = match config.index_of_container(&id) {
        Some(i) => i,
        None => return Err(OpsError::ContainerNotFound(id)),
    };
    let name = config.containers[i].name.clone();
    let port = match host_port {
        Some(p) => p,
        None => DEFAULT_PORT,
    };
    let existed = config.index_of_route(port).is_some();
    config.set_route(port, name.as_str());
    if existed {
        Ok(SwitchResult::Updated)
    } else {
        Ok(SwitchResult::Added)
    }
}

/// The port of the last route to `name`, if any.
pub open spec fn last_route_port(rs: Seq<RouteView>, name: Seq<char>) -> Option<u16>
    decreases rs.len(),
{
    if rs.len() == 0 {
        None
    } else if rs.last().target == name {
        Some(rs.last().host_port)
    } else {
        last_route_port(rs.drop_last(), name)
    }
}

/// Text pieces of a container's line.
pub const AT: &'static str = "@";
pub const LABEL_SEPARATOR: &'static str = " - ";
pub const PORT_OPEN: &'static str = " (port ";
pub const PORT_CLOSE: &'static str = ")";
pub const COLON: &'static str = ":";

/// The line that describes a container: name, port and network, then its
/// label and the host port routed to it when it has them.
pub open spec fn container_line(c: ConfigView, cv: ContainerView) -> Seq<char> {
    cv.name + COLON@ + decimal(cv.port_or_default() as nat) + AT@ + cv.network_or(c.network) + (
    match cv.label {
        Some(l) => LABEL_SEPARATOR@ + l,
        None => Seq::empty(),
    }) + (match last_route_port(c.routes, cv.name) {
        Some(p) => PORT_OPEN@ + decimal(p as nat) + PORT_CLOSE@,
        None => Seq::empty(),
    })
}

/// The port of the last route to `name`, if any.
pub fn last_route_port_of(routes: &Vec<Route>, name: &String) -> (r: Option<u16>)
    ensures
        r == last_route_port(routes_view(routes@), name@),
{
    let ghost v = routes_view(routes@);
    let mut k: usize = routes.len();
    proof {
        assert(v.take(k as int) =~= v);
    }
    while k > 0
        invariant
            k <= routes.len(),
            v == routes_view(routes@),
            last_route_port(v, name@) == last_route_port(v.take(k as int), name@),
        decreases k,
    {
        proof {
            assert(v.take(k as int).drop_last() =~= v.take(k - 1));
            assert(v.take(k as int).last() == v[k - 1]);
        }
        if routes[k - 1].target == *name {
            return Some(routes[k - 1].host_port);
        }
        k = k - 1;
    }
    None
}

/// The line that describes a container.
pub fn render_container_line(config: &Config, c: &Container) -> (r: String)
    ensures
        r@ == container_line(config@, c@),
{
    let mut s = c.name.clone();
    s.append(COLON);
    push_decimal(&mut s, c.get_port() as u64);
    s.append(AT);
    match &c.network {
        Some(n) => s.append(n.as_str()),
        None => s.append(config.network.as_str()),
    }
    match &c.label {
        Some(l) => {
            s.append(LABEL_SEPARATOR);
            s.append(l.as_str());
        },
        None => {},
    }
    match last_route_port_of(&config.routes, &c.name) {
        Some(p) => {
            s.append(PORT_OPEN);
            push_decimal(&mut s, p as u64);
            s.append(PORT_CLOSE);
        },
        None => {},
    }
    proof {
        assert(s@ =~= container_line(config@, c@));
    }
    s
}

/// One line for each configured container, in order.
pub fn list_containers(config: &Config) -> (r: Vec<String>)
    ensures
        string_views(r@) == config@.containers.map_values(|cv: ContainerView| container_line(config@, cv)),
{
    let mut lines: Vec<String> = Vec::new();
    let mut i: usize = 0;
    while i < config.containers.len()
        invariant
            0 <= i <= config.containers.len(),
            lines.len() == i,
            forall|k: int| 0 <= k < i ==> (#[trigger] lines@[k])@ == container_line(config@, config@.containers[k]),
        decreases config.containers.len() - i,
    {
        lines.push(render_container_line(config, &config.containers[i]));
        i = i + 1;
    }
    proof {
        assert(string_views(lines@) =~= config@.containers.map_values(|cv: ContainerView| container_line(config@, cv)));
    }
    lines
}

/// Fails when no container is configured.
pub fn ensure_has_containers(config: &Config) -> (r: Result<(), OpsError>)
    ensures
        r == (if config@.containers.len() == 0 {
            Err::<(), OpsError>(OpsError::NoContainers)
        } else {
            Ok(())
        }),
{
    if config.containers.len() == 0 {
        return Err(OpsError::NoContainers);
    }
    Ok(())
}

/// Fails when no route is configured.
pub fn ensure_has_routes(config: &Config) -> (r: Result<(), OpsError>)
    ensures
        r == (if config@.routes.len() == 0 {
            Err::<(), OpsError>(OpsError::NoRoutes)
        } else {
            Ok(())
        }),
{
    if config.routes.len() == 0 {
        return Err(OpsError::NoRoutes);
    }
    Ok(())
}

/// The name of the proxy container.
pub fn proxy_name(config: &Config) -> (r: &str)
    ensures
        r@ == config@.proxy_name,
{
    config.proxy_name.as_str()
}

/// The tag of the proxy image.
pub fn proxy_image(config: &Config) -> (r: String)
    ensures
        r@ == config@.proxy_image(),
{
    config.get_proxy_image()
}

/// The host ports the proxy listens on.
pub fn host_ports(config: &Config) -> (r: Vec<u16>)
    ensures
        r@ == config@.host_ports(),
{
    config.get_all_host_ports()
}

/// Whether a network of that name is listed.
pub fn has_network(nets: &Vec<NetworkInfo>, name: &str) -> (r: bool)
    ensures
        r == exists|i: int| 0 <= i < nets.len() && (#[trigger] nets@[i]).name@ == name@,
{
    let n = name.to_owned();
    let mut i: usize = 0;
    while i < nets.len()
        invariant
            0 <= i <= nets.len(),
            n@ == name@,
            forall|k: int| 0 <= k < i ==> (#[trigger] nets@[k]).name@ != name@,
        decreases nets.len() - i,
    {
        if nets[i].name == n {
            return true;
        }
        i = i + 1;
    }
    false
}

/// An answer of the engine, its failure turned into an error of the
/// operations.
pub open spec fn lift<T>(a: Result<T, RuntimeError>) -> Result<T, OpsError> {
    match a {
        Ok(v) => Ok(v),
        Err(e) => Err(OpsError::Runtime(e)),
    }
}

/// Whether a network of that name is among the listed ones.
pub open spec fn listed(nets: Seq<NetworkInfo>, name: Seq<char>) -> bool {
    exists|i: int| 0 <= i < nets.len() && (#[trigger] nets[i]).name@ == name
}

/// How ensuring the network `name` begins the record `ex`: the engine is
/// asked for its networks; its failure is the result; when `name` is not
/// listed, the network is created and the engine's answer to that is the
/// result. Gives the number of exchanges and the result, or nothing when
/// the record does not begin so.
pub open spec fn ensure_run(name: Seq<char>, ex: Seq<Exchange>) -> Option<(int, Result<(), OpsError>)> {
    if ex.len() == 0 {
        None
    } else {
        match ex[0] {
            Exchange::ListNetworks(Err(e)) => Some((1, Err(OpsError::Runtime(e)))),
            Exchange::ListNetworks(Ok(nets)) => if listed(nets@, name) {
                Some((1, Ok(())))
            } else if ex.len() >= 2 {
                match ex[1] {
                    Exchange::CreateNetwork(n, a) => if n == name {
                        Some((2, lift(a)))
                    } else {
                        None
                    },
                    _ => None,
                }
            } else {
                None
            },
            _ => None,
        }
    }
}

/// The result in a run's number of exchanges and result.
pub open spec fn outcome_of(run: Option<(int, Result<(), OpsError>)>) -> Result<(), OpsError> {
    match run {
        Some((_, res)) => res,
        None => Ok(()),
    }
}

/// What follows the exchanges of ensuring a network does not change them.
pub proof fn lemma_ensure_run_prefix(name: Seq<char>, ex: Seq<Exchange>, t: Seq<Exchange>)
    requires
        ensure_run(name, ex) is Some,
    ensures
        ensure_run(name, ex) matches Some((k, _)) && 1 <= k <= ex.len(),
        ensure_run(name, ex + t) == ensure_run(name, ex),
{
    assert((ex + t)[0] == ex[0]);
    if ex.len() >= 2 {
        assert((ex + t)[1] == ex[1]);
    }
}

/// Creates the network unless the engine lists it.
pub fn ensure_network<R: DockerRuntime>(engine: &mut Engine<R>, network: &str) -> (r: Result<(), OpsError>)
    ensures
        continues(old(engine).record@, final(engine).record@),
        ensure_run(network@, since(old(engine).record@, final(engine).record@)) == Some(
            (since(old(engine).record@, final(engine).record@).len() as int, r),
        ),
{
    let ghost e0 = engine.record@;
    let answer = engine.list_networks();
    let ghost e1 = engine.record@;
    proof {
        lemma_since_push(e0, Exchange::ListNetworks(answer));
    }
    let existing = match answer {
        Ok(v) => v,
        Err(e) => return Err(OpsError::Runtime(e)),
    };
    if !has_network(&existing, network) {
        let created = engine.create_network(network);
        proof {
            let e2 = engine.record@;
            lemma_since_push(e1, Exchange::CreateNetwork(network@, created));
            lemma_since_concat(e0, e1, e2);
            assert(since(e0, e2) =~= seq![
                Exchange::ListNetworks(Ok(existing)),
                Exchange::CreateNetwork(network@, created),
            ]);
        }
        match created {
            Ok(()) => {},
            Err(e) => return Err(OpsError::Runtime(e)),
        }
    }
    Ok(())
}

/// The networks among the first `k` containers: the configuration's own
/// network first, then each container's network the first time it occurs.
pub open spec fn networks_upto(c: ConfigView, k: nat) -> Seq<Seq<char>>
    decreases k,
{
    if k == 0 {
        seq![c.network]
    } else {
        let prev = networks_upto(c, (k - 1) as nat);
        match c.containers[k - 1].network {
            Some(n) => if prev.contains(n) {
                prev
            } else {
                prev.push(n)
            },
            None => prev,
        }
    }
}

/// The networks the proxy joins, each once: the configuration's network
/// first, then the containers' networks in order.
pub open spec fn spec_networks(c: ConfigView) -> Seq<Seq<char>> {
    networks_upto(c, c.containers.len())
}

/// Whether the list holds the text.
pub fn contains_string(v: &Vec<String>, s: &String) -> (r: bool)
    ensures
        r == string_views(v@).contains(s@),
{
    let mut i: usize = 0;
    while i < v.len()
        invariant
            0 <= i <= v.len(),
            forall|k: int| 0 <= k < i ==> (#[trigger] v@[k])@ != s@,
        decreases v.len() - i,
    {
        if v[i] == *s {
            proof {
                assert(string_views(v@)[i as int] == s@);
            }
            return true;
        }
        i = i + 1;
    }
    false
}

/// The networks the proxy joins, each once.
pub fn collect_networks(config: &Config) -> (r: Vec<String>)
    ensures
        string_views(r@) == spec_networks(config@),
{
    let mut nets: Vec<String> = Vec::new();
    nets.push(config.network.clone());
    proof {
        assert(string_views(nets@) =~= networks_upto(config@, 0));
    }
    let mut i: usize = 0;
    while i < config.containers.len()
        invariant
            0 <= i <= config.containers.len(),
            string_views(nets@) == networks_upto(config@, i as nat),
        decreases config.containers.len() - i,
    {
        match &config.containers[i].network {
            Some(n) => {
                if !contains_string(&nets, n) {
                    let ghost before = nets@;
                    nets.push(n.clone());
                    proof {
                        assert(string_views(nets@) =~= string_views(before).push(n@));
                    }
                }
            },
            None => {},
        }
        i = i + 1;
    }
    nets
}

/// How ensuring each of `names` in turn begins the record `ex`, stopping at
/// the first failure: the number of exchanges and the result, or nothing
/// when the record does not begin so.
pub open spec fn nets_run(names: Seq<Seq<char>>, ex: Seq<Exchange>) -> Option<(int, Result<(), OpsError>)>
    decreases names.len(),
{
    if names.len() == 0 {
        Some((0, Ok(())))
    } else {
        match ensure_run(names[0], ex) {
            Some((k, Ok(_))) => match nets_run(names.drop_first(), ex.skip(k)) {
                Some((m, res)) => Some((k + m, res)),
                None => None,
            },
            other => other,
        }
    }
}

/// What follows the exchanges of ensuring networks does not change them.
pub proof fn lemma_nets_run_prefix(names: Seq<Seq<char>>, ex: Seq<Exchange>, t: Seq<Exchange>)
    requires
        nets_run(names, ex) is Some,
    ensures
        nets_run(names, ex) matches Some((k, _)) && 0 <= k <= ex.len(),
        nets_run(names, ex + t) == nets_run(names, ex),
    decreases names.len(),
{
    if names.len() > 0 {
        lemma_ensure_run_prefix(names[0], ex, t);
        let step = ensure_run(names[0], ex)->0;
        let k = step.0;
        if step.1 is Ok {
            assert((ex + t).skip(k) =~= ex.skip(k) + t);
            lemma_nets_run_prefix(names.drop_first(), ex.skip(k), t);
        }
    }
}

/// Ensuring one more network after networks that were all ensured.
proof fn lemma_nets_run_append(names: Seq<Seq<char>>, x: Seq<char>, a: Seq<Exchange>, b: Seq<Exchange>)
    requires
        nets_run(names, a) == Some((a.len() as int, Ok::<(), OpsError>(()))),
        ensure_run(x, b) matches Some((k, _)) && k == b.len(),
    ensures
        nets_run(names.push(x), a + b) == Some(((a.len() + b.len()) as int, outcome_of(ensure_run(x, b)))),
    decreases names.len(),
{
    assert(names.push(x).drop_first() =~= if names.len() == 0 {
        Seq::empty()
    } else {
        names.drop_first().push(x)
    });
    if names.len() == 0 {
        assert(a.len() == 0);
        assert(a + b =~= b);
        assert(names.push(x)[0] == x);
        let step = ensure_run(x, b)->0;
        if step.1 is Ok {
            assert(b.skip(b.len() as int) =~= Seq::<Exchange>::empty());
            assert(nets_run(Seq::<Seq<char>>::empty(), b.skip(step.0)) == Some((0int, Ok::<(), OpsError>(()))));
        }
    } else {
        lemma_ensure_run_prefix(names[0], a, b);
        let step = ensure_run(names[0], a)->0;
        let k = step.0;
        assert(step.1 is Ok);
        assert(nets_run(names.drop_first(), a.skip(k)) == Some(((a.len() - k) as int, Ok::<(), OpsError>(()))));
        assert(a.skip(k).len() == a.len() - k);
        assert(names.push(x)[0] == names[0]);
        assert((a + b).skip(k) =~= a.skip(k) + b);
        lemma_nets_run_append(names.drop_first(), x, a.skip(k), b);
        assert(ensure_run(names.push(x)[0], a + b) == Some((k, Ok::<(), OpsError>(()))));
    }
}

/// A failure while ensuring networks ends the ensuring: later networks are
/// not asked for.
proof fn lemma_nets_run_failed(p: Seq<Seq<char>>, q: Seq<Seq<char>>, ex: Seq<Exchange>)
    requires
        nets_run(p, ex) matches Some((_, res)) && res is Err,
    ensures
        nets_run(p + q, ex) == nets_run(p, ex),
    decreases p.len(),
{
    assert((p + q)[0] == p[0]);
    let step = ensure_run(p[0], ex)->0;
    let k = step.0;
    if step.1 is Ok {
        assert((p + q).drop_first() =~= p.drop_first() + q);
        lemma_nets_run_failed(p.drop_first(), q, ex.skip(k));
    }
}

/// Creates each network the proxy joins unless the engine lists it, in
/// order, stopping at the first failure; gives those networks.
pub fn ensure_all_networks<R: DockerRuntime>(engine: &mut Engine<R>, config: &Config) -> (r: Result<
    Vec<String>,
    OpsError,
>)
    ensures
        continues(old(engine).record@, final(engine).record@),
        nets_run(spec_networks(config@), since(old(engine).record@, final(engine).record@))
            matches Some((k, res)) && k == since(
            old(engine).record@,
            final(engine).record@,
        ).len() && match res {
            Ok(_) => r matches Ok(v) && string_views(v@) == spec_networks(config@),
            Err(e) => r == Err::<Vec<String>, OpsError>(e),
        },
{
    let networks = collect_networks(config);
    let ghost names = spec_networks(config@);
    let ghost e0 = engine.record@;
    proof {
        lemma_since_same(e0);
        assert(names.take(0) =~= Seq::<Seq<char>>::empty());
    }
    let mut i: usize = 0;
    while i < networks.len()
        invariant
            0 <= i <= networks.len(),
            string_views(networks@) == names,
            names == spec_networks(config@),
            e0 == old(engine).record@,
            continues(e0, engine.record@),
            nets_run(names.take(i as int), since(e0, engine.record@)) == Some(
                (since(e0, engine.record@).len() as int, Ok::<(), OpsError>(())),
            ),
        decreases networks.len() - i,
    {
        let ghost e1 = engine.record@;
        let res = ensure_network(engine, networks[i].as_str());
        proof {
            let e2 = engine.record@;
            lemma_since_concat(e0, e1, e2);
            assert(names[i as int] == networks@[i as int]@);
            lemma_nets_run_append(names.take(i as int), names[i as int], since(e0, e1), since(e1, e2));
            assert(names.take(i as int).push(names[i as int]) =~= names.take(i + 1));
            if res is Err {
                lemma_nets_run_failed(names.take(i + 1), names.skip(i + 1), since(e0, e2));
                assert(names.take(i + 1) + names.skip(i + 1) =~= names);
            }
        }
        match res {
            Ok(()) => {},
            Err(e) => return Err(e),
        }
        i = i + 1;
    }
    proof {
        assert(names.take(i as int) =~= names);
    }
    Ok(networks)
}

/// The view of an optional text.
pub open spec fn opt_str_view(o: Option<&str>) -> Option<Seq<char>> {
    match o {
        Some(s) => Some(s@),
        None => None,
    }
}

/// The predicate that keeps names whose lower case holds `needle`.
pub open spec fn name_holds(needle: Seq<char>) -> spec_fn(Seq<char>) -> bool {
    |n: Seq<char>| contains_seq(lowercase(n), needle)
}

/// The names that hold the filter, compared in lower case; all names
/// without a filter.
pub open spec fn spec_filter_names(names: Seq<Seq<char>>, filter: Option<Seq<char>>) -> Seq<
    Seq<char>,
> {
    match filter {
        Some(f) => names.filter(name_holds(lowercase(f))),
        None => names,
    }
}

/// The names that hold the filter, compared in lower case.
pub fn filter_names(names: Vec<String>, filter: Option<&str>) -> (r: Vec<String>)
    ensures
        string_views(r@) == spec_filter_names(string_views(names@), opt_str_view(filter)),
{
    match filter {
        None => names,
        Some(f) => {
            let needle = to_lowercase(f);
            let ghost v = string_views(names@);
            let ghost p = name_holds(lowercase(f@));
            let mut out: Vec<String> = Vec::new();
            let mut i: usize = 0;
            while i < names.len()
                invariant
                    0 <= i <= names.len(),
                    v == string_views(names@),
                    needle@ == lowercase(f@),
                    p == name_holds(lowercase(f@)),
                    string_views(out@) == v.take(i as int).filter(p),
                decreases names.len() - i,
            {
                proof {
                    assert(v.take(i + 1) =~= v.take(i as int).push(v[i as int]));
                    v.take(i as int).lemma_filter_push(v[i as int], p);
                }
                let lower = to_lowercase(names[i].as_str());
                if str_contains(lower.as_str(), needle.as_str()) {
                    let ghost before = out@;
                    out.push(names[i].clone());
                    proof {
                        assert(string_views(out@) =~= string_views(before).push(v[i as int]));
                    }
                }
                i = i + 1;
            }
            proof {
                assert(v.take(names.len() as int) =~= v);
            }
            out
        },
    }
}

/// The containers the engine lists, stopped ones too, whose name holds the
/// filter in lower case.
pub fn detect_containers<R: DockerRuntime>(engine: &mut Engine<R>, filter: Option<&str>) -> (r: Result<
    Vec<String>,
    OpsError,
>)
    ensures
        continues(old(engine).record@, final(engine).record@),
        since(old(engine).record@, final(engine).record@).len() == 1,
        since(old(engine).record@, final(engine).record@)[0] matches Exchange::ListContainers(
            all,
            a,
        ) && all && match a {
            Ok(names) => r matches Ok(v) && string_views(v@) == spec_filter_names(
                string_views(names@),
                opt_str_view(filter),
            ),
            Err(e) => r == Err::<Vec<String>, OpsError>(OpsError::Runtime(e)),
        },
{
    let ghost e0 = engine.record@;
    let answer = engine.list_containers(true);
    proof {
        lemma_since_push(e0, Exchange::ListContainers(true, answer));
    }
    let containers = match answer {
        Ok(v) => v,
        Err(e) => return Err(OpsError::Runtime(e)),
    };
    let r = filter_names(containers, filter);
    Ok(r)
}

/// The networks the engine lists.
pub fn list_networks<R: DockerRuntime>(engine: &mut Engine<R>) -> (r: Result<Vec<NetworkInfo>, OpsError>)
    ensures
        continues(old(engine).record@, final(engine).record@),
        since(old(engine).record@, final(engine).record@).len() == 1,
        since(old(engine).record@, final(engine).record@)[0] matches Exchange::ListNetworks(a)
            && r == lift(a),
{
    let ghost e0 = engine.record@;
    let answer = engine.list_networks();
    proof {
        lemma_since_push(e0, Exchange::ListNetworks(answer));
    }
    match answer {
        Ok(v) => Ok(v),
        Err(e) => Err(OpsError::Runtime(e)),
    }
}

/// Removes every route from `port`; tells whether there was one.
pub fn remove_route(config: &mut Config, port: u16) -> (r: bool)
    ensures
        r == exists|i: int| 0 <= i < old(config)@.routes.len() && (#[trigger] old(config)@.routes[i]).host_port == port,
        final(config)@ == with_routes(old(config)@, old(config)@.routes.filter(port_other_than(port))),
{
    let found = config.index_of_route(port).is_some();
    config.routes = keep_routes_not_from(&config.routes, port);
    found
}

/// The target of the first route from `host_port`.
pub fn find_route_name(config: &Config, host_port: u16) -> (r: Option<String>)
    ensures
        match route_index(config@.routes, host_port) {
            Some(i) => r matches Some(t) && t@ == config@.routes[i].target,
            None => r is None,
        },
{
    match config.find_route(host_port) {
        Some(route) => Some(route.target.clone()),
        None => None,
    }
}

/// The last `tail` lines of the proxy container's log, as the engine gives
/// them.
pub fn proxy_logs<R: DockerRuntime>(engine: &mut Engine<R>, config: &Config, tail: usize, follow: bool) -> (r: Result<
    Vec<String>,
    OpsError,
>)
    ensures
        continues(old(engine).record@, final(engine).record@),
        since(old(engine).record@, final(engine).record@).len() == 1,
        since(old(engine).record@, final(engine).record@)[0] matches Exchange::ContainerLogs(
            n,
            t,
            f,
            a,
        ) && n == config@.proxy_name && t == tail && f == follow && r == lift(a),
{
    let ghost e0 = engine.record@;
    let answer = engine.container_logs(proxy_name(config), tail, follow);
    proof {
        lemma_since_push(e0, Exchange::ContainerLogs(config@.proxy_name, tail, follow, answer));
    }
    match answer {
        Ok(v) => Ok(v),
        Err(e) => Err(OpsError::Runtime(e)),
    }
}

/// The configuration after adding the container `name`, or merging it into
/// the first container of that name, with the fields given.
pub open spec fn added(
    c: ConfigView,
    name: Seq<char>,
    label: Option<Seq<char>>,
    port: Option<u16>,
    network: Option<Seq<char>>,
) -> ConfigView {
    with_containers(
        c,
        spec_add_or_update(c.containers, ContainerView { name, label, port, network }),
    )
}

/// Adds a container, or updates the first container of that name; when no
/// network is given, the engine is asked for the container's network, which
/// is used and returned.
pub fn add_container<R: DockerRuntime>(
    engine: &mut Engine<R>,
    config: &mut Config,
    name: &str,
    label: Option<String>,
    port: Option<u16>,
    network: Option<String>,
) -> (r: Result<AddOutcome, OpsError>)
    ensures
        continues(old(engine).record@, final(engine).record@),
        network is Some ==> {
            &&& since(old(engine).record@, final(engine).record@).len() == 0
            &&& r matches Ok(o) && o.detected_network is None && o.updated == named_index(
                old(config)@.containers,
                name@,
            ) is Some
            &&& final(config)@ == added(old(config)@, name@, opt_view(label), port, opt_view(network))
        },
        network is None ==> {
            &&& since(old(engine).record@, final(engine).record@).len() == 1
            &&& since(old(engine).record@, final(engine).record@)[0] matches Exchange::ContainerNetwork(
                n,
                a,
            ) && n == name@ && match a {
                Ok(detected) => {
                    &&& r matches Ok(o) && o.detected_network == detected && o.updated == named_index(
                        old(config)@.containers,
                        name@,
                    ) is Some
                    &&& final(config)@ == added(old(config)@, name@, opt_view(label), port, opt_view(detected))
                },
                Err(e) => r == Err::<AddOutcome, OpsError>(OpsError::Runtime(e)) && final(config)@
                    == old(config)@,
            }
        },
{
    let ghost e0 = engine.record@;
    proof {
        lemma_since_same(e0);
    }
    let mut resolved = network;
    let mut detected: Option<String> = None;
    if resolved.is_none() {
        let answer = engine.container_network(name);
        proof {
            lemma_since_push(e0, Exchange::ContainerNetwork(name@, answer));
        }
        match answer {
            Ok(Some(net)) => {
                resolved = Some(net.clone());
                detected = Some(net);
            },
            Ok(None) => {},
            Err(e) => return Err(OpsError::Runtime(e)),
        }
    }
    let updated = upsert_container(config, name, label, port, resolved);
    Ok(AddOutcome { updated, detected_network: detected })
}

/// The value of a route's state.
pub struct RouteStatusView {
    pub host_port: u16,
    pub target: Seq<char>,
    pub internal_port: u16,
    pub missing: bool,
}

impl View for RouteStatus {
    type V = RouteStatusView;

    open spec fn view(&self) -> RouteStatusView {
        RouteStatusView {
            host_port: self.host_port,
            target: self.target@,
            internal_port: self.internal_port,
            missing: self.missing,
        }
    }
}

/// The state of a route: the port of the container named by its target,
/// or the default port and a mark when there is no such container.
pub open spec fn route_status(c: ConfigView, r: RouteView) -> RouteStatusView {
    match spec_find_named(c.containers, r.target) {
        Some(cv) => RouteStatusView {
            host_port: r.host_port,
            target: cv.name,
            internal_port: cv.port_or_default(),
            missing: false,
        },
        None => RouteStatusView {
            host_port: r.host_port,
            target: r.target,
            internal_port: DEFAULT_PORT,
            missing: true,
        },
    }
}

/// The states of all routes, in order.
pub fn route_statuses(config: &Config) -> (r: Vec<RouteStatus>)
    ensures
        r.len() == config@.routes.len(),
        forall|k: int| 0 <= k < r.len() ==> (#[trigger] r@[k])@ == route_status(config@, config@.routes[k]),
{
    let mut out: Vec<RouteStatus> = Vec::new();
    let mut i: usize = 0;
    while i < config.routes.len()
        invariant
            0 <= i <= config.routes.len(),
            out.len() == i,
            forall|k: int| 0 <= k < i ==> (#[trigger] out@[k])@ == route_status(config@, config@.routes[k]),
        decreases config.routes.len() - i,
    {
        let route = &config.routes[i];
        let st = match config.index_of_named(&route.target) {
            Some(j) => RouteStatus {
                host_port: route.host_port,
                target: config.containers[j].name.clone(),
                internal_port: config.containers[j].get_port(),
                missing: false,
            },
            None => RouteStatus {
                host_port: route.host_port,
                target: route.target.clone(),
                internal_port: DEFAULT_PORT,
                missing: true,
            },
        };
        out.push(st);
        i = i + 1;
    }
    out
}

/// The proxy's name and state, as the engine reports it, and the states of
/// the routes.
pub fn build_status_info<R: DockerRuntime>(engine: &mut Engine<R>, config: &Config) -> (r: Result<
    StatusInfo,
    OpsError,
>)
    ensures
        continues(old(engine).record@, final(engine).record@),
        since(old(engine).record@, final(engine).record@).len() == 1,
        since(old(engine).record@, final(engine).record@)[0] matches Exchange::ContainerStatus(
            n,
            a,
        ) && n == config@.proxy_name && match a {
            Ok(status) => r matches Ok(info) && {
                &&& info.proxy_name@ == config@.proxy_name
                &&& info.status == status
                &&& info.routes.len() == config@.routes.len()
                &&& forall|k: int|
                    0 <= k < info.routes.len() ==> (#[trigger] info.routes@[k])@ == route_status(
                        config@,
                        config@.routes[k],
                    )
            },
            Err(e) => r == Err::<StatusInfo, OpsError>(OpsError::Runtime(e)),
        },
{
    let ghost e0 = engine.record@;
    let proxy = config.proxy_name.clone();
    let answer = engine.container_status(proxy.as_str());
    proof {
        lemma_since_push(e0, Exchange::ContainerStatus(config@.proxy_name, answer));
    }
    let status = match answer {
        Ok(s) => s,
        Err(e) => return Err(OpsError::Runtime(e)),
    };
    let routes = route_statuses(config);
    Ok(StatusInfo { proxy_name: proxy, status, routes })
}

/// The build files of the proxy image of `c`.
pub open spec fn spec_build_files(c: ConfigView) -> (Seq<char>, Seq<char>) {
    (spec_nginx_config(plain_style(), c), spec_dockerfile(c.host_ports(), true))
}

/// The files to build the proxy image from; fails when no container is
/// configured.
pub fn build_files(config: &Config) -> (r: Result<BuildFiles, OpsError>)
    ensures
        match r {
            Ok(f) => config@.containers.len() > 0 && (f.nginx_conf@, f.dockerfile@)
                == spec_build_files(config@),
            Err(e) => config@.containers.len() == 0 && e == OpsError::NoContainers,
        },
{
    ensure_has_containers(config)?;
    let nginx_conf = generate_nginx_config(config);
    let ports = host_ports(config);
    let dockerfile = render_dockerfile(ports.as_slice(), true);
    Ok(BuildFiles { nginx_conf, dockerfile })
}

/// The error that starting the proxy of `c` gives before it asks the engine
/// anything, if any.
pub open spec fn start_precondition_error(c: ConfigView) -> Option<OpsError> {
    if c.containers.len() == 0 {
        Some(OpsError::NoContainers)
    } else if c.routes.len() == 0 {
        Some(OpsError::NoRoutes)
    } else {
        None
    }
}

/// What the engine's answers lead starting the proxy to.
pub enum StartAnswer {
    /// Starting fails with this error.
    Refused(OpsError),
    /// The proxy container exists: it is left as it is.
    Running,
    /// The proxy container does not exist: it is built and launched.
    Absent,
}

/// How starting the proxy of `c` begins the record `ex`, up to knowing
/// whether the proxy exists: unless containers or routes are missing, the
/// networks are ensured, then the engine is asked whether the proxy
/// container exists. Gives the number of exchanges and what the answers lead
/// to, or nothing when the record does not begin so.
pub open spec fn start_run(c: ConfigView, ex: Seq<Exchange>) -> Option<(int, StartAnswer)> {
    match start_precondition_error(c) {
        Some(e) => Some((0, StartAnswer::Refused(e))),
        None => match nets_run(spec_networks(c), ex) {
            None => None,
            Some((k, Err(e))) => Some((k, StartAnswer::Refused(e))),
            Some((k, Ok(_))) => if 0 <= k < ex.len() {
                match ex[k] {
                    Exchange::ContainerExists(n, a) => if n == c.proxy_name {
                        Some(
                            (
                                k + 1,
                                match a {
                                    Err(e) => StartAnswer::Refused(OpsError::Runtime(e)),
                                    Ok(true) => StartAnswer::Running,
                                    Ok(false) => StartAnswer::Absent,
                                },
                            ),
                        )
                    } else {
                        None
                    },
                    _ => None,
                }
            } else {
                None
            },
        },
    }
}

/// Whether the record `ex` and the result `r` are those of building and
/// launching the proxy of `c` and joining it to `networks`: the build files
/// are written; the image is built from the directory the engine gives; then
/// the proxy is launched as `launch_outcome` says. Each failure of the
/// engine is the result.
pub open spec fn build_launch_outcome(
    c: ConfigView,
    networks: Seq<Seq<char>>,
    ex: Seq<Exchange>,
    r: Result<StartOutcome, OpsError>,
) -> bool {
    &&& ex.len() >= 1
    &&& !(r matches Ok(StartOutcome::AlreadyRunning(_)))
    &&& match ex[0] {
        Exchange::WriteBuildFiles(conf, dockerfile, a) => {
            &&& (conf, dockerfile) == spec_build_files(c)
            &&& match a {
                Err(e) => ex.len() == 1 && r == Err::<StartOutcome, OpsError>(OpsError::Runtime(e)),
                Ok(dir) => ex.len() >= 2 && match ex[1] {
                    Exchange::BuildImage(tag, d, b) => {
                        &&& tag == c.proxy_image()
                        &&& d == dir@
                        &&& match b {
                            Err(e) => ex.len() == 2 && r == Err::<StartOutcome, OpsError>(
                                OpsError::Runtime(e),
                            ),
                            Ok(_) => launch_outcome(
                                c,
                                networks,
                                ex.skip(2),
                                match r {
                                    Ok(StartOutcome::Started(rep)) => Ok(rep),
                                    Ok(StartOutcome::AlreadyRunning(_)) => Err(OpsError::NoRoutes),
                                    Err(e) => Err(e),
                                },
                            ),
                        }
                    },
                    _ => false,
                },
            }
        },
        _ => false,
    }
}

/// Whether the record `ex` and the result `r` are those of starting the
/// proxy of `c`: the error found before asking the engine or while ensuring
/// the networks or asking for the proxy; for a running proxy, the ports it
/// listens on and nothing more done; for an absent one, the build, the run
/// and the connections.
pub open spec fn start_outcome(c: ConfigView, ex: Seq<Exchange>, r: Result<StartOutcome, OpsError>) -> bool {
    match start_run(c, ex) {
        None => false,
        Some((k, a)) => match a {
            StartAnswer::Refused(e) => k == ex.len() && r == Err::<StartOutcome, OpsError>(e),
            StartAnswer::Running => k == ex.len() && (r matches Ok(StartOutcome::AlreadyRunning(ports))
                && ports@ == c.host_ports()),
            StartAnswer::Absent => build_launch_outcome(c, spec_networks(c), ex.skip(k), r),
        },
    }
}

/// What follows the exchanges up to knowing whether the proxy exists does
/// not change them.
pub proof fn lemma_start_run_prefix(c: ConfigView, ex: Seq<Exchange>, t: Seq<Exchange>)
    requires
        start_run(c, ex) is Some,
    ensures
        start_run(c, ex) matches Some((k, _)) && 0 <= k <= ex.len(),
        start_run(c, ex + t) == start_run(c, ex),
{
    if start_precondition_error(c) is None {
        lemma_nets_run_prefix(spec_networks(c), ex, t);
        let k = (nets_run(spec_networks(c), ex)->0).0;
        if (nets_run(spec_networks(c), ex)->0).1 is Ok {
            assert((ex + t)[k] == ex[k]);
        }
    }
}

/// Starts the proxy: checks that containers and routes are configured,
/// creates the missing networks and, unless the engine says the proxy
/// container exists, writes the build files, builds the image, runs the
/// proxy with every host port and connects it to each other network.
pub fn start_proxy<R: DockerRuntime>(engine: &mut Engine<R>, config: &Config) -> (r: Result<
    StartOutcome,
    OpsError,
>)
    ensures
        continues(old(engine).record@, final(engine).record@),
        start_outcome(config@, since(old(engine).record@, final(engine).record@), r),
{
    let ghost e0 = engine.record@;
    proof {
        lemma_since_same(e0);
    }
    ensure_has_containers(config)?;
    ensure_has_routes(config)?;
    let networks = match ensure_all_networks(engine, config) {
        Ok(n) => n,
        Err(e) => return Err(e),
    };
    let ghost e1 = engine.record@;
    let exists = engine.container_exists(proxy_name(config));
    let ghost e2 = engine.record@;
    proof {
        let x = Exchange::ContainerExists(config@.proxy_name, exists);
        lemma_since_push(e1, x);
        lemma_since_concat(e0, e1, e2);
        lemma_nets_run_prefix(spec_networks(config@), since(e0, e1), seq![x]);
        assert(since(e0, e2)[since(e0, e1).len() as int] == x);
        lemma_start_run_prefix(config@, since(e0, e2), Seq::empty());
        assert(since(e0, e2) + Seq::<Exchange>::empty() =~= since(e0, e2));
    }
    match exists {
        Err(e) => return Err(OpsError::Runtime(e)),
        Ok(true) => return Ok(StartOutcome::AlreadyRunning(host_ports(config))),
        Ok(false) => {},
    }
    let files = build_files(config)?;
    let written = engine.write_build_files(files.nginx_conf.as_str(), files.dockerfile.as_str());
    let ghost e3 = engine.record@;
    proof {
        lemma_since_push(e2, Exchange::WriteBuildFiles(files.nginx_conf@, files.dockerfile@, written));
        lemma_since_concat(e0, e2, e3);
        lemma_start_run_prefix(config@, since(e0, e2), since(e2, e3));
        assert((since(e0, e2) + since(e2, e3)).skip(since(e0, e2).len() as int) =~= since(e2, e3));
    }
    let dir = match written {
        Ok(d) => d,
        Err(e) => return Err(OpsError::Runtime(e)),
    };
    let image = proxy_image(config);
    let built = engine.build_image(image.as_str(), dir.as_str());
    let ghost e4 = engine.record@;
    proof {
        lemma_since_push(e3, Exchange::BuildImage(image@, dir@, built));
        lemma_since_concat(e0, e3, e4);
        lemma_since_concat(e2, e3, e4);
        lemma_start_run_prefix(config@, since(e0, e2), since(e2, e4));
        lemma_since_concat(e0, e2, e4);
        assert((since(e0, e2) + since(e2, e4)).skip(since(e0, e2).len() as int) =~= since(e2, e4));
    }
    match built {
        Ok(()) => {},
        Err(e) => return Err(OpsError::Runtime(e)),
    }
    let report = launch_proxy(engine, config, &networks);
    proof {
        let e5 = engine.record@;
        lemma_since_concat(e2, e4, e5);
        lemma_since_concat(e0, e2, e5);
        lemma_start_run_prefix(config@, since(e0, e2), since(e2, e5));
        assert((since(e0, e2) + since(e2, e5)).skip(since(e0, e2).len() as int) =~= since(e2, e5));
        assert(since(e2, e5).skip(2) =~= since(e4, e5));
    }
    match report {
        Ok(rep) => Ok(StartOutcome::Started(rep)),
        Err(e) => Err(e),
    }
}

/// Whether an exchange only asks the engine or creates a network.
pub open spec fn asks_or_creates_network(x: Exchange) -> bool {
    x is ListNetworks || x is CreateNetwork || x is ContainerExists
}

/// Ensuring a network only asks the engine or creates the network.
proof fn lemma_ensure_run_asks(name: Seq<char>, ex: Seq<Exchange>)
    requires
        ensure_run(name, ex) is Some,
    ensures
        forall|i: int| 0 <= i < (ensure_run(name, ex)->0).0 ==> asks_or_creates_network(#[trigger] ex[i]),
{
}

/// Ensuring networks only asks the engine or creates networks.
proof fn lemma_nets_run_asks(names: Seq<Seq<char>>, ex: Seq<Exchange>)
    requires
        nets_run(names, ex) is Some,
    ensures
        forall|i: int| 0 <= i < (nets_run(names, ex)->0).0 ==> asks_or_creates_network(#[trigger] ex[i]),
    decreases names.len(),
{
    if names.len() > 0 {
        lemma_ensure_run_asks(names[0], ex);
        let step = ensure_run(names[0], ex)->0;
        lemma_ensure_run_prefix(names[0], ex, Seq::empty());
        if step.1 is Ok {
            let k = step.0;
            lemma_nets_run_asks(names.drop_first(), ex.skip(k));
            lemma_nets_run_prefix(names.drop_first(), ex.skip(k), Seq::empty());
            assert((nets_run(names, ex)->0).0 == k + (nets_run(names.drop_first(), ex.skip(k))->0).0);
            assert forall|i: int| 0 <= i < (nets_run(names, ex)->0).0 implies asks_or_creates_network(
                #[trigger] ex[i],
            ) by {
                if i >= k {
                    assert(ex[i] == ex.skip(k)[i - k]);
                }
            }
        }
    }
}

/// Until it knows whether the proxy exists, starting only asks the engine
/// and creates the missing networks: it builds, runs, connects, stops or
/// removes nothing. With `start_outcome`, when the engine says the proxy
/// exists, nothing more is done, so a running proxy is left as it is.
pub proof fn lemma_start_leaves_containers_alone(c: ConfigView, ex: Seq<Exchange>)
    requires
        start_run(c, ex) is Some,
    ensures
        forall|i: int| 0 <= i < (start_run(c, ex)->0).0 ==> asks_or_creates_network(#[trigger] ex[i]),
{
    if start_precondition_error(c) is None {
        lemma_nets_run_asks(spec_networks(c), ex);
    }
}

/// How joining one more network went.
#[derive(Debug, Clone, PartialEq, Eq)]
pub struct Connection {
    pub network: String,
    /// The engine's failure, when the proxy could not join the network.
    pub error: Option<RuntimeError>,
}

/// What launching the proxy did.
#[derive(Debug, Clone, PartialEq, Eq)]
pub struct LaunchReport {
    /// The host ports the proxy listens on.
    pub ports: Vec<u16>,
    /// Each further network the proxy was to join, in order.
    pub connections: Vec<Connection>,
}

/// The predicate that keeps networks other than the configuration's own.
pub open spec fn other_network(c: ConfigView) -> spec_fn(Seq<char>) -> bool {
    |n: Seq<char>| n != c.network
}

/// The failure in an answer, if any.
pub open spec fn error_of(a: Result<(), RuntimeError>) -> Option<RuntimeError> {
    match a {
        Ok(_) => None,
        Err(e) => Some(e),
    }
}

/// Whether `x` is the request to connect the container `name` to `network`,
/// and `conn` reports its answer.
pub open spec fn connection_exchange(x: Exchange, name: Seq<char>, network: Seq<char>, conn: Connection) -> bool {
    match x {
        Exchange::ConnectNetwork(n, net, a) => n == name && net == network && conn.network@ == network
            && conn.error == error_of(a),
        _ => false,
    }
}

/// Whether the record `ex` and the result `r` are those of launching the
/// proxy of `c` and joining it to the networks `networks`: the container is
/// run with the proxy's name and image on the configuration's network,
/// publishing every host port; when the engine refuses, that is the
/// result; otherwise the proxy is connected to each network other than the
/// configuration's, in order, and each answer is reported.
pub open spec fn launch_outcome(
    c: ConfigView,
    networks: Seq<Seq<char>>,
    ex: Seq<Exchange>,
    r: Result<LaunchReport, OpsError>,
) -> bool {
    let targets = networks.filter(other_network(c));
    ex.len() >= 1 && match ex[0] {
        Exchange::RunContainer(n, image, net, ports, a) => {
            &&& n == c.proxy_name
            &&& image == c.proxy_image()
            &&& net == c.network
            &&& ports == c.host_ports()
            &&& match a {
                Err(e) => ex.len() == 1 && r == Err::<LaunchReport, OpsError>(OpsError::Runtime(e)),
                Ok(_) => {
                    &&& ex.len() == 1 + targets.len()
                    &&& r matches Ok(rep)
                    &&& rep.ports@ == c.host_ports()
                    &&& rep.connections.len() == targets.len()
                    &&& forall|j: int|
                        0 <= j < targets.len() ==> connection_exchange(
                            ex[j + 1],
                            c.proxy_name,
                            targets[j],
                            #[trigger] rep.connections@[j],
                        )
                },
            }
        },
        _ => false,
    }
}

/// Launches the proxy container from its built image on the configuration's
/// network, publishing every host port, and connects it to each other
/// network given; a failed connection is reported, not fatal.
pub fn launch_proxy<R: DockerRuntime>(engine: &mut Engine<R>, config: &Config, networks: &Vec<String>) -> (r: Result<
    LaunchReport,
    OpsError,
>)
    ensures
        continues(old(engine).record@, final(engine).record@),
        launch_outcome(
            config@,
            string_views(networks@),
            since(old(engine).record@, final(engine).record@),
            r,
        ),
{
    let ghost e0 = engine.record@;
    let name = proxy_name(config);
    let image = proxy_image(config);
    let ports = host_ports(config);
    let ran = engine.run_container(name, image.as_str(), config.network.as_str(), ports.as_slice());
    let ghost e1 = engine.record@;
    let ghost first = Exchange::RunContainer(
        config@.proxy_name,
        config@.proxy_image(),
        config@.network,
        config@.host_ports(),
        ran,
    );
    proof {
        lemma_since_push(e0, first);
    }
    match ran {
        Ok(()) => {},
        Err(e) => return Err(OpsError::Runtime(e)),
    }
    let ghost nv = string_views(networks@);
    let ghost p = other_network(config@);
    let mut connections: Vec<Connection> = Vec::new();
    proof {
        lemma_since_same(e1);
        assert(nv.take(0) =~= Seq::<Seq<char>>::empty());
        assert(Seq::<Seq<char>>::empty().filter(p) =~= Seq::<Seq<char>>::empty());
    }
    let mut i: usize = 0;
    while i < networks.len()
        invariant
            0 <= i <= networks.len(),
            nv == string_views(networks@),
            p == other_network(config@),
            name@ == config@.proxy_name,
            continues(e1, engine.record@),
            since(e1, engine.record@).len() == nv.take(i as int).filter(p).len(),
            connections.len() == nv.take(i as int).filter(p).len(),
            forall|j: int|
                0 <= j < connections.len() ==> connection_exchange(
                    since(e1, engine.record@)[j],
                    config@.proxy_name,
                    nv.take(i as int).filter(p)[j],
                    #[trigger] connections@[j],
                ),
        decreases networks.len() - i,
    {
        proof {
            assert(nv.take(i + 1) =~= nv.take(i as int).push(nv[i as int]));
            nv.take(i as int).lemma_filter_push(nv[i as int], p);
            assert(nv[i as int] == networks@[i as int]@);
        }
        if networks[i] != config.network {
            let ghost ea = engine.record@;
            let joined = engine.connect_network(name, networks[i].as_str());
            let ghost x = Exchange::ConnectNetwork(config@.proxy_name, networks@[i as int]@, joined);
            proof {
                lemma_since_push(ea, x);
                lemma_since_concat(e1, ea, engine.record@);
            }
            let error = match joined {
                Ok(()) => None,
                Err(e) => Some(e),
            };
            connections.push(Connection { network: networks[i].clone(), error });
        }
        i = i + 1;
    }
    proof {
        assert(nv.take(i as int) =~= nv);
        lemma_since_concat(e0, e1, engine.record@);
        assert forall|j: int| 0 <= j < connections.len() implies since(e0, engine.record@)[j + 1]
            == since(e1, engine.record@)[j] by {}
    }
    Ok(LaunchReport { ports, connections })
}

/// How stopping the proxy container `name` begins the record `ex`: the
/// engine is asked whether it exists; when it does, it is stopped and
/// removed. Gives the number of exchanges and the result (whether it
/// existed), or nothing when the record does not begin so.
pub open spec fn stop_run(name: Seq<char>, ex: Seq<Exchange>) -> Option<(int, Result<bool, OpsError>)> {
    if ex.len() == 0 {
        None
    } else {
        match ex[0] {
            Exchange::ContainerExists(n, a) => if n != name {
                None
            } else {
                match a {
                    Err(e) => Some((1, Err(OpsError::Runtime(e)))),
                    Ok(false) => Some((1, Ok(false))),
                    Ok(true) => if ex.len() >= 2 {
                        match ex[1] {
                            Exchange::StopRemove(m, b) => if m == name {
                                Some(
                                    (
                                        2,
                                        match b {
                                            Ok(_) => Ok(true),
                                            Err(e) => Err(OpsError::Runtime(e)),
                                        },
                                    ),
                                )
                            } else {
                                None
                            },
                            _ => None,
                        }
                    } else {
                        None
                    },
                }
            },
            _ => None,
        }
    }
}

/// What follows the exchanges of stopping the proxy does not change them.
pub proof fn lemma_stop_run_prefix(name: Seq<char>, ex: Seq<Exchange>, t: Seq<Exchange>)
    requires
        stop_run(name, ex) is Some,
    ensures
        stop_run(name, ex) matches Some((k, _)) && 1 <= k <= ex.len(),
        stop_run(name, ex + t) == stop_run(name, ex),
{
    assert((ex + t)[0] == ex[0]);
    if ex.len() >= 2 {
        assert((ex + t)[1] == ex[1]);
    }
}

/// Stops and removes the proxy container when the engine says it exists;
/// tells whether it existed.
pub fn stop_proxy<R: DockerRuntime>(engine: &mut Engine<R>, config: &Config) -> (r: Result<bool, OpsError>)
    ensures
        continues(old(engine).record@, final(engine).record@),
        stop_run(config@.proxy_name, since(old(engine).record@, final(engine).record@)) == Some(
            (since(old(engine).record@, final(engine).record@).len() as int, r),
        ),
{
    let ghost e0 = engine.record@;
    let name = proxy_name(config);
    let answer = engine.container_exists(name);
    let ghost e1 = engine.record@;
    proof {
        lemma_since_push(e0, Exchange::ContainerExists(config@.proxy_name, answer));
    }
    let exists = match answer {
        Ok(b) => b,
        Err(e) => return Err(OpsError::Runtime(e)),
    };
    if exists {
        let removed = engine.stop_remove_container(name);
        proof {
            let e2 = engine.record@;
            lemma_since_push(e1, Exchange::StopRemove(config@.proxy_name, removed));
            lemma_since_concat(e0, e1, e2);
            assert(since(e0, e2) =~= seq![
                Exchange::ContainerExists(config@.proxy_name, Ok(true)),
                Exchange::StopRemove(config@.proxy_name, removed),
            ]);
        }
        match removed {
            Ok(()) => {},
            Err(e) => return Err(OpsError::Runtime(e)),
        }
        Ok(true)
    } else {
        Ok(false)
    }
}

/// Whether the record `ex` and the result `r` are those of reloading the
/// proxy of `c`: unless containers or routes are missing, the proxy is
/// stopped as `stop_run` says; a failure there is the result; otherwise it
/// is started as `start_outcome` says.
pub open spec fn reload_outcome(c: ConfigView, ex: Seq<Exchange>, r: Result<StartOutcome, OpsError>) -> bool {
    match start_precondition_error(c) {
        Some(e) => ex.len() == 0 && r == Err::<StartOutcome, OpsError>(e),
        None => match stop_run(c.proxy_name, ex) {
            None => false,
            Some((k, Err(e))) => k == ex.len() && r == Err::<StartOutcome, OpsError>(e),
            Some((k, Ok(_))) => start_outcome(c, ex.skip(k), r),
        },
    }
}

/// Stops the proxy and starts it again; checks that containers and routes
/// are configured first.
pub fn reload_proxy<R: DockerRuntime>(engine: &mut Engine<R>, config: &Config) -> (r: Result<
    StartOutcome,
    OpsError,
>)
    ensures
        continues(old(engine).record@, final(engine).record@),
        reload_outcome(config@, since(old(engine).record@, final(engine).record@), r),
{
    let ghost e0 = engine.record@;
    proof {
        lemma_since_same(e0);
    }
    ensure_has_containers(config)?;
    ensure_has_routes(config)?;
    let stopped = stop_proxy(engine, config);
    let ghost e1 = engine.record@;
    match stopped {
        Ok(_) => {},
        Err(e) => return Err(e),
    }
    let r = start_proxy(engine, config);
    proof {
        let e2 = engine.record@;
        lemma_since_concat(e0, e1, e2);
        lemma_stop_run_prefix(config@.proxy_name, since(e0, e1), since(e1, e2));
        assert((since(e0, e1) + since(e1, e2)).skip(since(e0, e1).len() as int) =~= since(e1, e2));
    }
    r
}

/// What follows removing a route from a port: with no route left the proxy
/// is stopped, otherwise it is reloaded.
#[derive(Debug, Clone, Copy, PartialEq, Eq, Structural)]
pub enum NextStep {
    StopProxy,
    ReloadProxy,
}

/// What follows removing a route from a port.
pub fn after_route_removed(config: &Config) -> (r: NextStep)
    ensures
        r == (if config@.routes.len() == 0 {
            NextStep::StopProxy
        } else {
            NextStep::ReloadProxy
        }),
{
    if config.routes.len() == 0 {
        NextStep::StopProxy
    } else {
        NextStep::ReloadProxy
    }
}

/// After removing the routes from a port, no route is from that port.
pub proof fn lemma_remove_route_clears_port(rs: Seq<RouteView>, port: u16)
    ensures
        forall|k: int|
            0 <= k < rs.filter(port_other_than(port)).len() ==> (#[trigger] rs.filter(
                port_other_than(port),
            )[k]).host_port != port,
{
    assert forall|k: int| 0 <= k < rs.filter(port_other_than(port)).len() implies (#[trigger] rs.filter(
        port_other_than(port),
    )[k]).host_port != port by {
        rs.lemma_filter_pred(port_other_than(port), k);
    }
}

/// After removing a container, no container has its name and no route
/// leads to it.
pub proof fn lemma_remove_container_clears(c: ConfigView, id: Seq<char>)
    requires
        match_index(c.containers, id) is Some,
    ensures
        ({
            let name = c.containers[match_index(c.containers, id)->0].name;
            let after = spec_ops_remove_container(c, id);
            &&& forall|k: int| 0 <= k < after.containers.len() ==> (#[trigger] after.containers[k]).name != name
            &&& forall|k: int| 0 <= k < after.routes.len() ==> (#[trigger] after.routes[k]).target != name
        }),
{
    let name = c.containers[match_index(c.containers, id)->0].name;
    let after = spec_ops_remove_container(c, id);
    assert forall|k: int| 0 <= k < after.containers.len() implies (#[trigger] after.containers[k]).name != name by {
        c.containers.lemma_filter_pred(named_other_than(name), k);
    }
    assert forall|k: int| 0 <= k < after.routes.len() implies (#[trigger] after.routes[k]).target != name by {
        c.routes.lemma_filter_pred(targets_other_than(name), k);
    }
}

/// Once a port has been switched to a container, switching it again
/// updates its route rather than adding one.
pub proof fn lemma_switch_again_updates(rs: Seq<RouteView>, port: u16, t: Seq<char>)
    ensures
        route_index(spec_set_route(rs, port, t), port) is Some,
{
    lemma_set_route_then_find(rs, port, t);
}

/// A started proxy was built from its own build files and run with its name,
/// image, network and every host port, in that order, after the engine said
/// it did not exist; the ports it reports are the host ports.
pub proof fn lemma_started_proxy_was_built_and_run(
    c: ConfigView,
    ex: Seq<Exchange>,
    rep: LaunchReport,
)
    requires
        start_outcome(c, ex, Ok(StartOutcome::Started(rep))),
    ensures
        ({
            let k = (start_run(c, ex)->0).0;
            &&& 1 <= k && k + 3 <= ex.len()
            &&& ex[k - 1] == Exchange::ContainerExists(c.proxy_name, Ok(false))
            &&& ex[k] matches Exchange::WriteBuildFiles(conf, dockerfile, Ok(_)) && (conf, dockerfile)
                == spec_build_files(c)
            &&& ex[k + 1] matches Exchange::BuildImage(tag, _, Ok(_)) && tag == c.proxy_image()
            &&& ex[k + 2] matches Exchange::RunContainer(n, image, net, ports, Ok(_)) && n == c.proxy_name
                && image == c.proxy_image() && net == c.network && ports == c.host_ports()
            &&& rep.ports@ == c.host_ports()
        }),
{
    let k = (start_run(c, ex)->0).0;
    let m = (nets_run(spec_networks(c), ex)->0).0;
    assert(start_precondition_error(c) is None);
    assert((start_run(c, ex)->0).1 is Absent);
    assert(k == m + 1);
    assert(ex[m] matches Exchange::ContainerExists(n, a) && a == Ok::<bool, RuntimeError>(false));
    let rest = ex.skip(k);
    assert(build_launch_outcome(c, spec_networks(c), rest, Ok(StartOutcome::Started(rep))));
    assert(rest.len() >= 2);
    assert(launch_outcome(c, spec_networks(c), rest.skip(2), Ok::<LaunchReport, OpsError>(rep)));
    assert(rest.skip(2).len() >= 1);
    assert(rest[0] == ex[k]);
    assert(rest[1] == ex[k + 1]);
    assert(rest.skip(2)[0] == ex[k + 2]);
}

/// Whether the proxy's state, as the engine reports it, is running.
pub fn proxy_running(status: &Option<String>) -> (r: bool)
    ensures
        r == (status matches Some(s) && lowercase(s@) == RUNNING@),
{
    match status {
        Some(s) => to_lowercase(s.as_str()) == RUNNING.to_owned(),
        None => false,
    }
}

/// The state of a running container.
pub const RUNNING: &'static str = "running";

/// Removing a container by name or label removes every container of the
/// first match's name and every route to that name, and keeps all other
/// containers and all other routes, in order.
pub proof fn lemma_ops_remove_container_keeps_the_rest(c: ConfigView, id: Seq<char>)
    ensures
        match match_index(c.containers, id) {
            Some(i) => {
                let after = spec_ops_remove_container(c, id);
                let name = c.containers[i].name;
                &&& c.containers[i].name == id || c.containers[i].label == Some(id)
                &&& after.containers == c.containers.filter(|x: ContainerView| x.name != name)
                &&& after.routes == c.routes.filter(|r: RouteView| r.target != name)
                &&& forall|r: RouteView| #[trigger] after.routes.contains(r) <==> (c.routes.contains(r) && r.target != name)
                &&& after.proxy_name == c.proxy_name && after.network == c.network
            },
            None => spec_ops_remove_container(c, id) == c,
        },
{
    if let Some(i) = match_index(c.containers, id) {
        assert(crate::config::is_first_match(c.containers, id, i));
        let name = c.containers[i].name;
        assert(named_other_than(name) =~= |x: ContainerView| x.name != name);
        assert(targets_other_than(name) =~= |r: RouteView| r.target != name);
        lemma_filter_contains_iff(c.routes, |r: RouteView| r.target != name);
    }
}

/// Whether `needle` occurs in `hay` at some position.
pub open spec fn occurs_in(needle: Seq<char>, hay: Seq<char>) -> bool {
    exists|i: int| 0 <= i && i + needle.len() <= hay.len() && #[trigger] hay.subrange(i, i + needle.len()) == needle
}

/// Filtering names keeps, in order, exactly the names in whose lower case the
/// lower-cased filter occurs at some position; without a filter every name
/// is kept.
pub proof fn lemma_filter_names_keeps_matches(names: Seq<Seq<char>>, filter: Option<Seq<char>>)
    ensures
        spec_filter_names(names, filter) == match filter {
            Some(f) => names.filter(|n: Seq<char>| occurs_in(lowercase(f), lowercase(n))),
            None => names,
        },
{
    if let Some(f) = filter {
        assert(name_holds(lowercase(f)) =~= |n: Seq<char>| occurs_in(lowercase(f), lowercase(n)));
    }
}

/// The state of a route: when its target is the name of a configured
/// container, that container's port (the default port when it has none),
/// whatever the route's host port; otherwise a mark and the default port.
pub proof fn lemma_route_status_port(c: ConfigView, r: RouteView, q: u16)
    ensures
        route_status(c, r).host_port == r.host_port,
        route_status(c, r).target == r.target,
        route_status(c, r).internal_port == route_status(c, RouteView { host_port: q, ..r }).internal_port,
        match spec_find_named(c.containers, r.target) {
            Some(cv) => {
                &&& !route_status(c, r).missing
                &&& route_status(c, r).internal_port == match cv.port {
                    Some(p) => p,
                    None => 8000u16,
                }
            },
            None => route_status(c, r).missing && route_status(c, r).internal_port == 8000u16,
        },
{
    if let Some(i) = named_index(c.containers, r.target) {
        assert(crate::config::is_first_named(c.containers, r.target, i));
    }
}

/// The networks among the first `k` containers: the configuration's own
/// network first, then each container network, each exactly once, and
/// nothing else.
proof fn lemma_networks_upto(c: ConfigView, k: nat)
    requires
        k <= c.containers.len(),
    ensures
        networks_upto(c, k).len() >= 1,
        networks_upto(c, k)[0] == c.network,
        forall|i: int, j: int|
            0 <= i < j < networks_upto(c, k).len() ==> networks_upto(c, k)[i] != networks_upto(c, k)[j],
        forall|j: int|
            0 <= j < k && c.containers[j].network is Some ==> networks_upto(c, k).contains(
                c.containers[j].network->0,
            ),
        forall|i: int|
            0 <= i < networks_upto(c, k).len() ==> networks_upto(c, k)[i] == c.network || exists|j: int|
                0 <= j < k && c.containers[j].network == Some(#[trigger] networks_upto(c, k)[i]),
    decreases k,
{
    if k > 0 {
        let prev = networks_upto(c, (k - 1) as nat);
        lemma_networks_upto(c, (k - 1) as nat);
        let now = networks_upto(c, k);
        match c.containers[k - 1].network {
            Some(n) => {
                if !prev.contains(n) {
                    assert(now == prev.push(n));
                    assert forall|i: int, j: int| 0 <= i < j < now.len() implies now[i] != now[j] by {
                        if j == prev.len() {
                            assert(now[i] == prev[i]);
                            assert(prev.contains(prev[i]));
                        } else {
                            assert(now[i] == prev[i] && now[j] == prev[j]);
                        }
                    }
                    assert(now[prev.len() as int] == n);
                    assert forall|i: int| 0 <= i < now.len() implies now[i] == c.network || exists|j: int|
                        0 <= j < k && c.containers[j].network == Some(#[trigger] now[i]) by {
                        if i < prev.len() {
                            assert(now[i] == prev[i]);
                            if prev[i] != c.network {
                                let j = choose|j: int| 0 <= j < k - 1 && c.containers[j].network == Some(prev[i]);
                                assert(c.containers[j].network == Some(now[i]));
                            }
                        } else {
                            assert(c.containers[k - 1].network == Some(now[i]));
                        }
                    }
                    assert forall|j: int| 0 <= j < k && c.containers[j].network is Some implies now.contains(
                        c.containers[j].network->0,
                    ) by {
                        if j < k - 1 {
                            let m = c.containers[j].network->0;
                            let t = choose|t: int| 0 <= t < prev.len() && prev[t] == m;
                            assert(now[t] == m);
                        }
                    }
                } else {
                    assert forall|i: int| 0 <= i < now.len() implies now[i] == c.network || exists|j: int|
                        0 <= j < k && c.containers[j].network == Some(#[trigger] now[i]) by {
                        if prev[i] != c.network {
                            let j = choose|j: int| 0 <= j < k - 1 && c.containers[j].network == Some(prev[i]);
                            assert(c.containers[j].network == Some(now[i]));
                        }
                    }
                }
            },
            None => {
                assert forall|i: int| 0 <= i < now.len() implies now[i] == c.network || exists|j: int|
                    0 <= j < k && c.containers[j].network == Some(#[trigger] now[i]) by {
                    if prev[i] != c.network {
                        let j = choose|j: int| 0 <= j < k - 1 && c.containers[j].network == Some(prev[i]);
                        assert(c.containers[j].network == Some(now[i]));
                    }
                }
            },
        }
    }
}

/// The networks the proxy joins (ensured at start, and joined in that
/// order) are the configuration's network first, then every container's
/// network, each exactly once, and no other.
pub proof fn lemma_networks_distinct_and_complete(c: ConfigView)
    ensures
        spec_networks(c).len() >= 1,
        spec_networks(c)[0] == c.network,
        forall|i: int, j: int|
            0 <= i < j < spec_networks(c).len() ==> spec_networks(c)[i] != spec_networks(c)[j],
        forall|j: int|
            0 <= j < c.containers.len() && c.containers[j].network is Some ==> spec_networks(c).contains(
                c.containers[j].network->0,
            ),
        forall|i: int|
            0 <= i < spec_networks(c).len() ==> spec_networks(c)[i] == c.network || exists|j: int|
                0 <= j < c.containers.len() && c.containers[j].network == Some(
                    #[trigger] spec_networks(c)[i],
                ),
{
    lemma_networks_upto(c, c.containers.len());
}

} // verus!
