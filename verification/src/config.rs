//! The persisted configuration: the containers the proxy may route to, the
//! routes from host ports to containers, and the proxy's own settings.
use crate::paths::{build_dir_under, config_dir_under, config_file_under, build_dir_in, config_dir_in, config_file_in};
use vstd::prelude::*;

verus! {

/// The host port used when a route or container gives none.
pub const DEFAULT_PORT: u16 = 8000;

/// The default name of the proxy container.
pub const DEFAULT_PROXY_NAME: &'static str = "proxy-manager";

/// The default Docker network of the proxy.
pub const DEFAULT_NETWORK: &'static str = "proxy-net";

/// The suffix that turns the proxy's name into its image tag.
pub const PROXY_IMAGE_SUFFIX: &'static str = ":latest";

/// A container that the proxy may route to.
#[derive(Debug, Clone, PartialEq, Eq)]
pub struct Container {
    pub name: String,
    pub label: Option<String>,
    pub port: Option<u16>,
    pub network: Option<String>,
}

/// A route from a host port to a container, named by its name.
#[derive(Debug, Clone, PartialEq, Eq)]
pub struct Route {
    pub host_port: u16,
    pub target: String,
}

/// The whole configuration.
#[derive(Debug, Clone, PartialEq, Eq)]
pub struct Config {
    pub containers: Vec<Container>,
    pub routes: Vec<Route>,
    pub proxy_name: String,
    pub network: String,
}

/// The value of a container.
pub struct ContainerView {
    pub name: Seq<char>,
    pub label: Option<Seq<char>>,
    pub port: Option<u16>,
    pub network: Option<Seq<char>>,
}

/// The value of a route.
pub struct RouteView {
    pub host_port: u16,
    pub target: Seq<char>,
}

/// The value of a configuration.
pub struct ConfigView {
    pub containers: Seq<ContainerView>,
    pub routes: Seq<RouteView>,
    pub proxy_name: Seq<char>,
    pub network: Seq<char>,
}

/// The value of an optional text.
pub open spec fn opt_view(o: Option<String>) -> Option<Seq<char>> {
    match o {
        Some(s) => Some(s@),
        None => None,
    }
}

impl View for Container {
    type V = ContainerView;

    open spec fn view(&self) -> ContainerView {
        ContainerView {
            name: self.name@,
            label: opt_view(self.label),
            port: self.port,
            network: opt_view(self.network),
        }
    }
}

impl View for Route {
    type V = RouteView;

    open spec fn view(&self) -> RouteView {
        RouteView { host_port: self.host_port, target: self.target@ }
    }
}

/// The values of a sequence of containers.
pub open spec fn containers_view(v: Seq<Container>) -> Seq<ContainerView> {
    v.map_values(|c: Container| c@)
}

/// The values of a sequence of routes.
pub open spec fn routes_view(v: Seq<Route>) -> Seq<RouteView> {
    v.map_values(|r: Route| r@)
}

impl View for Config {
    type V = ConfigView;

    open spec fn view(&self) -> ConfigView {
        ConfigView {
            containers: containers_view(self.containers@),
            routes: routes_view(self.routes@),
            proxy_name: self.proxy_name@,
            network: self.network@,
        }
    }
}

impl ContainerView {
    /// The port the container listens on, or the default port.
    pub open spec fn port_or_default(self) -> u16 {
        match self.port {
            Some(p) => p,
            None => DEFAULT_PORT,
        }
    }

    /// Whether the container is named, or labelled, by `id`.
    pub open spec fn matches_identifier(self, id: Seq<char>) -> bool {
        self.name == id || self.label == Some(id)
    }

    /// The network the container is on, or the given default.
    pub open spec fn network_or(self, default: Seq<char>) -> Seq<char> {
        match self.network {
            Some(n) => n,
            None => default,
        }
    }
}

/// `i` is the first index of a container matched by `id`.
pub open spec fn is_first_match(cs: Seq<ContainerView>, id: Seq<char>, i: int) -> bool {
    &&& 0 <= i < cs.len()
    &&& cs[i].matches_identifier(id)
    &&& forall|j: int| 0 <= j < i ==> !(#[trigger] cs[j]).matches_identifier(id)
}

/// `i` is the first index of a container named `name`.
pub open spec fn is_first_named(cs: Seq<ContainerView>, name: Seq<char>, i: int) -> bool {
    &&& 0 <= i < cs.len()
    &&& cs[i].name == name
    &&& forall|j: int| 0 <= j < i ==> (#[trigger] cs[j]).name != name
}

/// `i` is the first index of a route from `port`.
pub open spec fn is_first_route(rs: Seq<RouteView>, port: u16, i: int) -> bool {
    &&& 0 <= i < rs.len()
    &&& rs[i].host_port == port
    &&& forall|j: int| 0 <= j < i ==> (#[trigger] rs[j]).host_port != port
}

/// The index of the first container named or labelled `id`, if any.
pub open spec fn match_index(cs: Seq<ContainerView>, id: Seq<char>) -> Option<int> {
    if exists|i: int| is_first_match(cs, id, i) {
        Some(choose|i: int| is_first_match(cs, id, i))
    } else {
        None
    }
}

/// The index of the first container named `name`, if any.
pub open spec fn named_index(cs: Seq<ContainerView>, name: Seq<char>) -> Option<int> {
    if exists|i: int| is_first_named(cs, name, i) {
        Some(choose|i: int| is_first_named(cs, name, i))
    } else {
        None
    }
}

/// The index of the first route from `port`, if any.
pub open spec fn route_index(rs: Seq<RouteView>, port: u16) -> Option<int> {
    if exists|i: int| is_first_route(rs, port, i) {
        Some(choose|i: int| is_first_route(rs, port, i))
    } else {
        None
    }
}

/// The first container named or labelled `id`, if any.
pub open spec fn spec_find_container(cs: Seq<ContainerView>, id: Seq<char>) -> Option<
    ContainerView,
> {
    match match_index(cs, id) {
        Some(i) => Some(cs[i]),
        None => None,
    }
}

/// The first container named `name`, if any.
pub open spec fn spec_find_named(cs: Seq<ContainerView>, name: Seq<char>) -> Option<
    ContainerView,
> {
    match named_index(cs, name) {
        Some(i) => Some(cs[i]),
        None => None,
    }
}

/// The first index matched is the only first index.
pub proof fn lemma_match_index(cs: Seq<ContainerView>, id: Seq<char>, i: int)
    requires
        is_first_match(cs, id, i),
    ensures
        match_index(cs, id) == Some(i),
{
    let k = choose|k: int| is_first_match(cs, id, k);
    assert(is_first_match(cs, id, k));
    if k < i {
        assert(!cs[k].matches_identifier(id));
    }
    if i < k {
        assert(!cs[i].matches_identifier(id));
    }
}

/// The first index named is the only first index.
pub proof fn lemma_named_index(cs: Seq<ContainerView>, name: Seq<char>, i: int)
    requires
        is_first_named(cs, name, i),
    ensures
        named_index(cs, name) == Some(i),
{
    let k = choose|k: int| is_first_named(cs, name, k);
    assert(is_first_named(cs, name, k));
    if k < i {
        assert(cs[k].name != name);
    }
    if i < k {
        assert(cs[i].name != name);
    }
}

/// The first route index from a port is the only first index.
pub proof fn lemma_route_index(rs: Seq<RouteView>, port: u16, i: int)
    requires
        is_first_route(rs, port, i),
    ensures
        route_index(rs, port) == Some(i),
{
    let k = choose|k: int| is_first_route(rs, port, k);
    assert(is_first_route(rs, port, k));
    if k < i {
        assert(rs[k].host_port != port);
    }
    if i < k {
        assert(rs[i].host_port != port);
    }
}

impl ConfigView {
    /// The host ports the proxy listens on: those of the routes, in order,
    /// or the default port alone when there is no route.
    pub open spec fn host_ports(self) -> Seq<u16> {
        if self.routes.len() == 0 {
            seq![DEFAULT_PORT]
        } else {
            self.routes.map_values(|r: RouteView| r.host_port)
        }
    }

    /// The tag of the proxy's image.
    pub open spec fn proxy_image(self) -> Seq<char> {
        self.proxy_name + PROXY_IMAGE_SUFFIX@
    }
}

/// A copy of an optional text.
pub fn copy_opt_string(o: &Option<String>) -> (r: Option<String>)
    ensures
        opt_view(r) == opt_view(*o),
{
    match o {
        Some(s) => Some(s.clone()),
        None => None,
    }
}

impl Container {
    /// A container with a name and nothing else.
    pub fn new(name: &str) -> (r: Container)
        ensures
            r@ == (ContainerView { name: name@, label: None, port: None, network: None }),
    {
        Container { name: name.to_owned(), label: None, port: None, network: None }
    }

    /// The container with its label set.
    pub fn with_label(self, label: &str) -> (r: Container)
        ensures
            r@ == (ContainerView { label: Some(label@), ..self@ }),
    {
        Container { label: Some(label.to_owned()), ..self }
    }

    /// The container with its port set.
    pub fn with_port(self, port: u16) -> (r: Container)
        ensures
            r@ == (ContainerView { port: Some(port), ..self@ }),
    {
        Container { port: Some(port), ..self }
    }

    /// The container with its network set.
    pub fn with_network(self, network: &str) -> (r: Container)
        ensures
            r@ == (ContainerView { network: Some(network@), ..self@ }),
    {
        Container { network: Some(network.to_owned()), ..self }
    }

    /// The port the container listens on, or the default port.
    pub fn get_port(&self) -> (r: u16)
        ensures
            r == self@.port_or_default(),
    {
        match self.port {
            Some(p) => p,
            None => DEFAULT_PORT,
        }
    }

    /// A copy of the container.
    pub fn copy(&self) -> (r: Container)
        ensures
            r@ == self@,
    {
        Container {
            name: self.name.clone(),
            label: copy_opt_string(&self.label),
            port: self.port,
            network: copy_opt_string(&self.network),
        }
    }

    /// Whether the container is named, or labelled, by `id`.
    pub fn matches(&self, id: &String) -> (r: bool)
        ensures
            r == self@.matches_identifier(id@),
    {
        if self.name == *id {
            return true;
        }
        match &self.label {
            Some(l) => *l == *id,
            None => false,
        }
    }
}

impl Route {
    /// A route from a host port to a container.
    pub fn new(host_port: u16, target: &str) -> (r: Route)
        ensures
            r@ == (RouteView { host_port, target: target@ }),
    {
        Route { host_port, target: target.to_owned() }
    }

    /// A copy of the route.
    pub fn copy(&self) -> (r: Route)
        ensures
            r@ == self@,
    {
        Route { host_port: self.host_port, target: self.target.clone() }
    }
}

impl Default for Config {
    fn default() -> (r: Config)
        ensures
            r@ == spec_default_config(),
    {
        let r = Config {
            containers: Vec::new(),
            routes: Vec::new(),
            proxy_name: DEFAULT_PROXY_NAME.to_owned(),
            network: DEFAULT_NETWORK.to_owned(),
        };
        proof {
            assert(r@.containers =~= Seq::<ContainerView>::empty());
            assert(r@.routes =~= Seq::<RouteView>::empty());
        }
        r
    }
}

/// The configuration of a fresh installation.
pub open spec fn spec_default_config() -> ConfigView {
    ConfigView {
        containers: Seq::empty(),
        routes: Seq::empty(),
        proxy_name: DEFAULT_PROXY_NAME@,
        network: DEFAULT_NETWORK@,
    }
}

impl Config {
    /// The tag of the proxy's image: its name followed by `:latest`.
    pub fn get_proxy_image(&self) -> (r: String)
        ensures
            r@ == self@.proxy_image(),
    {
        let mut s = self.proxy_name.clone();
        s.append(PROXY_IMAGE_SUFFIX);
        s
    }

    /// The port a container listens on inside its network.
    pub fn get_internal_port(&self, container: &Container) -> (r: u16)
        ensures
            r == container@.port_or_default(),
    {
        container.get_port()
    }

    /// The host ports of all routes, in order, or the default port alone
    /// when there is no route.
    pub fn get_all_host_ports(&self) -> (r: Vec<u16>)
        ensures
            r@ == self@.host_ports(),
    {
        let mut ports: Vec<u16> = Vec::new();
        if self.routes.len() == 0 {
            ports.push(DEFAULT_PORT);
            proof {
                assert(ports@ =~= seq![DEFAULT_PORT]);
            }
            return ports;
        }
        let mut i: usize = 0;
        while i < self.routes.len()
            invariant
                0 <= i <= self.routes.len(),
                ports.len() == i,
                forall|k: int| 0 <= k < i ==> ports@[k] == self.routes@[k].host_port,
            decreases self.routes.len() - i,
        {
            ports.push(self.routes[i].host_port);
            i = i + 1;
        }
        proof {
            assert(ports@ =~= self@.routes.map_values(|r: RouteView| r.host_port));
        }
        ports
    }

    /// The index of the first container named or labelled `id`.
    pub fn index_of_container(&self, id: &String) -> (r: Option<usize>)
        ensures
            match r {
                Some(i) => is_first_match(self@.containers, id@, i as int),
                None => forall|j: int|
                    0 <= j < self@.containers.len() ==> !(#[trigger] self@.containers[j]).matches_identifier(id@),
            },
            r matches Some(i) ==> match_index(self@.containers, id@) == Some(i as int),
            r is None ==> match_index(self@.containers, id@) is None,
    {
        let mut i: usize = 0;
        while i < self.containers.len()
            invariant
                0 <= i <= self.containers.len(),
                forall|j: int| 0 <= j < i ==> !(#[trigger] self@.containers[j]).matches_identifier(id@),
            decreases self.containers.len() - i,
        {
            if self.containers[i].matches(id) {
                proof {
                    lemma_match_index(self@.containers, id@, i as int);
                }
                return Some(i);
            }
            i = i + 1;
        }
        None
    }

    /// The index of the first container named `name`.
    pub fn index_of_named(&self, name: &String) -> (r: Option<usize>)
        ensures
            match r {
                Some(i) => is_first_named(self@.containers, name@, i as int),
                None => forall|j: int|
                    0 <= j < self@.containers.len() ==> (#[trigger] self@.containers[j]).name != name@,
            },
            r matches Some(i) ==> named_index(self@.containers, name@) == Some(i as int),
            r is None ==> named_index(self@.containers, name@) is None,
    {
        let mut i: usize = 0;
        while i < self.containers.len()
            invariant
                0 <= i <= self.containers.len(),
                forall|j: int| 0 <= j < i ==> (#[trigger] self@.containers[j]).name != name@,
            decreases self.containers.len() - i,
        {
            if self.containers[i].name == *name {
                proof {
                    lemma_named_index(self@.containers, name@, i as int);
                }
                return Some(i);
            }
            i = i + 1;
        }
        None
    }

    /// The index of the first route from `host_port`.
    pub fn index_of_route(&self, host_port: u16) -> (r: Option<usize>)
        ensures
            match r {
                Some(i) => is_first_route(self@.routes, host_port, i as int),
                None => forall|j: int|
                    0 <= j < self@.routes.len() ==> (#[trigger] self@.routes[j]).host_port != host_port,
            },
            r matches Some(i) ==> route_index(self@.routes, host_port) == Some(i as int),
            r is None ==> route_index(self@.routes, host_port) is None,
    {
        let mut i: usize = 0;
        while i < self.routes.len()
            invariant
                0 <= i <= self.routes.len(),
                forall|j: int| 0 <= j < i ==> (#[trigger] self@.routes[j]).host_port != host_port,
            decreases self.routes.len() - i,
        {
            if self.routes[i].host_port == host_port {
                proof {
                    lemma_route_index(self@.routes, host_port, i as int);
                }
                return Some(i);
            }
            i = i + 1;
        }
        None
    }

    /// The first container whose name or label is `identifier`.
    pub fn find_container(&self, identifier: &str) -> (r: Option<&Container>)
        ensures
            match match_index(self@.containers, identifier@) {
                Some(i) => r matches Some(c) && c@ == self@.containers[i],
                None => r is None,
            },
    {
        let id = identifier.to_owned();
        match self.index_of_container(&id) {
            Some(i) => Some(&self.containers[i]),
            None => None,
        }
    }

    /// The first container whose name or label is `identifier`, to change.
    pub fn find_container_mut(&mut self, identifier: &str) -> (r: Option<&mut Container>)
        ensures
            match match_index(old(self)@.containers, identifier@) {
                Some(i) => r matches Some(c) && *c == old(self).containers@[i]
                    && final(self).containers@ == old(self).containers@.update(i, *final(c))
                    && final(self).routes == old(self).routes
                    && final(self).proxy_name == old(self).proxy_name
                    && final(self).network == old(self).network,
                None => r is None && *final(self) == *old(self),
            },
    {
        let id = identifier.to_owned();
        match self.index_of_container(&id) {
            Some(i) => Some(&mut self.containers[i]),
            None => None,
        }
    }

    /// The first route from `host_port`.
    pub fn find_route(&self, host_port: u16) -> (r: Option<&Route>)
        ensures
            match route_index(self@.routes, host_port) {
                Some(i) => r matches Some(rt) && rt@ == self@.routes[i],
                None => r is None,
            },
    {
        match self.index_of_route(host_port) {
            Some(i) => Some(&self.routes[i]),
            None => None,
        }
    }

    /// The first route from `host_port`, to change.
    pub fn find_route_mut(&mut self, host_port: u16) -> (r: Option<&mut Route>)
        ensures
            match route_index(old(self)@.routes, host_port) {
                Some(i) => r matches Some(rt) && *rt == old(self).routes@[i]
                    && final(self).routes@ == old(self).routes@.update(i, *final(rt))
                    && final(self).containers == old(self).containers
                    && final(self).proxy_name == old(self).proxy_name
                    && final(self).network == old(self).network,
                None => r is None && *final(self) == *old(self),
            },
    {
        match self.index_of_route(host_port) {
            Some(i) => Some(&mut self.routes[i]),
            None => None,
        }
    }
}

/// A container with the fields that `update` gives replacing those of
/// `existing`; the name stays.
pub open spec fn merge_container(existing: ContainerView, update: ContainerView) -> ContainerView {
    ContainerView {
        name: existing.name,
        label: if update.label is Some {
            update.label
        } else {
            existing.label
        },
        port: if update.port is Some {
            update.port
        } else {
            existing.port
        },
        network: if update.network is Some {
            update.network
        } else {
            existing.network
        },
    }
}

/// The containers after adding `c`, or merging it into the first container
/// of the same name.
pub open spec fn spec_add_or_update(cs: Seq<ContainerView>, c: ContainerView) -> Seq<
    ContainerView,
> {
    match named_index(cs, c.name) {
        Some(i) => cs.update(i, merge_container(cs[i], c)),
        None => cs.push(c),
    }
}

/// The predicate that keeps routes whose target is not `name`.
pub open spec fn targets_other_than(name: Seq<char>) -> spec_fn(RouteView) -> bool {
    |r: RouteView| r.target != name
}

/// The routes whose target is not `name`, in order.
pub open spec fn routes_without_target(rs: Seq<RouteView>, name: Seq<char>) -> Seq<RouteView> {
    rs.filter(targets_other_than(name))
}

/// The configuration after removing the first container named or labelled
/// `id`, with the routes to it.
pub open spec fn spec_remove_container(c: ConfigView, id: Seq<char>) -> ConfigView {
    match match_index(c.containers, id) {
        Some(i) => ConfigView {
            containers: c.containers.remove(i),
            routes: routes_without_target(c.routes, c.containers[i].name),
            ..c
        },
        None => c,
    }
}

/// The index at which a route from port `p` goes into the sorted routes
/// `s`: after every route whose port is at most `p`.
pub open spec fn insert_pos(s: Seq<RouteView>, p: u16) -> int
    decreases s.len(),
{
    if s.len() == 0 {
        0
    } else if s.last().host_port <= p {
        s.len() as int
    } else {
        insert_pos(s.drop_last(), p)
    }
}

/// The routes sorted by host port; routes with equal ports keep their order.
pub open spec fn sort_by_port(rs: Seq<RouteView>) -> Seq<RouteView>
    decreases rs.len(),
{
    if rs.len() == 0 {
        rs
    } else {
        let s = sort_by_port(rs.drop_last());
        s.insert(insert_pos(s, rs.last().host_port), rs.last())
    }
}

/// Whether the routes are in ascending order of host port.
pub open spec fn sorted_by_port(rs: Seq<RouteView>) -> bool {
    forall|i: int, j: int| 0 <= i <= j < rs.len() ==> rs[i].host_port <= rs[j].host_port
}

/// The routes after routing `port` to `target`: the first route from that
/// port changes its target, or a new route is added and all are sorted.
pub open spec fn spec_set_route(rs: Seq<RouteView>, port: u16, target: Seq<char>) -> Seq<
    RouteView,
> {
    match route_index(rs, port) {
        Some(i) => rs.update(i, RouteView { host_port: port, target }),
        None => sort_by_port(rs.push(RouteView { host_port: port, target })),
    }
}

/// The routes after removing the first route from `port`.
pub open spec fn spec_remove_route(rs: Seq<RouteView>, port: u16) -> Seq<RouteView> {
    match route_index(rs, port) {
        Some(i) => rs.remove(i),
        None => rs,
    }
}

/// The routes whose target is not `name`, in order.
pub fn retain_routes_not_targeting(routes: &Vec<Route>, name: &String) -> (r: Vec<Route>)
    ensures
        routes_view(r@) == routes_without_target(routes_view(routes@), name@),
{
    let mut out: Vec<Route> = Vec::new();
    let ghost rv = routes_view(routes@);
    let mut i: usize = 0;
    while i < routes.len()
        invariant
            0 <= i <= routes.len(),
            rv == routes_view(routes@),
            routes_view(out@) == rv.take(i as int).filter(targets_other_than(name@)),
        decreases routes.len() - i,
    {
        proof {
            assert(rv.take(i + 1) =~= rv.take(i as int).push(rv[i as int]));
            rv.take(i as int).lemma_filter_push(rv[i as int], targets_other_than(name@));
        }
        if routes[i].target != *name {
            out.push(routes[i].copy());
            proof {
                assert(routes_view(out@) =~= rv.take(i as int).filter(targets_other_than(name@)).push(
                    rv[i as int],
                ));
            }
        }
        i = i + 1;
    }
    proof {
        assert(rv.take(routes.len() as int) =~= rv);
    }
    out
}

/// The routes sorted by host port; routes with equal ports keep their order.
pub fn sort_routes(routes: &Vec<Route>) -> (r: Vec<Route>)
    ensures
        routes_view(r@) == sort_by_port(routes_view(routes@)),
{
    let mut out: Vec<Route> = Vec::new();
    let ghost rv = routes_view(routes@);
    let mut i: usize = 0;
    while i < routes.len()
        invariant
            0 <= i <= routes.len(),
            rv == routes_view(routes@),
            routes_view(out@) == sort_by_port(rv.take(i as int)),
            out.len() == i,
        decreases routes.len() - i,
    {
        let x = routes[i].copy();
        let p = x.host_port;
        let ghost s = routes_view(out@);
        let mut j: usize = out.len();
        proof {
            assert(s.take(j as int) =~= s);
        }
        while j > 0 && out[j - 1].host_port > p
            invariant
                s == routes_view(out@),
                0 <= j <= out.len(),
                insert_pos(s, p) == insert_pos(s.take(j as int), p),
            decreases j,
        {
            proof {
                assert(s.take(j as int).drop_last() =~= s.take(j - 1));
            }
            j = j - 1;
        }
        proof {
            if j > 0 {
                assert(s.take(j as int).last() == s[j - 1]);
            }
            assert(rv.take(i + 1).drop_last() =~= rv.take(i as int));
            assert(rv.take(i + 1).last() == x@);
        }
        out.insert(j, x);
        proof {
            assert(routes_view(out@) =~= s.insert(j as int, x@));
        }
        i = i + 1;
    }
    proof {
        assert(rv.take(routes.len() as int) =~= rv);
    }
    out
}

impl Config {
    /// Adds `container`, or, where a container of that name exists, sets
    /// each of its fields that `container` gives.
    pub fn add_or_update_container(&mut self, container: Container)
        ensures
            final(self)@ == (ConfigView {
                containers: spec_add_or_update(old(self)@.containers, container@),
                ..old(self)@
            }),
    {
        match self.index_of_named(&container.name) {
            Some(i) => {
                let existing = &self.containers[i];
                let merged = Container {
                    name: existing.name.clone(),
                    label: if container.label.is_some() {
                        container.label
                    } else {
                        copy_opt_string(&existing.label)
                    },
                    port: if container.port.is_some() {
                        container.port
                    } else {
                        existing.port
                    },
                    network: if container.network.is_some() {
                        container.network
                    } else {
                        copy_opt_string(&existing.network)
                    },
                };
                let ghost before = self.containers@;
                self.containers.set(i, merged);
                proof {
                    assert(containers_view(self.containers@) =~= containers_view(before).update(
                        i as int,
                        merge_container(containers_view(before)[i as int], container@),
                    ));
                }
            },
            None => {
                let ghost before = self.containers@;
                self.containers.push(container);
                proof {
                    assert(containers_view(self.containers@) =~= containers_view(before).push(
                        container@,
                    ));
                }
            },
        }
    }

    /// Removes the first container named or labelled `identifier`, and every
    /// route to it; gives the container removed.
    pub fn remove_container(&mut self, identifier: &str) -> (r: Option<Container>)
        ensures
            final(self)@ == spec_remove_container(old(self)@, identifier@),
            match match_index(old(self)@.containers, identifier@) {
                Some(i) => r matches Some(c) && c@ == old(self)@.containers[i],
                None => r is None,
            },
    {
        let id = identifier.to_owned();
        match self.index_of_container(&id) {
            Some(i) => {
                let ghost before = self.containers@;
                let removed = self.containers.remove(i);
                proof {
                    assert(containers_view(self.containers@) =~= containers_view(before).remove(
                        i as int,
                    ));
                }
                self.routes = retain_routes_not_targeting(&self.routes, &removed.name);
                Some(removed)
            },
            None => None,
        }
    }

    /// Routes `host_port` to `target`: changes the first route from that
    /// port, or adds a route and sorts the routes by port.
    pub fn set_route(&mut self, host_port: u16, target: &str)
        ensures
            final(self)@ == (ConfigView {
                routes: spec_set_route(old(self)@.routes, host_port, target@),
                ..old(self)@
            }),
    {
        let t = target.to_owned();
        match self.index_of_route(host_port) {
            Some(i) => {
                let ghost before = self.routes@;
                self.routes.set(i, Route { host_port, target: t });
                proof {
                    assert(routes_view(self.routes@) =~= routes_view(before).update(
                        i as int,
                        RouteView { host_port, target: target@ },
                    ));
                }
            },
            None => {
                let ghost before = self.routes@;
                self.routes.push(Route { host_port, target: t });
                proof {
                    assert(routes_view(self.routes@) =~= routes_view(before).push(
                        RouteView { host_port, target: target@ },
                    ));
                }
                self.routes = sort_routes(&self.routes);
            },
        }
    }

    /// Removes the first route from `host_port`; gives the route removed.
    pub fn remove_route(&mut self, host_port: u16) -> (r: Option<Route>)
        ensures
            final(self)@ == (ConfigView {
                routes: spec_remove_route(old(self)@.routes, host_port),
                ..old(self)@
            }),
            match route_index(old(self)@.routes, host_port) {
                Some(i) => r matches Some(rt) && rt@ == old(self)@.routes[i],
                None => r is None,
            },
    {
        match self.index_of_route(host_port) {
            Some(i) => {
                let ghost before = self.routes@;
                let removed = self.routes.remove(i);
                proof {
                    assert(routes_view(self.routes@) =~= routes_view(before).remove(i as int));
                }
                Some(removed)
            },
            None => None,
        }
    }
}

/// Why the configuration's location could not be found.
#[derive(Debug, Clone, Copy, PartialEq, Eq, Structural)]
pub enum ConfigError {
    /// The platform gave no data directory for the user.
    NoHomeDirectory,
}

/// Calls `dirs::data_dir` and gives the path as text (a path that is not
/// Unicode is converted lossily). Nothing is stated of the result: it
/// depends on the environment and the platform.
#[verifier::external_body]
fn data_dir() -> Option<String> {
    match dirs::data_dir() {
        Some(p) => Some(p.to_string_lossy().into_owned()),
        None => None,
    }
}

impl Config {
    /// The application's directory inside the user's data directory.
    pub fn config_dir() -> (r: Result<String, ConfigError>)
        ensures
            match r {
                Ok(p) => exists|d: Seq<char>| p@ == #[trigger] config_dir_under(d),
                Err(e) => e == ConfigError::NoHomeDirectory,
            },
    {
        match data_dir() {
            Some(d) => Ok(config_dir_in(d.as_str())),
            None => Err(ConfigError::NoHomeDirectory),
        }
    }

    /// The configuration file inside the user's data directory.
    pub fn config_file() -> (r: Result<String, ConfigError>)
        ensures
            match r {
                Ok(p) => exists|d: Seq<char>| p@ == #[trigger] config_file_under(d),
                Err(e) => e == ConfigError::NoHomeDirectory,
            },
    {
        match data_dir() {
            Some(d) => Ok(config_file_in(d.as_str())),
            None => Err(ConfigError::NoHomeDirectory),
        }
    }

    /// The build directory inside the user's data directory.
    pub fn build_dir() -> (r: Result<String, ConfigError>)
        ensures
            match r {
                Ok(p) => exists|d: Seq<char>| p@ == #[trigger] build_dir_under(d),
                Err(e) => e == ConfigError::NoHomeDirectory,
            },
    {
        match data_dir() {
            Some(d) => Ok(build_dir_in(d.as_str())),
            None => Err(ConfigError::NoHomeDirectory),
        }
    }
}

/// The predicate that holds of routes from `q`.
pub open spec fn port_is(q: u16) -> spec_fn(RouteView) -> bool {
    |r: RouteView| r.host_port == q
}

/// The first route from `port`, if any.
pub open spec fn spec_find_route(rs: Seq<RouteView>, port: u16) -> Option<RouteView> {
    match route_index(rs, port) {
        Some(i) => Some(rs[i]),
        None => None,
    }
}

/// Filtering distributes over a split of the sequence.
proof fn lemma_filter_split(s: Seq<RouteView>, i: int, p: spec_fn(RouteView) -> bool)
    requires
        0 <= i <= s.len(),
    ensures
        s.filter(p) == s.take(i).filter(p) + s.skip(i).filter(p),
{
    assert(s =~= s.take(i) + s.skip(i));
    Seq::filter_distributes_over_add(s.take(i), s.skip(i), p);
}

/// Inserting an element the predicate rejects leaves the filter unchanged.
proof fn lemma_filter_insert_rejected(s: Seq<RouteView>, i: int, x: RouteView, p: spec_fn(RouteView) -> bool)
    requires
        0 <= i <= s.len(),
        !p(x),
    ensures
        s.insert(i, x).filter(p) == s.filter(p),
{
    let t = s.insert(i, x);
    assert(t =~= s.take(i).push(x) + s.skip(i));
    Seq::filter_distributes_over_add(s.take(i).push(x), s.skip(i), p);
    s.take(i).lemma_filter_push(x, p);
    lemma_filter_split(s, i, p);
}

/// Filtering a sequence none of whose elements the predicate keeps gives
/// nothing.
proof fn lemma_filter_none(s: Seq<RouteView>, p: spec_fn(RouteView) -> bool)
    requires
        forall|k: int| 0 <= k < s.len() ==> !p(#[trigger] s[k]),
    ensures
        s.filter(p) == Seq::<RouteView>::empty(),
    decreases s.len(),
{
    reveal(Seq::filter);
    if s.len() > 0 {
        lemma_filter_none(s.drop_last(), p);
    }
}

/// The insertion position lies within the sequence.
proof fn lemma_insert_pos_bounds(s: Seq<RouteView>, p: u16)
    ensures
        0 <= insert_pos(s, p) <= s.len(),
    decreases s.len(),
{
    if s.len() > 0 {
        lemma_insert_pos_bounds(s.drop_last(), p);
    }
}

/// In sorted routes, those before the insertion position have ports at
/// most `p`, those from it on have greater ports.
proof fn lemma_insert_pos_split(s: Seq<RouteView>, p: u16)
    requires
        sorted_by_port(s),
    ensures
        0 <= insert_pos(s, p) <= s.len(),
        forall|k: int| 0 <= k < insert_pos(s, p) ==> (#[trigger] s[k]).host_port <= p,
        forall|k: int| insert_pos(s, p) <= k < s.len() ==> (#[trigger] s[k]).host_port > p,
    decreases s.len(),
{
    lemma_insert_pos_bounds(s, p);
    if s.len() > 0 {
        let d = s.drop_last();
        assert(sorted_by_port(d));
        lemma_insert_pos_split(d, p);
        if s.last().host_port <= p {
            assert forall|k: int| 0 <= k < insert_pos(s, p) implies (#[trigger] s[k]).host_port <= p by {
                assert(s[k].host_port <= s[s.len() - 1].host_port);
            }
        } else {
            assert forall|k: int| insert_pos(s, p) <= k < s.len() implies (#[trigger] s[k]).host_port > p by {
                if k < s.len() - 1 {
                    assert(d[k] == s[k]);
                }
            }
            assert forall|k: int| 0 <= k < insert_pos(s, p) implies (#[trigger] s[k]).host_port <= p by {
                assert(d[k] == s[k]);
            }
        }
    }
}

/// Sorting by port gives routes in ascending order of port.
pub proof fn lemma_sort_by_port_sorted(rs: Seq<RouteView>)
    ensures
        sorted_by_port(sort_by_port(rs)),
        sort_by_port(rs).len() == rs.len(),
    decreases rs.len(),
{
    if rs.len() > 0 {
        let s = sort_by_port(rs.drop_last());
        lemma_sort_by_port_sorted(rs.drop_last());
        let x = rs.last();
        let ip = insert_pos(s, x.host_port);
        lemma_insert_pos_split(s, x.host_port);
        let t = s.insert(ip, x);
        s.insert_ensures(ip, x);
        assert forall|i: int, j: int| 0 <= i <= j < t.len() implies t[i].host_port <= t[j].host_port by {
            if i < ip {
                if j < ip {
                } else if j == ip {
                } else {
                    assert(t[j] == s[j - 1]);
                }
            } else if i == ip {
                if j > ip {
                    assert(t[j] == s[j - 1]);
                }
            } else {
                assert(t[i] == s[i - 1]);
                assert(t[j] == s[j - 1]);
            }
        }
    }
}

/// Sorting by port keeps, for each port, the routes from that port in their
/// order: with the sorted order this makes the sort stable.
pub proof fn lemma_sort_by_port_stable(rs: Seq<RouteView>, q: u16)
    ensures
        sort_by_port(rs).filter(port_is(q)) == rs.filter(port_is(q)),
    decreases rs.len(),
{
    if rs.len() > 0 {
        let d = rs.drop_last();
        let s = sort_by_port(d);
        lemma_sort_by_port_stable(d, q);
        lemma_sort_by_port_sorted(d);
        let x = rs.last();
        let ip = insert_pos(s, x.host_port);
        lemma_insert_pos_split(s, x.host_port);
        assert(rs =~= d.push(x));
        d.lemma_filter_push(x, port_is(q));
        if x.host_port != q {
            lemma_filter_insert_rejected(s, ip, x, port_is(q));
        } else {
            let t = s.insert(ip, x);
            assert(t =~= s.take(ip).push(x) + s.skip(ip));
            Seq::filter_distributes_over_add(s.take(ip).push(x), s.skip(ip), port_is(q));
            s.take(ip).lemma_filter_push(x, port_is(q));
            lemma_filter_split(s, ip, port_is(q));
            assert forall|k: int| 0 <= k < s.skip(ip).len() implies !port_is(q)(#[trigger] s.skip(ip)[k]) by {
                assert(s.skip(ip)[k] == s[ip + k]);
            }
            lemma_filter_none(s.skip(ip), port_is(q));
            assert(s.take(ip).filter(port_is(q)) + Seq::<RouteView>::empty() =~= s.take(ip).filter(port_is(q)));
        }
    }
}

/// Inserting an element adds it to the multiset of elements.
proof fn lemma_insert_multiset(s: Seq<RouteView>, i: int, x: RouteView)
    requires
        0 <= i <= s.len(),
    ensures
        s.insert(i, x).to_multiset() == s.to_multiset().insert(x),
{
    broadcast use vstd::seq_lib::group_to_multiset_ensures;
    let t = s.insert(i, x);
    s.insert_ensures(i, x);
    assert(t.remove(i) =~= s);
    assert(t[i] == x);
    assert(t.contains(x));
    assert(t.to_multiset().count(x) > 0);
    assert(t.to_multiset() =~= s.to_multiset().insert(x));
}

/// Sorting by port keeps every route, each as often as it occurs.
pub proof fn lemma_sort_by_port_permutation(rs: Seq<RouteView>)
    ensures
        sort_by_port(rs).to_multiset() == rs.to_multiset(),
    decreases rs.len(),
{
    broadcast use vstd::seq_lib::group_to_multiset_ensures;
    if rs.len() > 0 {
        let d = rs.drop_last();
        let s = sort_by_port(d);
        lemma_sort_by_port_permutation(d);
        lemma_sort_by_port_sorted(d);
        let x = rs.last();
        lemma_insert_pos_bounds(s, x.host_port);
        lemma_insert_multiset(s, insert_pos(s, x.host_port), x);
        assert(rs =~= d.push(x));
    }
}

/// Sorting routes that are already in order changes nothing.
pub proof fn lemma_sort_by_port_sorted_unchanged(rs: Seq<RouteView>)
    requires
        sorted_by_port(rs),
    ensures
        sort_by_port(rs) == rs,
    decreases rs.len(),
{
    if rs.len() > 0 {
        let d = rs.drop_last();
        assert(sorted_by_port(d));
        lemma_sort_by_port_sorted_unchanged(d);
        let x = rs.last();
        if d.len() > 0 {
            assert(d.last().host_port <= x.host_port);
        }
        assert(insert_pos(d, x.host_port) == d.len());
        assert(d.insert(d.len() as int, x) =~= rs);
    }
}

/// A route from `p` exists only if a first one does.
proof fn lemma_first_route_exists(rs: Seq<RouteView>, p: u16, j: int)
    requires
        0 <= j < rs.len(),
        rs[j].host_port == p,
    ensures
        route_index(rs, p) is Some,
    decreases j,
{
    if exists|k: int| 0 <= k < j && rs[k].host_port == p {
        let k = choose|k: int| 0 <= k < j && rs[k].host_port == p;
        lemma_first_route_exists(rs, p, k);
    } else {
        assert(is_first_route(rs, p, j));
    }
}

/// After routing `p` to `t`, the route from `p` leads to `t`.
pub proof fn lemma_set_route_then_find(rs: Seq<RouteView>, p: u16, t: Seq<char>)
    ensures
        spec_find_route(spec_set_route(rs, p, t), p) == Some(RouteView { host_port: p, target: t }),
{
    broadcast use vstd::seq_lib::group_to_multiset_ensures;
    let new = RouteView { host_port: p, target: t };
    match route_index(rs, p) {
        Some(i) => {
            let u = rs.update(i, new);
            assert(is_first_route(rs, p, i));
            assert(is_first_route(u, p, i));
            lemma_route_index(u, p, i);
        },
        None => {
            let pushed = rs.push(new);
            let res = sort_by_port(pushed);
            lemma_sort_by_port_permutation(pushed);
            assert(pushed[rs.len() as int] == new);
            assert(pushed.contains(new));
            assert(res.to_multiset().count(new) > 0);
            assert(res.contains(new));
            let j = choose|j: int| 0 <= j < res.len() && res[j] == new;
            lemma_first_route_exists(res, p, j);
            let k = route_index(res, p)->0;
            assert(is_first_route(res, p, k));
            let e = res[k];
            assert(res.contains(e));
            assert(pushed.to_multiset().count(e) > 0);
            assert(pushed.contains(e));
            if e != new {
                let m = choose|m: int| 0 <= m < pushed.len() && pushed[m] == e;
                assert(m < rs.len());
                assert(rs[m].host_port == p);
                lemma_first_route_exists(rs, p, m);
            }
        },
    }
}

/// Routing a port leaves the routes from every other port as they were,
/// in order.
pub proof fn lemma_set_route_other_ports(rs: Seq<RouteView>, p: u16, t: Seq<char>, q: u16)
    requires
        q != p,
    ensures
        spec_set_route(rs, p, t).filter(port_is(q)) == rs.filter(port_is(q)),
{
    let new = RouteView { host_port: p, target: t };
    match route_index(rs, p) {
        Some(i) => {
            assert(is_first_route(rs, p, i));
            let u = rs.update(i, new);
            lemma_filter_split(rs, i, port_is(q));
            lemma_filter_split(u, i, port_is(q));
            assert(u.take(i) =~= rs.take(i));
            assert(u.skip(i) =~= rs.skip(i).update(0, new));
            assert(rs.skip(i) =~= seq![rs[i]] + rs.skip(i + 1));
            assert(u.skip(i) =~= seq![new] + rs.skip(i + 1));
            Seq::filter_distributes_over_add(seq![rs[i]], rs.skip(i + 1), port_is(q));
            Seq::filter_distributes_over_add(seq![new], rs.skip(i + 1), port_is(q));
            Seq::<RouteView>::empty().lemma_filter_push(rs[i], port_is(q));
            Seq::<RouteView>::empty().lemma_filter_push(new, port_is(q));
            assert(seq![rs[i]] =~= Seq::<RouteView>::empty().push(rs[i]));
            assert(seq![new] =~= Seq::<RouteView>::empty().push(new));
            reveal(Seq::filter);
        },
        None => {
            lemma_sort_by_port_stable(rs.push(new), q);
            rs.lemma_filter_push(new, port_is(q));
        },
    }
}

/// Routing a port keeps sorted routes sorted.
pub proof fn lemma_set_route_keeps_sorted(rs: Seq<RouteView>, p: u16, t: Seq<char>)
    requires
        sorted_by_port(rs),
    ensures
        sorted_by_port(spec_set_route(rs, p, t)),
{
    match route_index(rs, p) {
        Some(i) => {
            assert(is_first_route(rs, p, i));
        },
        None => {
            lemma_sort_by_port_sorted(rs.push(RouteView { host_port: p, target: t }));
        },
    }
}

/// After removing a container, no route leads to it.
pub proof fn lemma_remove_container_removes_routes(c: ConfigView, id: Seq<char>)
    requires
        match_index(c.containers, id) is Some,
    ensures
        forall|k: int|
            0 <= k < spec_remove_container(c, id).routes.len() ==> (#[trigger] spec_remove_container(
                c,
                id,
            ).routes[k]).target != c.containers[match_index(c.containers, id)->0].name,
{
    let i = match_index(c.containers, id)->0;
    let name = c.containers[i].name;
    broadcast use vstd::seq_lib::group_filter_ensures;
    assert forall|k: int|
        0 <= k < spec_remove_container(c, id).routes.len() implies (#[trigger] spec_remove_container(
        c,
        id,
    ).routes[k]).target != name by {
        c.routes.lemma_filter_pred(targets_other_than(name), k);
    }
}

/// After adding or updating a container, the first container of its name
/// holds each field given, and keeps each field not given.
pub proof fn lemma_add_or_update_then_find(cs: Seq<ContainerView>, c: ContainerView)
    ensures
        spec_find_named(spec_add_or_update(cs, c), c.name) == Some(
            match spec_find_named(cs, c.name) {
                Some(old) => merge_container(old, c),
                None => c,
            },
        ),
{
    match named_index(cs, c.name) {
        Some(i) => {
            assert(is_first_named(cs, c.name, i));
            let u = cs.update(i, merge_container(cs[i], c));
            assert(is_first_named(u, c.name, i));
            lemma_named_index(u, c.name, i);
        },
        None => {
            let u = cs.push(c);
            assert forall|j: int| 0 <= j < cs.len() implies (#[trigger] cs[j]).name != c.name by {
                if cs[j].name == c.name {
                    assert(exists|k: int| is_first_named(cs, c.name, k)) by {
                        lemma_first_named_exists(cs, c.name, j);
                    }
                }
            }
            assert(is_first_named(u, c.name, cs.len() as int));
            lemma_named_index(u, c.name, cs.len() as int);
        },
    }
}

/// A container named `name` exists only if a first one does.
proof fn lemma_first_named_exists(cs: Seq<ContainerView>, name: Seq<char>, j: int)
    requires
        0 <= j < cs.len(),
        cs[j].name == name,
    ensures
        exists|k: int| is_first_named(cs, name, k),
    decreases j,
{
    if exists|k: int| 0 <= k < j && cs[k].name == name {
        let k = choose|k: int| 0 <= k < j && cs[k].name == name;
        lemma_first_named_exists(cs, name, k);
    } else {
        assert(is_first_named(cs, name, j));
    }
}

/// A container that `id` names or labels exists only if a first one does.
proof fn lemma_first_match_exists(cs: Seq<ContainerView>, id: Seq<char>, j: int)
    requires
        0 <= j < cs.len(),
        cs[j].matches_identifier(id),
    ensures
        match_index(cs, id) is Some,
    decreases j,
{
    if exists|k: int| 0 <= k < j && cs[k].matches_identifier(id) {
        let k = choose|k: int| 0 <= k < j && cs[k].matches_identifier(id);
        lemma_first_match_exists(cs, id, k);
    } else {
        assert(is_first_match(cs, id, j));
    }
}

/// Whether no two routes come from the same host port.
pub open spec fn distinct_ports(rs: Seq<RouteView>) -> bool {
    forall|i: int, j: int| 0 <= i < j < rs.len() ==> rs[i].host_port != rs[j].host_port
}

/// Sorting routes by port keeps their ports distinct.
proof fn lemma_sort_by_port_distinct(rs: Seq<RouteView>)
    requires
        distinct_ports(rs),
    ensures
        distinct_ports(sort_by_port(rs)),
    decreases rs.len(),
{
    broadcast use vstd::seq_lib::group_to_multiset_ensures;
    if rs.len() > 0 {
        let d = rs.drop_last();
        let s = sort_by_port(d);
        let x = rs.last();
        lemma_sort_by_port_distinct(d);
        lemma_sort_by_port_permutation(d);
        lemma_sort_by_port_sorted(d);
        lemma_insert_pos_bounds(s, x.host_port);
        let ip = insert_pos(s, x.host_port);
        let t = s.insert(ip, x);
        s.insert_ensures(ip, x);
        assert forall|k: int| 0 <= k < s.len() implies (#[trigger] s[k]).host_port != x.host_port by {
            assert(s.contains(s[k]));
            assert(s.to_multiset().count(s[k]) > 0);
            assert(d.to_multiset().count(s[k]) > 0);
            assert(d.contains(s[k]));
            let j = choose|j: int| 0 <= j < d.len() && d[j] == s[k];
            assert(rs[j] == d[j]);
            assert(rs[rs.len() - 1] == x);
        }
        assert forall|i: int, j: int| 0 <= i < j < t.len() implies t[i].host_port != t[j].host_port by {
            if i < ip {
                if j == ip {
                } else if j > ip {
                    assert(t[j] == s[j - 1]);
                }
            } else if i == ip {
                assert(t[j] == s[j - 1]);
            } else {
                assert(t[i] == s[i - 1]);
                assert(t[j] == s[j - 1]);
            }
        }
    }
}

/// Routing a port keeps the routes' host ports distinct: `set_route`, and
/// so `ops::switch_route`, never add a second route from a port.
pub proof fn lemma_set_route_keeps_ports_distinct(rs: Seq<RouteView>, p: u16, t: Seq<char>)
    requires
        distinct_ports(rs),
    ensures
        distinct_ports(spec_set_route(rs, p, t)),
{
    match route_index(rs, p) {
        Some(i) => {
            assert(is_first_route(rs, p, i));
        },
        None => {
            let n = rs.push(RouteView { host_port: p, target: t });
            assert forall|i: int| 0 <= i < rs.len() implies (#[trigger] rs[i]).host_port != p by {
                if rs[i].host_port == p {
                    lemma_first_route_exists(rs, p, i);
                }
            }
            assert forall|i: int, j: int| 0 <= i < j < n.len() implies n[i].host_port != n[j].host_port by {
                if j == rs.len() {
                    assert(n[i] == rs[i]);
                } else {
                    assert(n[i] == rs[i] && n[j] == rs[j]);
                }
            }
            lemma_sort_by_port_distinct(n);
        },
    }
}

/// Adding a container whose name is already configured updates that
/// container in place: each field given replaces the old one, each field
/// not given (label, port, network) keeps its old value, the name stays,
/// and every other container is unchanged. A new name is appended as given.
pub proof fn lemma_add_or_update_fields(cs: Seq<ContainerView>, c: ContainerView)
    ensures
        match named_index(cs, c.name) {
            Some(i) => {
                let after = spec_add_or_update(cs, c);
                &&& after.len() == cs.len()
                &&& after[i].name == cs[i].name
                &&& after[i].name == c.name
                &&& after[i].label == (if c.label is None {
                    cs[i].label
                } else {
                    c.label
                })
                &&& after[i].port == (if c.port is None {
                    cs[i].port
                } else {
                    c.port
                })
                &&& after[i].network == (if c.network is None {
                    cs[i].network
                } else {
                    c.network
                })
                &&& forall|j: int| 0 <= j < cs.len() && j != i ==> after[j] == cs[j]
            },
            None => spec_add_or_update(cs, c) == cs.push(c)
                && forall|j: int| 0 <= j < cs.len() ==> cs[j].name != c.name,
        },
{
    match named_index(cs, c.name) {
        Some(i) => {
            assert(is_first_named(cs, c.name, i));
        },
        None => {
            assert forall|j: int| 0 <= j < cs.len() implies cs[j].name != c.name by {
                if cs[j].name == c.name {
                    lemma_first_named_exists(cs, c.name, j);
                }
            }
        },
    }
}

/// Removing a container by name or label drops exactly the first match and
/// the routes to its name: every other container and every route to
/// another target is kept, in order.
pub proof fn lemma_remove_container_keeps_the_rest(c: ConfigView, id: Seq<char>)
    ensures
        match match_index(c.containers, id) {
            Some(i) => {
                let after = spec_remove_container(c, id);
                let name = c.containers[i].name;
                &&& c.containers[i].name == id || c.containers[i].label == Some(id)
                &&& after.containers == c.containers.take(i) + c.containers.skip(i + 1)
                &&& after.routes == c.routes.filter(|r: RouteView| r.target != name)
                &&& forall|r: RouteView| #[trigger] after.routes.contains(r) <==> (c.routes.contains(r) && r.target != name)
                &&& after.proxy_name == c.proxy_name && after.network == c.network
            },
            None => spec_remove_container(c, id) == c && forall|j: int|
                0 <= j < c.containers.len() ==> !(#[trigger] c.containers[j]).matches_identifier(id),
        },
{
    match match_index(c.containers, id) {
        Some(i) => {
            assert(is_first_match(c.containers, id, i));
            let name = c.containers[i].name;
            let after = spec_remove_container(c, id);
            assert(c.containers.remove(i) =~= c.containers.take(i) + c.containers.skip(i + 1));
            assert(targets_other_than(name) =~= |r: RouteView| r.target != name);
            lemma_filter_contains_iff(c.routes, |r: RouteView| r.target != name);
        },
        None => {
            assert forall|j: int| 0 <= j < c.containers.len() implies !(#[trigger] c.containers[j]).matches_identifier(id) by {
                if c.containers[j].matches_identifier(id) {
                    lemma_first_match_exists(c.containers, id, j);
                }
            }
        },
    }
}

/// A route is kept by a filter exactly when it was there and the filter
/// holds of it.
pub proof fn lemma_filter_contains_iff(rs: Seq<RouteView>, p: spec_fn(RouteView) -> bool)
    ensures
        forall|r: RouteView| #[trigger] rs.filter(p).contains(r) <==> (rs.contains(r) && p(r)),
{
    assert forall|r: RouteView| #[trigger] rs.filter(p).contains(r) <==> (rs.contains(r) && p(r)) by {
        if rs.contains(r) && p(r) {
            let k = choose|k: int| 0 <= k < rs.len() && rs[k] == r;
            rs.lemma_filter_contains(p, k);
        }
        if rs.filter(p).contains(r) {
            let k = choose|k: int| 0 <= k < rs.filter(p).len() && rs.filter(p)[k] == r;
            rs.lemma_filter_pred(p, k);
            rs.lemma_filter_contains_rev(p, r);
        }
    }
}

} // verus!
