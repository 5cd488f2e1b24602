//! The texts that the proxy manager shows, and its build files.
use crate::config::{Config, ConfigView, ContainerView, RouteView, spec_find_named};
use crate::docker::{NetworkInfo, network_line, spec_network_line};
use crate::nginx::{NginxStyle, render_dockerfile, render_nginx_config, spec_dockerfile, spec_nginx_config};
use crate::ops::{Connection, SwitchResult, container_line, render_container_line};
use crate::text::{decimal, join_ports, join_seqs, join_strings, port_texts, push_decimal, string_views};
use vstd::prelude::*;

verus! {

/// The layout of the manager's Nginx configuration: indented blocks, each
/// ending with a line break and separated by a line break, a final line
/// break, targets named by container name only.
pub open spec fn manager_style() -> NginxStyle {
    NginxStyle {
        flat: false,
        block_newline: true,
        blank_line_between: false,
        final_newline: true,
        by_label: false,
    }
}

/// The Nginx configuration: one server block for each route whose target is
/// the name of a configured container, with a fallback page.
pub fn generate_nginx_config(config: &Config) -> (r: String)
    ensures
        r@ == spec_nginx_config(manager_style(), config@),
{
    render_nginx_config(
        config,
        NginxStyle {
            flat: false,
            block_newline: true,
            blank_line_between: false,
            final_newline: true,
            by_label: false,
        },
    )
}

/// The Dockerfile of the proxy image, exposing the given host ports.
pub fn generate_dockerfile(host_ports: &[u16]) -> (r: String)
    ensures
        r@ == spec_dockerfile(host_ports@, true),
{
    render_dockerfile(host_ports, true)
}

/// Text pieces of the manager's output.
pub const NO_CONTAINERS: &'static str = "No containers configured";
pub const CONFIGURED_HEADER: &'static str = "Configured containers:";
pub const RUNNING_HEADER: &'static str = "Running containers:";
pub const NETWORKS_HEADER: &'static str = "Available Docker networks:";
pub const STARTED_PREFIX: &'static str = "Proxy started on port(s): ";
pub const NOT_RUNNING: &'static str = "Proxy not running";
pub const PROXY_PREFIX: &'static str = "Proxy: ";
pub const OPEN_PAREN: &'static str = " (";
pub const CLOSE_PAREN: &'static str = ")";
pub const ACTIVE_ROUTES: &'static str = "Active routes:";
pub const INDENT: &'static str = "  ";
pub const ARROW: &'static str = " -> ";
pub const COLON: &'static str = ":";
pub const NOT_FOUND: &'static str = " (container not found)";
pub const LINE_BREAK: &'static str = "\n";
pub const COMMA: &'static str = ", ";

/// The list of configured containers, one indented line each under a
/// heading, or a note that there is none.
pub open spec fn spec_containers_output(c: ConfigView) -> Seq<char> {
    if c.containers.len() == 0 {
        NO_CONTAINERS@
    } else {
        join_seqs(
            seq![CONFIGURED_HEADER@] + c.containers.map_values(
                |cv: ContainerView| INDENT@ + container_line(c, cv),
            ),
            LINE_BREAK@,
        )
    }
}

/// The list of configured containers.
pub fn containers_output(config: &Config) -> (r: String)
    ensures
        r@ == spec_containers_output(config@),
{
    if config.containers.len() == 0 {
        return NO_CONTAINERS.to_owned();
    }
    let mut lines: Vec<String> = Vec::new();
    lines.push(CONFIGURED_HEADER.to_owned());
    let mut i: usize = 0;
    while i < config.containers.len()
        invariant
            0 <= i <= config.containers.len(),
            lines.len() == i + 1,
            lines@[0]@ == CONFIGURED_HEADER@,
            forall|k: int|
                1 <= k <= i ==> (#[trigger] lines@[k])@ == INDENT@ + container_line(
                    config@,
                    config@.containers[k - 1],
                ),
        decreases config.containers.len() - i,
    {
        let mut line = INDENT.to_owned();
        let rest = render_container_line(config, &config.containers[i]);
        line.append(rest.as_str());
        lines.push(line);
        i = i + 1;
    }
    proof {
        assert(string_views(lines@) =~= seq![CONFIGURED_HEADER@] + config@.containers.map_values(
            |cv: ContainerView| INDENT@ + container_line(config@, cv),
        ));
    }
    join_strings(&lines, LINE_BREAK)
}

/// A heading followed by one line for each item.
pub open spec fn spec_listing(header: Seq<char>, lines: Seq<Seq<char>>) -> Seq<char> {
    join_seqs(seq![header] + lines, LINE_BREAK@)
}

/// The containers that the engine lists, indented under a heading.
pub fn detected_output(names: &Vec<String>) -> (r: String)
    ensures
        r@ == spec_listing(RUNNING_HEADER@, string_views(names@).map_values(|n: Seq<char>| INDENT@ + n)),
{
    let mut lines: Vec<String> = Vec::new();
    lines.push(RUNNING_HEADER.to_owned());
    let mut i: usize = 0;
    while i < names.len()
        invariant
            0 <= i <= names.len(),
            lines.len() == i + 1,
            lines@[0]@ == RUNNING_HEADER@,
            forall|k: int| 1 <= k <= i ==> (#[trigger] lines@[k])@ == INDENT@ + names@[k - 1]@,
        decreases names.len() - i,
    {
        let mut line = INDENT.to_owned();
        line.append(names[i].as_str());
        lines.push(line);
        i = i + 1;
    }
    proof {
        assert(string_views(lines@) =~= seq![RUNNING_HEADER@] + string_views(names@).map_values(
            |n: Seq<char>| INDENT@ + n,
        ));
    }
    join_strings(&lines, LINE_BREAK)
}

/// The networks that the engine lists, one line each under a heading.
pub fn networks_output(nets: &Vec<NetworkInfo>) -> (r: String)
    ensures
        r@ == spec_listing(
            NETWORKS_HEADER@,
            nets@.map_values(
                |n: NetworkInfo| spec_network_line(n.name@, n.driver@, n.containers as nat, n.scope@),
            ),
        ),
{
    let mut lines: Vec<String> = Vec::new();
    lines.push(NETWORKS_HEADER.to_owned());
    let mut i: usize = 0;
    while i < nets.len()
        invariant
            0 <= i <= nets.len(),
            lines.len() == i + 1,
            lines@[0]@ == NETWORKS_HEADER@,
            forall|k: int|
                1 <= k <= i ==> (#[trigger] lines@[k])@ == spec_network_line(
                    nets@[k - 1].name@,
                    nets@[k - 1].driver@,
                    nets@[k - 1].containers as nat,
                    nets@[k - 1].scope@,
                ),
        decreases nets.len() - i,
    {
        lines.push(network_line(&nets[i]));
        i = i + 1;
    }
    proof {
        assert(string_views(lines@) =~= seq![NETWORKS_HEADER@] + nets@.map_values(
            |n: NetworkInfo| spec_network_line(n.name@, n.driver@, n.containers as nat, n.scope@),
        ));
    }
    join_strings(&lines, LINE_BREAK)
}

/// The message after the proxy started on `ports`.
pub fn started_output(ports: &[u16]) -> (r: String)
    ensures
        r@ == STARTED_PREFIX@ + join_seqs(port_texts(ports@), COMMA@),
{
    let mut s = STARTED_PREFIX.to_owned();
    let joined = join_ports(ports, COMMA);
    s.append(joined.as_str());
    s
}

/// The line that describes a route in the status: the container's port when
/// a container has the target's name, else a note that it is missing.
pub open spec fn status_route_line(c: ConfigView, r: RouteView) -> Seq<char> {
    INDENT@ + decimal(r.host_port as nat) + ARROW@ + r.target + match spec_find_named(
        c.containers,
        r.target,
    ) {
        Some(cv) => COLON@ + decimal(cv.port_or_default() as nat),
        None => NOT_FOUND@,
    }
}

/// The status of the proxy: a note when the engine has no state for it, else
/// its name and state and one line for each route.
pub open spec fn spec_status_output(c: ConfigView, status: Option<Seq<char>>) -> Seq<char> {
    match status {
        None => NOT_RUNNING@,
        Some(st) => join_seqs(
            seq![PROXY_PREFIX@ + c.proxy_name + OPEN_PAREN@ + st + CLOSE_PAREN@, Seq::empty(), ACTIVE_ROUTES@]
                + c.routes.map_values(|r: RouteView| status_route_line(c, r)),
            LINE_BREAK@,
        ),
    }
}

/// The line that describes a route in the status.
pub fn render_status_route_line(config: &Config, i: usize) -> (r: String)
    requires
        i < config.routes.len(),
    ensures
        r@ == status_route_line(config@, config@.routes[i as int]),
{
    let route = &config.routes[i];
    let mut s = INDENT.to_owned();
    push_decimal(&mut s, route.host_port as u64);
    s.append(ARROW);
    s.append(route.target.as_str());
    match config.index_of_named(&route.target) {
        Some(j) => {
            s.append(COLON);
            push_decimal(&mut s, config.containers[j].get_port() as u64);
        },
        None => {
            s.append(NOT_FOUND);
        },
    }
    proof {
        assert(s@ =~= status_route_line(config@, config@.routes[i as int]));
    }
    s
}

/// The status of the proxy, given the state the engine reports.
pub fn status_output(config: &Config, status: Option<String>) -> (r: String)
    ensures
        r@ == spec_status_output(
            config@,
            match status {
                Some(s) => Some(s@),
                None => None,
            },
        ),
{
    let st = match status {
        Some(s) => s,
        None => return NOT_RUNNING.to_owned(),
    };
    let mut head = PROXY_PREFIX.to_owned();
    head.append(config.proxy_name.as_str());
    head.append(OPEN_PAREN);
    head.append(st.as_str());
    head.append(CLOSE_PAREN);
    let mut lines: Vec<String> = Vec::new();
    lines.push(head);
    lines.push(String::new());
    lines.push(ACTIVE_ROUTES.to_owned());
    let mut i: usize = 0;
    while i < config.routes.len()
        invariant
            0 <= i <= config.routes.len(),
            lines.len() == i + 3,
            lines@[0]@ == PROXY_PREFIX@ + config@.proxy_name + OPEN_PAREN@ + st@ + CLOSE_PAREN@,
            lines@[1]@ == Seq::<char>::empty(),
            lines@[2]@ == ACTIVE_ROUTES@,
            forall|k: int|
                3 <= k < i + 3 ==> (#[trigger] lines@[k])@ == status_route_line(
                    config@,
                    config@.routes[k - 3],
                ),
        decreases config.routes.len() - i,
    {
        lines.push(render_status_route_line(config, i));
        i = i + 1;
    }
    proof {
        assert(string_views(lines@) =~= seq![
            PROXY_PREFIX@ + config@.proxy_name + OPEN_PAREN@ + st@ + CLOSE_PAREN@,
            Seq::empty(),
            ACTIVE_ROUTES@,
        ] + config@.routes.map_values(|r: RouteView| status_route_line(config@, r)));
    }
    join_strings(&lines, LINE_BREAK)
}

/// Beginnings of the messages that report a change.
pub const ADDED_CONTAINER: &'static str = "Added container: ";
pub const UPDATED_CONTAINER: &'static str = "Updated container: ";
pub const REMOVED_CONTAINER: &'static str = "Removed container: ";
pub const ADDING_ROUTE: &'static str = "Adding route: ";
pub const SWITCHING_ROUTE: &'static str = "Switching route: ";
pub const REMOVED_ROUTE: &'static str = "Removed route: port ";
pub const ALREADY_RUNNING: &'static str = "Proxy already running: ";

/// The message after adding a container, or updating the one of that name.
pub fn add_message(name: &str, updated: bool) -> (r: String)
    ensures
        r@ == (if updated {
            UPDATED_CONTAINER@
        } else {
            ADDED_CONTAINER@
        }) + name@,
{
    let mut s = if updated {
        UPDATED_CONTAINER.to_owned()
    } else {
        ADDED_CONTAINER.to_owned()
    };
    s.append(name);
    s
}

/// The message after removing a container.
pub fn remove_message(name: &str) -> (r: String)
    ensures
        r@ == REMOVED_CONTAINER@ + name@,
{
    let mut s = REMOVED_CONTAINER.to_owned();
    s.append(name);
    s
}

/// The message after routing a port to a container: whether the route was
/// added or changed, the port and the container.
pub fn switch_message(port: u16, target: &str, result: SwitchResult) -> (r: String)
    ensures
        r@ == (match result {
            SwitchResult::Added => ADDING_ROUTE@,
            SwitchResult::Updated => SWITCHING_ROUTE@,
        }) + decimal(port as nat) + ARROW@ + target@,
{
    let mut s = match result {
        SwitchResult::Added => ADDING_ROUTE.to_owned(),
        SwitchResult::Updated => SWITCHING_ROUTE.to_owned(),
    };
    push_decimal(&mut s, port as u64);
    s.append(ARROW);
    s.append(target);
    s
}

/// The message after removing the route from a port.
pub fn stop_port_message(port: u16) -> (r: String)
    ensures
        r@ == REMOVED_ROUTE@ + decimal(port as nat),
{
    let mut s = REMOVED_ROUTE.to_owned();
    push_decimal(&mut s, port as u64);
    s
}

/// The message when the proxy container exists already.
pub fn already_running_message(proxy_name: &str) -> (r: String)
    ensures
        r@ == ALREADY_RUNNING@ + proxy_name@,
{
    let mut s = ALREADY_RUNNING.to_owned();
    s.append(proxy_name);
    s
}

/// Pieces of the report on joining a further network.
pub const CONNECTED: &'static str = "Connected proxy to network: ";
pub const CONNECT_WARNING: &'static str = "Warning: Could not connect to network ";
pub const ERROR_SEPARATOR: &'static str = ": ";

/// The line that reports joining a network: that it was joined, or a
/// warning with the engine's message.
pub open spec fn spec_connection_message(c: Connection) -> Seq<char> {
    match c.error {
        None => CONNECTED@ + c.network@,
        Some(e) => CONNECT_WARNING@ + c.network@ + ERROR_SEPARATOR@ + e.message@,
    }
}

/// The line that reports joining a network.
pub fn connection_message(c: &Connection) -> (r: String)
    ensures
        r@ == spec_connection_message(*c),
{
    match &c.error {
        None => {
            let mut s = CONNECTED.to_owned();
            s.append(c.network.as_str());
            s
        },
        Some(e) => {
            let mut s = CONNECT_WARNING.to_owned();
            s.append(c.network.as_str());
            s.append(ERROR_SEPARATOR);
            s.append(e.message.as_str());
            s
        },
    }
}

} // verus!
