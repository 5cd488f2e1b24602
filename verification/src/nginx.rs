//! The Nginx configuration and the Dockerfile of the proxy image.
use crate::config::{
    Config, ConfigView, RouteView, routes_view, spec_find_container, spec_find_named,
};
use crate::text::{
    contains_seq, decimal, join_ports, join_seqs, join_strings, lemma_contains_concat, lemma_join_contains,
    port_texts, push_decimal, string_views,
};
use vstd::prelude::*;

verus! {

/// The start of the configuration, up to the server blocks.
pub const CONFIG_HEAD: &'static str = "events {}\n\nhttp {\n    resolver 127.0.0.11 valid=30s;\n";

/// The end of the configuration, after the server blocks.
pub const CONFIG_TAIL: &'static str = "\n}";

/// A line break.
pub const NEWLINE: &'static str = "\n";

/// An empty line between two server blocks.
pub const BLANK_LINE: &'static str = "\n\n";

/// The colon between a host and its port.
pub const COLON: &'static str = ":";

/// Pieces of a server block whose lines are indented.
pub const INDENTED_OPEN: &'static str = "    server {\n        listen ";
pub const INDENTED_BACKEND: &'static str = ";\n\n        set $backend_addr ";
pub const INDENTED_LOCATION: &'static str = ";\n        location / {\n            proxy_pass http://$backend_addr;\n            proxy_set_header Host $host;\n            proxy_set_header X-Real-IP $remote_addr;\n            proxy_set_header X-Forwarded-For $proxy_add_x_forwarded_for;\n            resolver 127.0.0.11 valid=30s;\n            proxy_next_upstream error timeout http_502 http_503 http_504;\n            proxy_intercept_errors on;\n            error_page 502 503 504 =503 /fallback_";
pub const INDENTED_FALLBACK: &'static str = ";\n        }\n\n        location = /fallback_";
pub const INDENTED_MESSAGE: &'static str = " {\n            default_type text/plain;\n            return 503 'Service temporarily unavailable - container ";
pub const INDENTED_CLOSE: &'static str = " is not running';\n        }\n    }";

/// Pieces of a server block whose inner lines start at the margin.
pub const FLAT_OPEN: &'static str = "    server {\nlisten ";
pub const FLAT_BACKEND: &'static str = ";\n\nset $backend_addr ";
pub const FLAT_LOCATION: &'static str = ";\nlocation / {\nproxy_pass http://$backend_addr;\nproxy_set_header Host $host;\nproxy_set_header X-Real-IP $remote_addr;\nproxy_set_header X-Forwarded-For $proxy_add_x_forwarded_for;\nresolver 127.0.0.11 valid=30s;\nproxy_next_upstream error timeout http_502 http_503 http_504;\nproxy_intercept_errors on;\nerror_page 502 503 504 =503 /fallback_";
pub const FLAT_FALLBACK: &'static str = ";\n}\n\nlocation = /fallback_";
pub const FLAT_MESSAGE: &'static str = " {\ndefault_type text/plain;\nreturn 503 'Service temporarily unavailable - container ";
pub const FLAT_CLOSE: &'static str = " is not running';\n}\n}";

/// The start of the Dockerfile, up to the exposed ports.
pub const DOCKERFILE_HEAD: &'static str = "FROM nginx:stable-alpine\nCOPY nginx.conf /etc/nginx/nginx.conf\nEXPOSE ";

/// The end of the Dockerfile, after the exposed ports.
pub const DOCKERFILE_TAIL: &'static str = "\nCMD [\"nginx\", \"-g\", \"daemon off;\"]";

/// A space.
pub const SPACE: &'static str = " ";

/// How a configuration is laid out.
#[derive(Debug, Clone, Copy, PartialEq, Eq, Structural)]
pub struct NginxStyle {
    /// The inner lines of a server block start at the margin.
    pub flat: bool,
    /// Each server block ends with a line break.
    pub block_newline: bool,
    /// Server blocks are separated by an empty line rather than a line break.
    pub blank_line_between: bool,
    /// The configuration ends with a line break.
    pub final_newline: bool,
    /// A route's target may name a container by its label too.
    pub by_label: bool,
}

/// The text `t` when `b` holds, else nothing.
pub open spec fn when(b: bool, t: Seq<char>) -> Seq<char> {
    if b {
        t
    } else {
        Seq::empty()
    }
}

/// A piece of a server block, in one layout or the other.
pub open spec fn piece(flat: bool, flat_text: &'static str, indented_text: &'static str) -> Seq<char> {
    if flat {
        flat_text@
    } else {
        indented_text@
    }
}

/// The server block that sends `host` to port `port` of `target`.
pub open spec fn server_block(style: NginxStyle, host: u16, target: Seq<char>, port: u16) -> Seq<char> {
    let f = style.flat;
    piece(f, FLAT_OPEN, INDENTED_OPEN) + decimal(host as nat) + piece(f, FLAT_BACKEND, INDENTED_BACKEND)
        + target + COLON@ + decimal(port as nat) + piece(f, FLAT_LOCATION, INDENTED_LOCATION)
        + decimal(host as nat) + piece(f, FLAT_FALLBACK, INDENTED_FALLBACK) + decimal(host as nat)
        + piece(f, FLAT_MESSAGE, INDENTED_MESSAGE) + target + piece(f, FLAT_CLOSE, INDENTED_CLOSE)
        + when(style.block_newline, NEWLINE@)
}

/// The server block of a route, when its target is a configured container.
pub open spec fn route_block(style: NginxStyle, c: ConfigView, r: RouteView) -> Option<Seq<char>> {
    let found = if style.by_label {
        spec_find_container(c.containers, r.target)
    } else {
        spec_find_named(c.containers, r.target)
    };
    match found {
        Some(cv) => Some(server_block(style, r.host_port, r.target, cv.port_or_default())),
        None => None,
    }
}

/// The function from a route to its server block.
pub open spec fn block_of(style: NginxStyle, c: ConfigView) -> spec_fn(RouteView) -> Option<
    Seq<char>,
> {
    |r: RouteView| route_block(style, c, r)
}

/// The server blocks of the routes whose target is configured, in order.
pub open spec fn server_blocks(style: NginxStyle, c: ConfigView) -> Seq<Seq<char>> {
    c.routes.filter_map(block_of(style, c))
}

/// The text between two server blocks.
pub open spec fn block_separator(style: NginxStyle) -> Seq<char> {
    if style.blank_line_between {
        BLANK_LINE@
    } else {
        NEWLINE@
    }
}

/// The whole Nginx configuration of `c` in the layout `style`.
pub open spec fn spec_nginx_config(style: NginxStyle, c: ConfigView) -> Seq<char> {
    CONFIG_HEAD@ + join_seqs(server_blocks(style, c), block_separator(style)) + CONFIG_TAIL@ + when(
        style.final_newline,
        NEWLINE@,
    )
}

/// The Dockerfile of an image that exposes `ports`.
pub open spec fn spec_dockerfile(ports: Seq<u16>, final_newline: bool) -> Seq<char> {
    DOCKERFILE_HEAD@ + join_seqs(port_texts(ports), SPACE@) + DOCKERFILE_TAIL@ + when(
        final_newline,
        NEWLINE@,
    )
}

fn choose_piece(flat: bool, flat_text: &'static str, indented_text: &'static str) -> (r: &'static str)
    ensures
        r@ == piece(flat, flat_text, indented_text),
{
    if flat {
        flat_text
    } else {
        indented_text
    }
}

/// The server block that sends `host` to port `port` of `target`.
pub fn render_server_block(style: NginxStyle, host: u16, target: &String, port: u16) -> (r: String)
    ensures
        r@ == server_block(style, host, target@, port),
{
    let f = style.flat;
    let mut s = String::new();
    s.append(choose_piece(f, FLAT_OPEN, INDENTED_OPEN));
    push_decimal(&mut s, host as u64);
    s.append(choose_piece(f, FLAT_BACKEND, INDENTED_BACKEND));
    s.append(target.as_str());
    s.append(COLON);
    push_decimal(&mut s, port as u64);
    s.append(choose_piece(f, FLAT_LOCATION, INDENTED_LOCATION));
    push_decimal(&mut s, host as u64);
    s.append(choose_piece(f, FLAT_FALLBACK, INDENTED_FALLBACK));
    push_decimal(&mut s, host as u64);
    s.append(choose_piece(f, FLAT_MESSAGE, INDENTED_MESSAGE));
    s.append(target.as_str());
    s.append(choose_piece(f, FLAT_CLOSE, INDENTED_CLOSE));
    if style.block_newline {
        s.append(NEWLINE);
    }
    proof {
        assert(s@ =~= server_block(style, host, target@, port));
    }
    s
}

/// The internal port of the container that a route's target names, if any.
fn target_port(config: &Config, style: NginxStyle, target: &String) -> (r: Option<u16>)
    ensures
        ({
            let found = if style.by_label {
                spec_find_container(config@.containers, target@)
            } else {
                spec_find_named(config@.containers, target@)
            };
            match found {
                Some(cv) => r == Some(cv.port_or_default()),
                None => r is None,
            }
        }),
{
    if style.by_label {
        match config.find_container(target.as_str()) {
            Some(c) => Some(c.get_port()),
            None => None,
        }
    } else {
        match config.index_of_named(target) {
            Some(i) => Some(config.containers[i].get_port()),
            None => None,
        }
    }
}

/// The whole Nginx configuration of `config` in the layout `style`.
pub fn render_nginx_config(config: &Config, style: NginxStyle) -> (r: String)
    ensures
        r@ == spec_nginx_config(style, config@),
{
    let mut servers: Vec<String> = Vec::new();
    let ghost rv = config@.routes;
    let ghost f = block_of(style, config@);
    let mut i: usize = 0;
    while i < config.routes.len()
        invariant
            0 <= i <= config.routes.len(),
            rv == config@.routes,
            f == block_of(style, config@),
            string_views(servers@) == rv.take(i as int).filter_map(f),
        decreases config.routes.len() - i,
    {
        let route = &config.routes[i];
        proof {
            rv.lemma_filter_map_take_succ(f, i as int);
            assert(rv[i as int] == route@);
        }
        match target_port(config, style, &route.target) {
            Some(p) => {
                let block = render_server_block(style, route.host_port, &route.target, p);
                let ghost before = servers@;
                servers.push(block);
                proof {
                    assert(string_views(servers@) =~= string_views(before).push(block@));
                }
            },
            None => {},
        }
        i = i + 1;
    }
    proof {
        assert(rv.take(config.routes.len() as int) =~= rv);
    }
    let sep = if style.blank_line_between {
        BLANK_LINE
    } else {
        NEWLINE
    };
    let body = join_strings(&servers, sep);
    let mut out = CONFIG_HEAD.to_owned();
    out.append(body.as_str());
    out.append(CONFIG_TAIL);
    if style.final_newline {
        out.append(NEWLINE);
    }
    proof {
        assert(out@ =~= spec_nginx_config(style, config@));
    }
    out
}

/// The Dockerfile of an image that exposes `ports`.
pub fn render_dockerfile(ports: &[u16], final_newline: bool) -> (r: String)
    ensures
        r@ == spec_dockerfile(ports@, final_newline),
{
    let exposed = join_ports(ports, SPACE);
    let mut out = DOCKERFILE_HEAD.to_owned();
    out.append(exposed.as_str());
    out.append(DOCKERFILE_TAIL);
    if final_newline {
        out.append(NEWLINE);
    }
    proof {
        assert(out@ =~= spec_dockerfile(ports@, final_newline));
    }
    out
}

/// The layout of `generate_nginx_config`: indented blocks separated by an
/// empty line, a final line break, targets named by container name only.
pub open spec fn plain_style() -> NginxStyle {
    NginxStyle {
        flat: false,
        block_newline: false,
        blank_line_between: true,
        final_newline: true,
        by_label: false,
    }
}

/// The layout of `NginxConfigGenerator::generate`: indented blocks separated
/// by an empty line, no final line break, targets named by name or label.
pub open spec fn generator_style() -> NginxStyle {
    NginxStyle {
        flat: false,
        block_newline: false,
        blank_line_between: true,
        final_newline: false,
        by_label: true,
    }
}

/// The Nginx configuration that routes each host port to its container:
/// one server block for each route whose target is the name of a configured
/// container, with a fallback page for when the container is down.
pub fn generate_nginx_config(config: &Config) -> (r: String)
    ensures
        r@ == spec_nginx_config(plain_style(), config@),
{
    render_nginx_config(
        config,
        NginxStyle {
            flat: false,
            block_newline: false,
            blank_line_between: true,
            final_newline: true,
            by_label: false,
        },
    )
}

/// The Dockerfile of the proxy image, exposing every host port.
pub fn generate_dockerfile(config: &Config) -> (r: String)
    ensures
        r@ == spec_dockerfile(config@.host_ports(), true),
{
    let ports = config.get_all_host_ports();
    render_dockerfile(ports.as_slice(), true)
}

/// Generates the proxy's build files.
pub struct NginxConfigGenerator;

impl NginxConfigGenerator {
    /// The Nginx configuration: one server block for each route whose target
    /// names (or labels) a configured container, with no final line break.
    pub fn generate(config: &Config) -> (r: String)
        ensures
            r@ == spec_nginx_config(generator_style(), config@),
    {
        render_nginx_config(
            config,
            NginxStyle {
                flat: false,
                block_newline: false,
                blank_line_between: true,
                final_newline: false,
                by_label: true,
            },
        )
    }

    /// The Dockerfile of the proxy image, exposing every host port, with no
    /// final line break.
    pub fn generate_dockerfile(config: &Config) -> (r: String)
        ensures
            r@ == spec_dockerfile(config@.host_ports(), false),
    {
        let ports = config.get_all_host_ports();
        render_dockerfile(ports.as_slice(), false)
    }
}

/// An element that a function maps to a value is found among the values of
/// `filter_map`.
proof fn lemma_filter_map_has(rs: Seq<RouteView>, f: spec_fn(RouteView) -> Option<Seq<char>>, k: int)
    requires
        0 <= k < rs.len(),
        f(rs[k]) is Some,
    ensures
        exists|j: int| 0 <= j < rs.filter_map(f).len() && rs.filter_map(f)[j] == f(rs[k])->0,
    decreases rs.len(),
{
    let d = rs.drop_last();
    if k == rs.len() - 1 {
        let m = d.filter_map(f);
        assert(rs.filter_map(f) == m + seq![f(rs[k])->0]);
        assert(rs.filter_map(f)[m.len() as int] == f(rs[k])->0);
        assert(0 <= m.len() < rs.filter_map(f).len());
    } else {
        lemma_filter_map_has(d, f, k);
        assert(d[k] == rs[k]);
        let j = choose|j: int| 0 <= j < d.filter_map(f).len() && d.filter_map(f)[j] == f(d[k])->0;
        match f(rs.last()) {
            Some(b) => {
                assert(rs.filter_map(f) == d.filter_map(f) + seq![b]);
                assert(rs.filter_map(f)[j] == d.filter_map(f)[j]);
            },
            None => {
                assert(rs.filter_map(f) == d.filter_map(f));
            },
        }
        assert(0 <= j < rs.filter_map(f).len() && rs.filter_map(f)[j] == f(rs[k])->0);
    }
}

/// Each route whose target is a configured container has its server block,
/// with the container's port, in the configuration.
pub proof fn lemma_config_has_route_block(style: NginxStyle, c: ConfigView, k: int)
    requires
        0 <= k < c.routes.len(),
        route_block(style, c, c.routes[k]) is Some,
    ensures
        contains_seq(spec_nginx_config(style, c), route_block(style, c, c.routes[k])->0),
{
    let f = block_of(style, c);
    let b = route_block(style, c, c.routes[k])->0;
    lemma_filter_map_has(c.routes, f, k);
    let j = choose|j: int| 0 <= j < c.routes.filter_map(f).len() && c.routes.filter_map(f)[j] == f(c.routes[k])->0;
    let parts = server_blocks(style, c);
    lemma_join_contains(parts, block_separator(style), j);
    let body = join_seqs(parts, block_separator(style));
    lemma_contains_concat(CONFIG_HEAD@, body, b);
    lemma_contains_concat(CONFIG_HEAD@ + body, CONFIG_TAIL@, b);
    lemma_contains_concat(CONFIG_HEAD@ + body + CONFIG_TAIL@, when(style.final_newline, NEWLINE@), b);
}

/// A configuration without routes is the frame alone: no server block.
pub proof fn lemma_config_without_routes(style: NginxStyle, c: ConfigView)
    requires
        c.routes.len() == 0,
    ensures
        spec_nginx_config(style, c) == CONFIG_HEAD@ + CONFIG_TAIL@ + when(style.final_newline, NEWLINE@),
{
    assert(server_blocks(style, c) =~= Seq::<Seq<char>>::empty());
    assert(CONFIG_HEAD@ + Seq::<char>::empty() =~= CONFIG_HEAD@);
}

/// The predicate that holds of routes whose target is a configured
/// container.
pub open spec fn has_block(style: NginxStyle, c: ConfigView) -> spec_fn(RouteView) -> bool {
    |r: RouteView| route_block(style, c, r) is Some
}

/// Keeping the routes that have a block and taking their blocks is mapping
/// them to their blocks and dropping the routes without one.
proof fn lemma_blocks_of_routes(style: NginxStyle, c: ConfigView, rs: Seq<RouteView>)
    ensures
        rs.filter_map(block_of(style, c)) == rs.filter(has_block(style, c)).map_values(
            |r: RouteView| route_block(style, c, r)->0,
        ),
    decreases rs.len(),
{
    let f = block_of(style, c);
    let p = has_block(style, c);
    let g = |r: RouteView| route_block(style, c, r)->0;
    if rs.len() == 0 {
        assert(rs.filter(p) =~= Seq::<RouteView>::empty());
        assert(rs.filter(p).map_values(g) =~= Seq::<Seq<char>>::empty());
    } else {
        let d = rs.drop_last();
        lemma_blocks_of_routes(style, c, d);
        assert(rs =~= d.push(rs.last()));
        d.lemma_filter_push(rs.last(), p);
        if p(rs.last()) {
            assert(d.filter(p).push(rs.last()).map_values(g) =~= d.filter(p).map_values(g).push(
                g(rs.last()),
            ));
            assert(d.filter_map(f) + seq![f(rs.last())->0] =~= d.filter_map(f).push(g(rs.last())));
        }
    }
}

/// The configuration holds one server block for each route whose target is
/// a configured container, in the order of the routes, and no other.
pub proof fn lemma_one_block_per_served_route(style: NginxStyle, c: ConfigView)
    ensures
        server_blocks(style, c) == c.routes.filter(has_block(style, c)).map_values(
            |r: RouteView| route_block(style, c, r)->0,
        ),
        server_blocks(style, c).len() == c.routes.filter(has_block(style, c)).len(),
{
    lemma_blocks_of_routes(style, c, c.routes);
}

} // verus!
