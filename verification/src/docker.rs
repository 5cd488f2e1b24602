//! What the library asks of a Docker engine, and the texts it derives from
//! the engine's answers.
use crate::config::Config;
use crate::nginx::{NginxStyle, render_nginx_config, spec_nginx_config};
use crate::text::{decimal, push_decimal};
use vstd::prelude::*;

verus! {

/// A Docker network as the engine lists it.
#[derive(Debug, Clone, PartialEq, Eq)]
pub struct NetworkInfo {
    pub name: String,
    pub driver: String,
    pub scope: String,
    pub containers: usize,
}

/// A failure reported by the Docker engine.
#[derive(Debug, Clone, PartialEq, Eq)]
pub struct RuntimeError {
    pub message: String,
}

/// One request to the Docker engine with its arguments, and the engine's
/// answer.
pub enum Exchange {
    /// `list_containers(all)`.
    ListContainers(bool, Result<Vec<String>, RuntimeError>),
    /// `list_networks()`.
    ListNetworks(Result<Vec<NetworkInfo>, RuntimeError>),
    /// `container_network(container)`.
    ContainerNetwork(Seq<char>, Result<Option<String>, RuntimeError>),
    /// `write_build_files(nginx_conf, dockerfile)`.
    WriteBuildFiles(Seq<char>, Seq<char>, Result<String, RuntimeError>),
    /// `build_image(tag, build_dir)`.
    BuildImage(Seq<char>, Seq<char>, Result<(), RuntimeError>),
    /// `container_exists(name)`.
    ContainerExists(Seq<char>, Result<bool, RuntimeError>),
    /// `container_status(name)`.
    ContainerStatus(Seq<char>, Result<Option<String>, RuntimeError>),
    /// `run_container(name, image, network, ports)`.
    RunContainer(Seq<char>, Seq<char>, Seq<char>, Seq<u16>, Result<(), RuntimeError>),
    /// `stop_remove_container(name)`.
    StopRemove(Seq<char>, Result<(), RuntimeError>),
    /// `connect_network(name, network)`.
    ConnectNetwork(Seq<char>, Seq<char>, Result<(), RuntimeError>),
    /// `container_logs(name, tail, follow)`.
    ContainerLogs(Seq<char>, usize, bool, Result<Vec<String>, RuntimeError>),
    /// `create_network(name)`.
    CreateNetwork(Seq<char>, Result<(), RuntimeError>),
}

/// The operations of a Docker engine that the proxy manager uses.
pub trait DockerRuntime {
    /// The names of the containers, stopped ones too when `all` holds.
    fn list_containers(&self, all: bool) -> Result<Vec<String>, RuntimeError>;

    /// The networks.
    fn list_networks(&self) -> Result<Vec<NetworkInfo>, RuntimeError>;

    /// The first network of a container, if it has one.
    fn container_network(&self, container: &str) -> Result<Option<String>, RuntimeError>;

    /// Writes `nginx.conf` and `Dockerfile` with these contents into the
    /// build directory; gives that directory.
    fn write_build_files(&self, nginx_conf: &str, dockerfile: &str) -> Result<String, RuntimeError>;

    /// Builds the image `tag` from the build directory.
    fn build_image(&self, tag: &str, build_dir: &str) -> Result<(), RuntimeError>;

    /// Whether a container of that name exists.
    fn container_exists(&self, name: &str) -> Result<bool, RuntimeError>;

    /// The state of a container, or nothing when it does not exist.
    fn container_status(&self, name: &str) -> Result<Option<String>, RuntimeError>;

    /// Creates and starts a container from `image` on `network`, publishing
    /// each of `ports` on the same host port.
    fn run_container(&self, name: &str, image: &str, network: &str, ports: &[u16]) -> Result<(), RuntimeError>;

    /// Stops and removes a container.
    fn stop_remove_container(&self, name: &str) -> Result<(), RuntimeError>;

    /// Connects a container to a further network.
    fn connect_network(&self, name: &str, network: &str) -> Result<(), RuntimeError>;

    /// The last `tail` lines of a container's log.
    fn container_logs(&self, name: &str, tail: usize, follow: bool) -> Result<Vec<String>, RuntimeError>;

    /// Creates a network.
    fn create_network(&self, name: &str) -> Result<(), RuntimeError>;
}

/// A Docker engine with the record of the requests made to it through this
/// value and the engine's answers, in order.
pub struct Engine<'a, R> {
    pub runtime: &'a R,
    /// The requests made so far, each with its answer.
    pub record: Ghost<Seq<Exchange>>,
}

impl<'a, R: DockerRuntime> Engine<'a, R> {
    /// The engine, with nothing asked of it yet.
    pub fn new(runtime: &'a R) -> (r: Self)
        ensures
            r.runtime == runtime,
            r.record@ == Seq::<Exchange>::empty(),
    {
        Engine { runtime, record: Ghost(Seq::empty()) }
    }

    /// The names of the containers, stopped ones too when `all` holds. The request and the answer are recorded.
    pub fn list_containers(&mut self, all: bool) -> (r: Result<Vec<String>, RuntimeError>)
        ensures
            final(self).runtime == old(self).runtime,
            final(self).record@ == old(self).record@.push(Exchange::ListContainers(all, r)),
    {
        let r = self.runtime.list_containers(all);
        self.record = Ghost(self.record@.push(Exchange::ListContainers(all, r)));
        r
    }

    /// The networks. The request and the answer are recorded.
    pub fn list_networks(&mut self) -> (r: Result<Vec<NetworkInfo>, RuntimeError>)
        ensures
            final(self).runtime == old(self).runtime,
            final(self).record@ == old(self).record@.push(Exchange::ListNetworks(r)),
    {
        let r = self.runtime.list_networks();
        self.record = Ghost(self.record@.push(Exchange::ListNetworks(r)));
        r
    }

    /// The first network of a container, if it has one. The request and the answer are recorded.
    pub fn container_network(&mut self, container: &str) -> (r: Result<Option<String>, RuntimeError>)
        ensures
            final(self).runtime == old(self).runtime,
            final(self).record@ == old(self).record@.push(Exchange::ContainerNetwork(container@, r)),
    {
        let r = self.runtime.container_network(container);
        self.record = Ghost(self.record@.push(Exchange::ContainerNetwork(container@, r)));
        r
    }

    /// Writes `nginx.conf` and `Dockerfile` with these contents into the
    /// build directory; gives that directory. The request and the answer are recorded.
    pub fn write_build_files(&mut self, nginx_conf: &str, dockerfile: &str) -> (r: Result<String, RuntimeError>)
        ensures
            final(self).runtime == old(self).runtime,
            final(self).record@ == old(self).record@.push(
                Exchange::WriteBuildFiles(nginx_conf@, dockerfile@, r),
            ),
    {
        let r = self.runtime.write_build_files(nginx_conf, dockerfile);
        self.record = Ghost(self.record@.push(Exchange::WriteBuildFiles(nginx_conf@, dockerfile@, r)));
        r
    }

    /// Builds the image `tag` from the build directory. The request and the answer are recorded.
    pub fn build_image(&mut self, tag: &str, build_dir: &str) -> (r: Result<(), RuntimeError>)
        ensures
            final(self).runtime == old(self).runtime,
            final(self).record@ == old(self).record@.push(Exchange::BuildImage(tag@, build_dir@, r)),
    {
        let r = self.runtime.build_image(tag, build_dir);
        self.record = Ghost(self.record@.push(Exchange::BuildImage(tag@, build_dir@, r)));
        r
    }

    /// Whether a container of that name exists. The request and the answer are recorded.
    pub fn container_exists(&mut self, name: &str) -> (r: Result<bool, RuntimeError>)
        ensures
            final(self).runtime == old(self).runtime,
            final(self).record@ == old(self).record@.push(Exchange::ContainerExists(name@, r)),
    {
        let r = self.runtime.container_exists(name);
        self.record = Ghost(self.record@.push(Exchange::ContainerExists(name@, r)));
        r
    }

    /// The state of a container, or nothing when it does not exist. The request and the answer are recorded.
    pub fn container_status(&mut self, name: &str) -> (r: Result<Option<String>, RuntimeError>)
        ensures
            final(self).runtime == old(self).runtime,
            final(self).record@ == old(self).record@.push(Exchange::ContainerStatus(name@, r)),
    {
        let r = self.runtime.container_status(name);
        self.record = Ghost(self.record@.push(Exchange::ContainerStatus(name@, r)));
        r
    }

    /// Creates and starts a container from `image` on `network`, publishing
    /// each of `ports` on the same host port. The request and the answer are recorded.
    pub fn run_container(&mut self, name: &str, image: &str, network: &str, ports: &[u16]) -> (r: Result<(), RuntimeError>)
        ensures
            final(self).runtime == old(self).runtime,
            final(self).record@ == old(self).record@.push(Exchange::RunContainer(name@, image@, network@, ports@, r)),
    {
        let r = self.runtime.run_container(name, image, network, ports);
        self.record = Ghost(self.record@.push(Exchange::RunContainer(name@, image@, network@, ports@, r)));
        r
    }

    /// Stops and removes a container. The request and the answer are recorded.
    pub fn stop_remove_container(&mut self, name: &str) -> (r: Result<(), RuntimeError>)
        ensures
            final(self).runtime == old(self).runtime,
            final(self).record@ == old(self).record@.push(Exchange::StopRemove(name@, r)),
    {
        let r = self.runtime.stop_remove_container(name);
        self.record = Ghost(self.record@.push(Exchange::StopRemove(name@, r)));
        r
    }

    /// Connects a container to a further network. The request and the answer are recorded.
    pub fn connect_network(&mut self, name: &str, network: &str) -> (r: Result<(), RuntimeError>)
        ensures
            final(self).runtime == old(self).runtime,
            final(self).record@ == old(self).record@.push(Exchange::ConnectNetwork(name@, network@, r)),
    {
        let r = self.runtime.connect_network(name, network);
        self.record = Ghost(self.record@.push(Exchange::ConnectNetwork(name@, network@, r)));
        r
    }

    /// The last `tail` lines of a container's log. The request and the answer are recorded.
    pub fn container_logs(&mut self, name: &str, tail: usize, follow: bool) -> (r: Result<Vec<String>, RuntimeError>)
        ensures
            final(self).runtime == old(self).runtime,
            final(self).record@ == old(self).record@.push(Exchange::ContainerLogs(name@, tail, follow, r)),
    {
        let r = self.runtime.container_logs(name, tail, follow);
        self.record = Ghost(self.record@.push(Exchange::ContainerLogs(name@, tail, follow, r)));
        r
    }

    /// Creates a network. The request and the answer are recorded.
    pub fn create_network(&mut self, name: &str) -> (r: Result<(), RuntimeError>)
        ensures
            final(self).runtime == old(self).runtime,
            final(self).record@ == old(self).record@.push(Exchange::CreateNetwork(name@, r)),
    {
        let r = self.runtime.create_network(name);
        self.record = Ghost(self.record@.push(Exchange::CreateNetwork(name@, r)));
        r
    }
}

/// Whether the record `after` continues the record `before`.
pub open spec fn continues(before: Seq<Exchange>, after: Seq<Exchange>) -> bool {
    before.len() <= after.len() && after.take(before.len() as int) == before
}

/// The exchanges recorded in `after` beyond the record `before`.
pub open spec fn since(before: Seq<Exchange>, after: Seq<Exchange>) -> Seq<Exchange> {
    after.skip(before.len() as int)
}

/// Records that continue each other: the exchanges since the first are those
/// up to the middle one followed by those since it.
pub proof fn lemma_since_concat(a: Seq<Exchange>, b: Seq<Exchange>, c: Seq<Exchange>)
    requires
        continues(a, b),
        continues(b, c),
    ensures
        continues(a, c),
        since(a, c) == since(a, b) + since(b, c),
{
    assert(c.take(a.len() as int) =~= b.take(a.len() as int));
    assert(since(a, c) =~= since(a, b) + since(b, c));
}

/// One appended exchange: the record continues, with that exchange since.
pub proof fn lemma_since_push(a: Seq<Exchange>, x: Exchange)
    ensures
        continues(a, a.push(x)),
        since(a, a.push(x)) == seq![x],
{
    assert(a.push(x).take(a.len() as int) =~= a);
    assert(since(a, a.push(x)) =~= seq![x]);
}

/// A record continues itself, with nothing since.
pub proof fn lemma_since_same(a: Seq<Exchange>)
    ensures
        continues(a, a),
        since(a, a) == Seq::<Exchange>::empty(),
{
    assert(a.take(a.len() as int) =~= a);
    assert(since(a, a) =~= Seq::<Exchange>::empty());
}

/// The layout of the configuration that the Docker client writes: inner
/// lines at the margin, each block ending with a line break, blocks
/// separated by a line break, targets named by name or label.
pub open spec fn client_style() -> NginxStyle {
    NginxStyle {
        flat: true,
        block_newline: true,
        blank_line_between: false,
        final_newline: true,
        by_label: true,
    }
}

/// The Nginx configuration that the Docker client builds the image from:
/// one server block for each route whose target names or labels a
/// configured container.
pub fn generate_nginx_config(config: &Config) -> (r: String)
    ensures
        r@ == spec_nginx_config(client_style(), config@),
{
    render_nginx_config(
        config,
        NginxStyle {
            flat: true,
            block_newline: true,
            blank_line_between: false,
            final_newline: true,
            by_label: true,
        },
    )
}

/// `s` followed by spaces up to `width` characters.
pub open spec fn pad_right(s: Seq<char>, width: nat) -> Seq<char> {
    if s.len() >= width {
        s
    } else {
        s + Seq::new((width - s.len()) as nat, |i: int| ' ')
    }
}

/// The line that describes a network in the list of networks.
pub open spec fn spec_network_line(name: Seq<char>, driver: Seq<char>, containers: nat, scope: Seq<char>) -> Seq<char> {
    "  "@ + pad_right(name, 25) + " driver="@ + pad_right(driver, 10) + " containers="@ + pad_right(
        decimal(containers),
        4,
    ) + " scope="@ + scope
}

/// Appends `t` to `s` and then spaces up to `width` characters of `t`.
fn push_padded(s: &mut String, t: &str, width: usize)
    ensures
        final(s)@ == old(s)@ + pad_right(t@, width as nat),
{
    s.append(t);
    let n = crate::text::to_chars(t).len();
    let mut k = n;
    let ghost start = old(s)@ + t@;
    while k < width
        invariant
            n == t@.len(),
            n <= k <= width || (n > width && k == n),
            s@ == start + Seq::new((k - n) as nat, |i: int| ' '),
        decreases width - k,
    {
        s.append(" ");
        proof {
            reveal_strlit(" ");
            assert(s@ =~= start + Seq::new((k + 1 - n) as nat, |i: int| ' '));
        }
        k = k + 1;
    }
    proof {
        if n >= width {
            assert(s@ =~= old(s)@ + t@);
        } else {
            assert(s@ =~= old(s)@ + pad_right(t@, width as nat));
        }
    }
}

/// The line that describes a network in the list of networks.
pub fn network_line(net: &NetworkInfo) -> (r: String)
    ensures
        r@ == spec_network_line(net.name@, net.driver@, net.containers as nat, net.scope@),
{
    let mut s = String::new();
    s.append("  ");
    push_padded(&mut s, net.name.as_str(), 25);
    s.append(" driver=");
    push_padded(&mut s, net.driver.as_str(), 10);
    s.append(" containers=");
    let count = crate::text::decimal_string(net.containers as u64);
    push_padded(&mut s, count.as_str(), 4);
    s.append(" scope=");
    s.append(net.scope.as_str());
    proof {
        assert(s@ =~= spec_network_line(net.name@, net.driver@, net.containers as nat, net.scope@));
    }
    s
}

} // verus!
