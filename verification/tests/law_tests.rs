use proxy_manager::config::{Config, Container, Route};
use std::cell::{Cell, RefCell};
use proxy_manager::docker::{DockerRuntime, Engine, NetworkInfo, RuntimeError};
use proxy_manager::ops::{
    detect_containers, reload_proxy, remove_container, remove_route, start_proxy, stop_proxy,
    switch_route, launch_proxy, OpsError, StartOutcome, SwitchResult, find_route_name, Connection,
    ensure_all_networks, ensure_network, add_container, after_route_removed, NextStep,
};

type Result<T> = std::result::Result<T, RuntimeError>;

struct FakeEngine {
    containers: Vec<String>,
    fail: bool,
}

impl DockerRuntime for FakeEngine {
    fn list_containers(&self, _all: bool) -> Result<Vec<String>> {
        if self.fail {
            return Err(RuntimeError { message: "down".to_string() });
        }
        Ok(self.containers.clone())
    }
    fn list_networks(&self) -> Result<Vec<NetworkInfo>> {
        if self.fail {
            return Err(RuntimeError { message: "down".to_string() });
        }
        Ok(vec![])
    }
    fn container_network(&self, _container: &str) -> Result<Option<String>> {
        Ok(None)
    }
    fn write_build_files(&self, _nginx_conf: &str, _dockerfile: &str) -> Result<String> {
        Ok("/build".to_string())
    }
    fn build_image(&self, _tag: &str, _build_dir: &str) -> Result<()> {
        Ok(())
    }
    fn container_exists(&self, name: &str) -> Result<bool> {
        Ok(self.containers.iter().any(|c| c == name))
    }
    fn container_status(&self, _name: &str) -> Result<Option<String>> {
        Ok(None)
    }
    fn run_container(&self, _name: &str, _image: &str, _network: &str, _ports: &[u16]) -> Result<()> {
        Ok(())
    }
    fn stop_remove_container(&self, _name: &str) -> Result<()> {
        Ok(())
    }
    fn connect_network(&self, _name: &str, _network: &str) -> Result<()> {
        Err(RuntimeError { message: "no".to_string() })
    }
    fn container_logs(&self, _name: &str, _tail: usize, _follow: bool) -> Result<Vec<String>> {
        Ok(vec![])
    }
    fn create_network(&self, _name: &str) -> Result<()> {
        Ok(())
    }
}

#[test]
fn routes_are_sorted_after_adding() {
    let mut config = Config::default();
    config.routes.push(Route::new(8002, "b"));
    config.routes.push(Route::new(8000, "a"));
    config.routes.push(Route::new(8002, "c"));
    config.set_route(8001, "d");
    let order: Vec<(u16, String)> = config.routes.iter().map(|r| (r.host_port, r.target.clone())).collect();
    assert_eq!(
        order,
        vec![
            (8000, "a".to_string()),
            (8001, "d".to_string()),
            (8002, "b".to_string()),
            (8002, "c".to_string())
        ]
    );
}

#[test]
fn route_read_after_write() {
    let mut config = Config::default();
    config.set_route(8003, "x");
    config.set_route(8001, "y");
    config.set_route(8003, "z");
    assert_eq!(config.find_route(8003).unwrap().target, "z");
    assert_eq!(config.find_route(8001).unwrap().target, "y");
    assert_eq!(config.routes.len(), 2);
    assert_eq!(config.routes[0].host_port, 8001);
}

#[test]
fn removing_a_container_by_label_removes_its_routes() {
    let mut config = Config::default();
    config.containers.push(Container::new("web").with_label("Front"));
    config.containers.push(Container::new("api"));
    config.routes.push(Route::new(8000, "web"));
    config.routes.push(Route::new(8001, "api"));
    let removed = config.remove_container("Front").unwrap();
    assert_eq!(removed.name, "web");
    assert_eq!(config.routes, vec![Route::new(8001, "api")]);
    assert!(config.remove_container("Front").is_none());
}

#[test]
fn ops_remove_container_removes_every_namesake() {
    let mut config = Config::default();
    config.containers.push(Container::new("web"));
    config.containers.push(Container::new("api"));
    config.containers.push(Container::new("web").with_port(1));
    config.routes.push(Route::new(8000, "web"));
    assert_eq!(remove_container(&mut config, "web").as_deref(), Some("web"));
    assert_eq!(config.containers.len(), 1);
    assert!(config.routes.is_empty());
    assert_eq!(remove_container(&mut config, "web"), None);
}

#[test]
fn switching_to_an_unknown_container_fails() {
    let mut config = Config::default();
    let err = switch_route(&mut config, "nope", None).unwrap_err();
    assert_eq!(err, OpsError::ContainerNotFound("nope".to_string()));
    assert!(config.routes.is_empty());
}

#[test]
fn switching_without_a_port_uses_the_default() {
    let mut config = Config::default();
    config.containers.push(Container::new("web").with_label("Front"));
    assert_eq!(switch_route(&mut config, "Front", None).unwrap(), SwitchResult::Added);
    assert_eq!(find_route_name(&config, 8000).as_deref(), Some("web"));
}

#[test]
fn removing_routes_by_port_removes_them_all() {
    let mut config = Config::default();
    config.routes.push(Route::new(8001, "a"));
    config.routes.push(Route::new(8002, "b"));
    config.routes.push(Route::new(8001, "c"));
    assert!(remove_route(&mut config, 8001));
    assert_eq!(config.routes, vec![Route::new(8002, "b")]);
    assert!(!remove_route(&mut config, 8001));
}

#[test]
fn detection_ignores_case() {
    let engine = FakeEngine { containers: vec!["Foo-App".to_string(), "bar".to_string()], fail: false };
    assert_eq!(detect_containers(&mut Engine::new(&engine), Some("fO")).unwrap(), vec!["Foo-App".to_string()]);
    assert_eq!(detect_containers(&mut Engine::new(&engine), None).unwrap().len(), 2);
    let down = FakeEngine { containers: vec![], fail: true };
    assert!(matches!(detect_containers(&mut Engine::new(&down), None), Err(OpsError::Runtime(_))));
}

#[test]
fn starting_checks_the_configuration_first() {
    let engine = FakeEngine { containers: vec![], fail: true };
    let mut config = Config::default();
    assert_eq!(start_proxy(&mut Engine::new(&engine), &config).unwrap_err(), OpsError::NoContainers);
    config.containers.push(Container::new("web"));
    assert_eq!(start_proxy(&mut Engine::new(&engine), &config).unwrap_err(), OpsError::NoRoutes);
    assert_eq!(reload_proxy(&mut Engine::new(&engine), &config).unwrap_err(), OpsError::NoRoutes);
    config.routes.push(Route::new(8000, "web"));
    assert!(matches!(start_proxy(&mut Engine::new(&engine), &config), Err(OpsError::Runtime(_))));
}

#[test]
fn starting_builds_and_runs_or_reports_a_running_proxy() {
    let mut config = Config::default();
    config.containers.push(Container::new("web").with_network("net2"));
    config.containers.push(Container::new("api").with_network("proxy-net"));
    config.routes.push(Route::new(8001, "web"));
    let idle = FakeEngine { containers: vec![], fail: false };
    match start_proxy(&mut Engine::new(&idle), &config).unwrap() {
        StartOutcome::Started(report) => {
            assert_eq!(report.ports, vec![8001]);
            assert_eq!(report.connections.len(), 1);
            assert_eq!(report.connections[0].network, "net2");
        }
        other => panic!("unexpected outcome {:?}", other),
    }
    let report = launch_proxy(&mut Engine::new(&idle), &config, &vec!["proxy-net".to_string(), "net2".to_string()]).unwrap();
    assert_eq!(report.ports, vec![8001]);
    assert_eq!(
        report.connections,
        vec![Connection { network: "net2".to_string(), error: Some(RuntimeError { message: "no".to_string() }) }]
    );
    let busy = FakeEngine { containers: vec!["proxy-manager".to_string()], fail: false };
    assert_eq!(start_proxy(&mut Engine::new(&busy), &config).unwrap(), StartOutcome::AlreadyRunning(vec![8001]));
    assert!(stop_proxy(&mut Engine::new(&busy), &config).unwrap());
    assert!(!stop_proxy(&mut Engine::new(&idle), &config).unwrap());
}

/// An engine that records each request and answers from its fields.
#[derive(Default)]
struct Recorder {
    calls: RefCell<Vec<String>>,
    networks: RefCell<Vec<String>>,
    proxy_exists: Cell<bool>,
    detected: Option<String>,
    connect_fails: bool,
    create_fails: bool,
}

impl DockerRuntime for Recorder {
    fn list_containers(&self, all: bool) -> Result<Vec<String>> {
        self.calls.borrow_mut().push(format!("list_containers {all}"));
        Ok(vec![])
    }
    fn list_networks(&self) -> Result<Vec<NetworkInfo>> {
        self.calls.borrow_mut().push("list_networks".to_string());
        Ok(self
            .networks
            .borrow()
            .iter()
            .map(|n| NetworkInfo { name: n.clone(), driver: "bridge".to_string(), scope: "local".to_string(), containers: 0 })
            .collect())
    }
    fn container_network(&self, container: &str) -> Result<Option<String>> {
        self.calls.borrow_mut().push(format!("container_network {container}"));
        Ok(self.detected.clone())
    }
    fn write_build_files(&self, nginx_conf: &str, dockerfile: &str) -> Result<String> {
        self.calls.borrow_mut().push(format!("write_build_files {nginx_conf} {dockerfile}"));
        Ok("/build".to_string())
    }
    fn build_image(&self, tag: &str, build_dir: &str) -> Result<()> {
        self.calls.borrow_mut().push(format!("build_image {tag} {build_dir}"));
        Ok(())
    }
    fn container_exists(&self, name: &str) -> Result<bool> {
        self.calls.borrow_mut().push(format!("container_exists {name}"));
        Ok(self.proxy_exists.get())
    }
    fn container_status(&self, name: &str) -> Result<Option<String>> {
        self.calls.borrow_mut().push(format!("container_status {name}"));
        Ok(None)
    }
    fn run_container(&self, name: &str, image: &str, network: &str, ports: &[u16]) -> Result<()> {
        self.calls.borrow_mut().push(format!("run_container {name} {image} {network} {ports:?}"));
        Ok(())
    }
    fn stop_remove_container(&self, name: &str) -> Result<()> {
        self.calls.borrow_mut().push(format!("stop_remove {name}"));
        self.proxy_exists.set(false);
        Ok(())
    }
    fn connect_network(&self, name: &str, network: &str) -> Result<()> {
        self.calls.borrow_mut().push(format!("connect {name} {network}"));
        if self.connect_fails {
            Err(RuntimeError { message: "refused".to_string() })
        } else {
            Ok(())
        }
    }
    fn container_logs(&self, name: &str, tail: usize, follow: bool) -> Result<Vec<String>> {
        self.calls.borrow_mut().push(format!("logs {name} {tail} {follow}"));
        Ok(vec![])
    }
    fn create_network(&self, name: &str) -> Result<()> {
        self.calls.borrow_mut().push(format!("create_network {name}"));
        if self.create_fails {
            return Err(RuntimeError { message: "denied".to_string() });
        }
        self.networks.borrow_mut().push(name.to_string());
        Ok(())
    }
}

fn two_network_config() -> Config {
    let mut config = Config::default();
    config.containers.push(Container::new("a").with_port(9000));
    config.containers.push(Container::new("b").with_port(9001).with_network("net2"));
    config.routes.push(Route::new(8001, "a"));
    config.routes.push(Route::new(8002, "b"));
    config
}

#[test]
fn starting_ensures_networks_then_builds_runs_and_connects() {
    let config = two_network_config();
    let engine = Recorder::default();
    let outcome = start_proxy(&mut Engine::new(&engine), &config).unwrap();
    match outcome {
        StartOutcome::Started(report) => {
            assert_eq!(report.ports, vec![8001, 8002]);
            assert_eq!(report.connections, vec![Connection { network: "net2".to_string(), error: None }]);
        }
        other => panic!("unexpected outcome {:?}", other),
    }
    let calls = engine.calls.borrow();
    assert_eq!(
        calls[..5].to_vec(),
        vec![
            "list_networks",
            "create_network proxy-net",
            "list_networks",
            "create_network net2",
            "container_exists proxy-manager",
        ]
    );
    assert!(calls[5].starts_with("write_build_files "));
    assert!(calls[5].contains("listen 8001;"));
    assert!(calls[5].contains("EXPOSE 8001 8002"));
    assert_eq!(calls[6], "build_image proxy-manager:latest /build");
    assert_eq!(calls[7], "run_container proxy-manager proxy-manager:latest proxy-net [8001, 8002]");
    assert_eq!(calls[8], "connect proxy-manager net2");
    assert_eq!(calls.len(), 9);
}

#[test]
fn starting_leaves_a_running_proxy_alone() {
    let config = two_network_config();
    let engine = Recorder { proxy_exists: Cell::new(true), networks: RefCell::new(vec!["proxy-net".to_string(), "net2".to_string()]), ..Default::default() };
    assert_eq!(start_proxy(&mut Engine::new(&engine), &config).unwrap(), StartOutcome::AlreadyRunning(vec![8001, 8002]));
    assert_eq!(*engine.calls.borrow(), vec!["list_networks", "list_networks", "container_exists proxy-manager"]);
}

#[test]
fn launching_runs_and_connects_with_reports() {
    let config = two_network_config();
    let engine = Recorder::default();
    let nets = vec!["proxy-net".to_string(), "net2".to_string()];
    let report = launch_proxy(&mut Engine::new(&engine), &config, &nets).unwrap();
    assert_eq!(report.ports, vec![8001, 8002]);
    assert_eq!(report.connections, vec![Connection { network: "net2".to_string(), error: None }]);
    assert_eq!(
        *engine.calls.borrow(),
        vec!["run_container proxy-manager proxy-manager:latest proxy-net [8001, 8002]", "connect proxy-manager net2"]
    );
    let failing = Recorder { connect_fails: true, ..Default::default() };
    let report = launch_proxy(&mut Engine::new(&failing), &config, &nets).unwrap();
    assert_eq!(report.connections[0].error, Some(RuntimeError { message: "refused".to_string() }));
    assert_eq!(
        proxy_manager::manager::connection_message(&report.connections[0]),
        "Warning: Could not connect to network net2: refused"
    );
    assert_eq!(
        proxy_manager::manager::connection_message(&Connection { network: "net2".to_string(), error: None }),
        "Connected proxy to network: net2"
    );
}

#[test]
fn ensuring_networks_stops_at_the_first_failure() {
    let config = two_network_config();
    let engine = Recorder { create_fails: true, ..Default::default() };
    let err = ensure_all_networks(&mut Engine::new(&engine), &config).unwrap_err();
    assert_eq!(err, OpsError::Runtime(RuntimeError { message: "denied".to_string() }));
    assert_eq!(*engine.calls.borrow(), vec!["list_networks", "create_network proxy-net"]);
    let listed = Recorder { networks: RefCell::new(vec!["x".to_string()]), ..Default::default() };
    ensure_network(&mut Engine::new(&listed), "x").unwrap();
    assert_eq!(*listed.calls.borrow(), vec!["list_networks"]);
}

#[test]
fn stopping_asks_then_removes() {
    let config = two_network_config();
    let engine = Recorder { proxy_exists: Cell::new(true), ..Default::default() };
    assert!(stop_proxy(&mut Engine::new(&engine), &config).unwrap());
    assert_eq!(*engine.calls.borrow(), vec!["container_exists proxy-manager", "stop_remove proxy-manager"]);
    let engine = Recorder { proxy_exists: Cell::new(true), ..Default::default() };
    let outcome = reload_proxy(&mut Engine::new(&engine), &config).unwrap();
    assert!(matches!(outcome, StartOutcome::Started(_)));
    assert_eq!(engine.calls.borrow()[0], "container_exists proxy-manager");
    assert_eq!(engine.calls.borrow()[1], "stop_remove proxy-manager");
    assert_eq!(engine.calls.borrow().last().unwrap(), "connect proxy-manager net2");
}

#[test]
fn adding_asks_for_the_network_only_when_none_is_given() {
    let mut config = Config::default();
    let engine = Recorder { detected: Some("net1".to_string()), ..Default::default() };
    let outcome = add_container(&mut Engine::new(&engine), &mut config, "app", None, None, None).unwrap();
    assert_eq!(outcome.detected_network.as_deref(), Some("net1"));
    assert_eq!(config.containers[0].network.as_deref(), Some("net1"));
    assert_eq!(*engine.calls.borrow(), vec!["container_network app"]);
    let outcome = add_container(&mut Engine::new(&engine), &mut config, "app", None, None, Some("other".to_string())).unwrap();
    assert!(outcome.updated);
    assert_eq!(outcome.detected_network, None);
    assert_eq!(engine.calls.borrow().len(), 1);
    assert_eq!(config.containers[0].network.as_deref(), Some("other"));
}

#[test]
fn removing_the_last_route_stops_the_proxy() {
    let mut config = two_network_config();
    assert_eq!(after_route_removed(&config), NextStep::ReloadProxy);
    config.routes.clear();
    assert_eq!(after_route_removed(&config), NextStep::StopProxy);
}

#[test]
fn only_a_running_proxy_has_logs_to_show() {
    use_running_check();
}

fn use_running_check() {
    assert!(proxy_manager::ops::proxy_running(&Some("running".to_string())));
    assert!(proxy_manager::ops::proxy_running(&Some("Running".to_string())));
    assert!(!proxy_manager::ops::proxy_running(&Some("exited".to_string())));
    assert!(!proxy_manager::ops::proxy_running(&None));
}

#[test]
fn switching_never_duplicates_a_port() {
    let mut config = Config::default();
    config.containers.push(Container::new("a"));
    config.containers.push(Container::new("b"));
    switch_route(&mut config, "a", Some(8001)).unwrap();
    switch_route(&mut config, "b", Some(8001)).unwrap();
    switch_route(&mut config, "a", None).unwrap();
    switch_route(&mut config, "b", Some(7000)).unwrap();
    let ports: Vec<u16> = config.routes.iter().map(|r| r.host_port).collect();
    assert_eq!(ports, vec![7000, 8000, 8001]);
    assert_eq!(config.find_route(8001).unwrap().target, "b");
}

#[test]
fn one_server_block_per_route_to_a_configured_container() {
    let mut config = Config::default();
    config.containers.push(Container::new("a").with_port(9000));
    config.containers.push(Container::new("b").with_label("Bee"));
    config.routes.push(Route::new(8001, "a"));
    config.routes.push(Route::new(8002, "Bee"));
    config.routes.push(Route::new(8003, "gone"));
    config.routes.push(Route::new(8004, "b"));
    let conf = proxy_manager::manager::generate_nginx_config(&config);
    assert_eq!(conf.matches("server {").count(), 2);
    assert!(conf.starts_with("events {}\n\nhttp {\n    resolver 127.0.0.11 valid=30s;\n"));
    assert!(conf.ends_with("\n}\n"));
    assert!(conf.contains("set $backend_addr a:9000;"));
    assert!(conf.contains("set $backend_addr b:8000;"));
    assert!(conf.contains("error_page 502 503 504 =503 /fallback_8004;"));
    assert!(!conf.contains("listen 8002;"));
}
