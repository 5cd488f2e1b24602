use proxy_manager::config::{Config, Route};
use proxy_manager::docker::{DockerRuntime, Engine, NetworkInfo, RuntimeError};
use proxy_manager::ops::{
    add_container, build_status_info, detect_containers, ensure_network, list_containers,
    proxy_logs, remove_container, remove_route, switch_route, upsert_container, SwitchResult,
};

type Result<T> = std::result::Result<T, RuntimeError>;

#[derive(Default)]
struct FakeDocker {
    containers: Vec<String>,
    networks: Vec<String>,
    logs: Vec<String>,
}

impl DockerRuntime for FakeDocker {
    fn list_containers(&self, _all: bool) -> Result<Vec<String>> {
        Ok(self.containers.clone())
    }

    fn list_networks(&self) -> Result<Vec<NetworkInfo>> {
        Ok(self
            .networks
            .iter()
            .map(|name| NetworkInfo {
                name: name.clone(),
                driver: "bridge".to_string(),
                containers: 0,
                scope: "local".to_string(),
            })
            .collect())
    }

    fn container_network(&self, _container: &str) -> Result<Option<String>> {
        Ok(None)
    }

    fn write_build_files(&self, _nginx_conf: &str, _dockerfile: &str) -> Result<String> {
        Ok("/build".to_string())
    }

    fn build_image(&self, _tag: &str, _build_dir: &str) -> Result<()> {
        Ok(())
    }

    fn container_exists(&self, name: &str) -> Result<bool> {
        Ok(self.containers.iter().any(|c| c == name))
    }

    fn container_status(&self, name: &str) -> Result<Option<String>> {
        if self.containers.iter().any(|c| c == name) {
            Ok(Some("running".to_string()))
        } else {
            Ok(None)
        }
    }

    fn run_container(&self, _name: &str, _image: &str, _network: &str, _ports: &[u16]) -> Result<()> {
        Ok(())
    }

    fn stop_remove_container(&self, _name: &str) -> Result<()> {
        Ok(())
    }

    fn connect_network(&self, _name: &str, _network: &str) -> Result<()> {
        Ok(())
    }

    fn container_logs(&self, _name: &str, _tail: usize, _follow: bool) -> Result<Vec<String>> {
        Ok(self.logs.clone())
    }

    fn create_network(&self, _name: &str) -> Result<()> {
        Ok(())
    }
}

struct NetworkDocker;

impl DockerRuntime for NetworkDocker {
    fn list_containers(&self, _all: bool) -> Result<Vec<String>> {
        Ok(vec![])
    }
    fn list_networks(&self) -> Result<Vec<NetworkInfo>> {
        Ok(vec![])
    }
    fn container_network(&self, _container: &str) -> Result<Option<String>> {
        Ok(Some("net".to_string()))
    }
    fn write_build_files(&self, _nginx_conf: &str, _dockerfile: &str) -> Result<String> {
        Ok("/build".to_string())
    }

    fn build_image(&self, _tag: &str, _build_dir: &str) -> Result<()> {
        Ok(())
    }
    fn container_exists(&self, _name: &str) -> Result<bool> {
        Ok(false)
    }
    fn container_status(&self, _name: &str) -> Result<Option<String>> {
        Ok(None)
    }
    fn run_container(&self, _name: &str, _image: &str, _network: &str, _ports: &[u16]) -> Result<()> {
        Ok(())
    }
    fn stop_remove_container(&self, _name: &str) -> Result<()> {
        Ok(())
    }
    fn connect_network(&self, _name: &str, _network: &str) -> Result<()> {
        Ok(())
    }
    fn container_logs(&self, _name: &str, _tail: usize, _follow: bool) -> Result<Vec<String>> {
        Ok(vec![])
    }
    fn create_network(&self, _name: &str) -> Result<()> {
        Ok(())
    }
}

#[test]
fn upsert_adds_new_container() {
    let mut config = Config::default();
    let existed = upsert_container(&mut config, "svc", Some("Label".to_string()), None, None);
    assert!(!existed);
    assert_eq!(config.containers.len(), 1);
}

#[test]
fn upsert_updates_existing() {
    let mut config = Config::default();
    upsert_container(&mut config, "svc", None, None, None);
    let existed = upsert_container(
        &mut config,
        "svc",
        Some("Label".to_string()),
        Some(9000),
        None,
    );
    assert!(existed);
    assert_eq!(config.containers[0].label.as_deref(), Some("Label"));
    assert_eq!(config.containers[0].port, Some(9000));
}

#[test]
fn remove_container_deletes_routes() {
    let mut config = Config::default();
    upsert_container(&mut config, "svc", None, None, None);
    config.routes.push(Route {
        host_port: 8000,
        target: "svc".to_string(),
    });
    let removed = remove_container(&mut config, "svc");
    assert_eq!(removed.as_deref(), Some("svc"));
    assert!(config.routes.is_empty());
}

#[test]
fn switch_route_adds_and_updates() {
    let mut config = Config::default();
    upsert_container(&mut config, "svc", None, None, None);
    let added = switch_route(&mut config, "svc", Some(8001)).unwrap();
    assert_eq!(added, SwitchResult::Added);
    let updated = switch_route(&mut config, "svc", Some(8001)).unwrap();
    assert_eq!(updated, SwitchResult::Updated);
}

#[test]
fn list_containers_renders_info() {
    let mut config = Config::default();
    upsert_container(
        &mut config,
        "svc",
        Some("Label".to_string()),
        Some(9000),
        None,
    );
    config.routes.push(Route {
        host_port: 8001,
        target: "svc".to_string(),
    });
    let lines = list_containers(&config);
    assert!(lines[0].contains("svc:9000@"));
    assert!(lines[0].contains("Label"));
    assert!(lines[0].contains("port 8001"));
}

#[test]
fn ensure_network_creates_if_missing() {
    let docker = FakeDocker::default();
    ensure_network(&mut Engine::new(&docker), "proxy-net").unwrap();
}

#[test]
fn detect_filters_containers() {
    let docker = FakeDocker {
        containers: vec!["foo".to_string(), "bar".to_string()],
        ..Default::default()
    };
    let filtered = detect_containers(&mut Engine::new(&docker), Some("fo")).unwrap();
    assert_eq!(filtered, vec!["foo".to_string()]);
}

#[test]
fn remove_route_removes_route() {
    let mut config = Config::default();
    config.routes.push(Route {
        host_port: 8001,
        target: "svc".to_string(),
    });
    let removed = remove_route(&mut config, 8001);
    assert!(removed);
    assert!(config.routes.is_empty());
}

#[test]
fn proxy_logs_returns_lines() {
    let docker = FakeDocker {
        logs: vec!["line".to_string()],
        ..Default::default()
    };
    let config = Config::default();
    let lines = proxy_logs(&mut Engine::new(&docker), &config, 10, false).unwrap();
    assert_eq!(lines.len(), 1);
}

#[test]
fn add_container_detects_network() {
    let runtime = NetworkDocker;
    let mut config = Config::default();
    let outcome = add_container(&mut Engine::new(&runtime), &mut config, "svc", None, None, None).unwrap();
    assert!(!outcome.updated);
    assert_eq!(outcome.detected_network.as_deref(), Some("net"));
    assert_eq!(config.containers[0].network.as_deref(), Some("net"));
}

#[test]
fn build_status_info_marks_missing() {
    let docker = FakeDocker::default();
    let config = Config {
        routes: vec![Route {
            host_port: 8001,
            target: "missing".to_string(),
        }],
        ..Config::default()
    };
    let status = build_status_info(&mut Engine::new(&docker), &config).unwrap();
    assert_eq!(status.routes.len(), 1);
    assert!(status.routes[0].missing);
}
