use proxy_manager::config::{Config, Container, Route, DEFAULT_NETWORK, DEFAULT_PORT, DEFAULT_PROXY_NAME};

#[test]
fn config_test_config_default() {
    let config = Config::default();
    assert_eq!(config.proxy_name, DEFAULT_PROXY_NAME);
    assert_eq!(config.network, DEFAULT_NETWORK);
    assert!(config.containers.is_empty());
    assert!(config.routes.is_empty());
}

#[test]
fn test_get_all_host_ports_empty() {
    let config = Config::default();
    let ports = config.get_all_host_ports();
    assert_eq!(ports, vec![DEFAULT_PORT]);
}

#[test]
fn test_get_all_host_ports_with_routes() {
    let mut config = Config::default();
    config.routes.push(Route {
        host_port: 8000,
        target: "app1".to_string(),
    });
    config.routes.push(Route {
        host_port: 8001,
        target: "app2".to_string(),
    });
    let ports = config.get_all_host_ports();
    assert_eq!(ports, vec![8000, 8001]);
}

#[test]
fn test_get_internal_port() {
    let container = Container {
        name: "test".to_string(),
        label: None,
        port: Some(8080),
        network: None,
    };
    let config = Config::default();
    assert_eq!(config.get_internal_port(&container), 8080);
}

#[test]
fn test_get_internal_port_default() {
    let container = Container {
        name: "test".to_string(),
        label: None,
        port: None,
        network: None,
    };
    let config = Config::default();
    assert_eq!(config.get_internal_port(&container), DEFAULT_PORT);
}

#[test]
fn test_find_container_by_name() {
    let mut config = Config::default();
    config.containers.push(Container {
        name: "my-app".to_string(),
        label: Some("My App".to_string()),
        port: Some(8000),
        network: Some("custom-net".to_string()),
    });

    let found = config.find_container("my-app");
    assert!(found.is_some());
    assert_eq!(found.unwrap().name, "my-app");
}

#[test]
fn test_find_container_by_label() {
    let mut config = Config::default();
    config.containers.push(Container {
        name: "my-app".to_string(),
        label: Some("My App".to_string()),
        port: Some(8000),
        network: None,
    });

    let found = config.find_container("My App");
    assert!(found.is_some());
    assert_eq!(found.unwrap().name, "my-app");
}

#[test]
fn test_find_route() {
    let mut config = Config::default();
    config.routes.push(Route {
        host_port: 8000,
        target: "app1".to_string(),
    });

    let found = config.find_route(8000);
    assert!(found.is_some());
    assert_eq!(found.unwrap().target, "app1");
}

#[test]
fn test_container_new() {
    let container = Container::new("test-container");
    assert_eq!(container.name, "test-container");
    assert_eq!(container.label, None);
    assert_eq!(container.port, None);
    assert_eq!(container.network, None);
}

#[test]
fn test_container_builder() {
    let container = Container::new("test")
        .with_label("Test Label")
        .with_port(8080)
        .with_network("custom-net");

    assert_eq!(container.name, "test");
    assert_eq!(container.label, Some("Test Label".to_string()));
    assert_eq!(container.port, Some(8080));
    assert_eq!(container.network, Some("custom-net".to_string()));
}

#[test]
fn test_container_get_port() {
    let container1 = Container::new("test1");
    assert_eq!(container1.get_port(), DEFAULT_PORT);

    let container2 = Container::new("test2").with_port(9000);
    assert_eq!(container2.get_port(), 9000);
}

#[test]
fn test_route_new() {
    let route = Route::new(8080, "my-container");
    assert_eq!(route.host_port, 8080);
    assert_eq!(route.target, "my-container");
}

#[test]
fn mod_test_config_default() {
    let config = Config::default();
    assert!(config.containers.is_empty());
    assert!(config.routes.is_empty());
    assert_eq!(config.proxy_name, DEFAULT_PROXY_NAME);
    assert_eq!(config.network, DEFAULT_NETWORK);
}

#[test]
fn test_config_find_container() {
    let mut config = Config::default();
    config
        .containers
        .push(Container::new("container1").with_label("label1"));
    config.containers.push(Container::new("container2"));

    assert!(config.find_container("container1").is_some());
    assert!(config.find_container("label1").is_some());
    assert!(config.find_container("nonexistent").is_none());
}

#[test]
fn test_config_find_route() {
    let mut config = Config::default();
    config.routes.push(Route::new(8080, "container1"));
    config.routes.push(Route::new(8081, "container2"));

    assert!(config.find_route(8080).is_some());
    assert!(config.find_route(9999).is_none());
}

#[test]
fn test_config_add_or_update_container() {
    let mut config = Config::default();

    config.add_or_update_container(Container::new("test").with_port(8080));
    assert_eq!(config.containers.len(), 1);
    assert_eq!(config.containers[0].port, Some(8080));

    config.add_or_update_container(Container::new("test").with_label("updated"));
    assert_eq!(config.containers.len(), 1);
    assert_eq!(config.containers[0].port, Some(8080));
    assert_eq!(config.containers[0].label, Some("updated".to_string()));
}

#[test]
fn test_config_remove_container() {
    let mut config = Config::default();
    config.containers.push(Container::new("test1"));
    config.containers.push(Container::new("test2"));
    config.routes.push(Route::new(8080, "test1"));

    let removed = config.remove_container("test1");
    assert!(removed.is_some());
    assert_eq!(config.containers.len(), 1);
    assert!(config.routes.is_empty());
}

#[test]
fn test_config_get_all_host_ports() {
    let mut config = Config::default();
    assert_eq!(config.get_all_host_ports(), vec![DEFAULT_PORT]);

    config.routes.push(Route::new(8080, "c1"));
    config.routes.push(Route::new(8081, "c2"));
    let ports = config.get_all_host_ports();
    assert!(ports.contains(&8080));
    assert!(ports.contains(&8081));
}

#[test]
fn test_config_set_route() {
    let mut config = Config::default();

    config.set_route(8080, "container1");
    assert_eq!(config.routes.len(), 1);
    assert_eq!(config.routes[0].target, "container1");

    config.set_route(8080, "container2");
    assert_eq!(config.routes.len(), 1);
    assert_eq!(config.routes[0].target, "container2");
}
