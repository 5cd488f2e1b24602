use proxy_manager::config::{Config, Container, Route};
use proxy_manager::docker;
use proxy_manager::manager;
use proxy_manager::nginx;
use proxy_manager::nginx::NginxConfigGenerator;

#[test]
fn docker_test_generate_nginx_config_empty() {
    let config = Config::default();
    let nginx_conf = docker::generate_nginx_config(&config);
    assert!(nginx_conf.contains("events {}"));
    assert!(nginx_conf.contains("http {"));
}

#[test]
fn test_generate_nginx_config_with_route() {
    let mut config = Config::default();
    config.containers.push(Container {
        name: "my-app".to_string(),
        label: Some("My App".to_string()),
        port: Some(8080),
        network: None,
    });
    config.routes.push(Route {
        host_port: 8000,
        target: "my-app".to_string(),
    });

    let nginx_conf = docker::generate_nginx_config(&config);
    assert!(nginx_conf.contains("listen 8000;"));
    assert!(nginx_conf.contains("set $backend_addr my-app:8080;"));
}

#[test]
fn docker_test_generate_nginx_config_multiple_routes() {
    let mut config = Config::default();
    config.containers.push(Container {
        name: "app1".to_string(),
        label: None,
        port: Some(8001),
        network: None,
    });
    config.containers.push(Container {
        name: "app2".to_string(),
        label: None,
        port: Some(8002),
        network: None,
    });
    config.routes.push(Route {
        host_port: 8000,
        target: "app1".to_string(),
    });
    config.routes.push(Route {
        host_port: 8001,
        target: "app2".to_string(),
    });

    let nginx_conf = docker::generate_nginx_config(&config);
    assert!(nginx_conf.contains("listen 8000;"));
    assert!(nginx_conf.contains("listen 8001;"));
}

#[test]
fn nginx_config_contains_fallback_route() {
    let cfg = Config {
        containers: vec![Container {
            name: "app".to_string(),
            label: None,
            port: Some(9000),
            network: None,
        }],
        routes: vec![Route {
            host_port: 8001,
            target: "app".to_string(),
        }],
        ..Config::default()
    };
    let text = manager::generate_nginx_config(&cfg);
    assert!(text.contains("listen 8001;"));
    assert!(text.contains("/fallback_8001"));
    assert!(text.contains("app:9000"));
}

#[test]
fn dockerfile_exposes_all_ports() {
    let text = manager::generate_dockerfile(&[8000, 8001]);
    assert!(text.contains("EXPOSE 8000 8001"));
}

#[test]
fn test_generate_nginx_config() {
    let mut config = Config::default();
    config.containers.push(Container {
        name: "app1".to_string(),
        label: Some("App 1".to_string()),
        port: Some(8080),
        network: None,
    });
    config.routes.push(Route {
        host_port: 8000,
        target: "app1".to_string(),
    });

    let nginx_conf = nginx::generate_nginx_config(&config);

    assert!(nginx_conf.contains("listen 8000"));
    assert!(nginx_conf.contains("app1:8080"));
    assert!(nginx_conf.contains("fallback_8000"));
}

#[test]
fn nginx_test_generate_dockerfile() {
    let mut config = Config::default();
    config.routes.push(Route {
        host_port: 8000,
        target: "app1".to_string(),
    });
    config.routes.push(Route {
        host_port: 8001,
        target: "app2".to_string(),
    });

    let dockerfile = nginx::generate_dockerfile(&config);

    assert!(dockerfile.contains("FROM nginx:stable-alpine"));
    assert!(dockerfile.contains("EXPOSE 8000 8001"));
    assert!(dockerfile.contains("CMD"));
}

#[test]
fn test_empty_routes() {
    let config = Config::default();
    let nginx_conf = nginx::generate_nginx_config(&config);

    assert!(nginx_conf.contains("events {}"));
    assert!(nginx_conf.contains("http {"));
}

#[test]
fn mod_test_generate_nginx_config_empty() {
    let config = Config::default();
    let nginx_conf = NginxConfigGenerator::generate(&config);

    assert!(nginx_conf.contains("events {}"));
    assert!(nginx_conf.contains("http {"));
    assert!(!nginx_conf.contains("server {"));
}

#[test]
fn test_generate_nginx_config_with_routes() {
    let mut config = Config::default();
    config
        .containers
        .push(Container::new("app1").with_port(8080));
    config.routes.push(Route::new(8000, "app1"));

    let nginx_conf = NginxConfigGenerator::generate(&config);

    assert!(nginx_conf.contains("listen 8000"));
    assert!(nginx_conf.contains("set $backend_addr app1:8080"));
    assert!(nginx_conf.contains("proxy_pass http://$backend_addr"));
    assert!(nginx_conf.contains("resolver 127.0.0.11 valid=30s"));
}

#[test]
fn mod_test_generate_nginx_config_multiple_routes() {
    let mut config = Config::default();
    config
        .containers
        .push(Container::new("app1").with_port(8080));
    config
        .containers
        .push(Container::new("app2").with_port(9090));
    config.routes.push(Route::new(8000, "app1"));
    config.routes.push(Route::new(8001, "app2"));

    let nginx_conf = NginxConfigGenerator::generate(&config);

    assert!(nginx_conf.contains("listen 8000"));
    assert!(nginx_conf.contains("listen 8001"));
    assert!(nginx_conf.contains("app1:8080"));
    assert!(nginx_conf.contains("app2:9090"));
}

#[test]
fn mod_test_generate_dockerfile() {
    let mut config = Config::default();
    config.routes.push(Route::new(8000, "app1"));
    config.routes.push(Route::new(8001, "app2"));

    let dockerfile = NginxConfigGenerator::generate_dockerfile(&config);

    assert!(dockerfile.contains("FROM nginx:stable-alpine"));
    assert!(dockerfile.contains("COPY nginx.conf /etc/nginx/nginx.conf"));
    assert!(dockerfile.contains("EXPOSE 8000 8001"));
    assert!(dockerfile.contains("CMD [\"nginx\", \"-g\", \"daemon off;\"]"));
}

#[test]
fn test_generate_dockerfile_default_port() {
    let config = Config::default();
    let dockerfile = NginxConfigGenerator::generate_dockerfile(&config);

    assert!(dockerfile.contains("EXPOSE 8000"));
}

#[test]
fn test_nginx_config_fallback_page() {
    let mut config = Config::default();
    config.containers.push(Container::new("app1"));
    config.routes.push(Route::new(8000, "app1"));

    let nginx_conf = NginxConfigGenerator::generate(&config);

    assert!(nginx_conf.contains("error_page 502 503 504 =503 /fallback_8000"));
    assert!(nginx_conf.contains("location = /fallback_8000"));
    assert!(nginx_conf.contains("Service temporarily unavailable"));
}
