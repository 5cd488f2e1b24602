use proxy_manager::config::{Config, Container, Route};
use proxy_manager::docker::{self, network_line, NetworkInfo};
use proxy_manager::install::path_notice;
use proxy_manager::manager::{
    add_message, already_running_message, containers_output, detected_output, networks_output,
    remove_message, started_output, status_output, stop_port_message, switch_message,
};
use proxy_manager::nginx::{self, NginxConfigGenerator};
use proxy_manager::ops::{list_containers, OpsError, SwitchResult};
use proxy_manager::store::Store;
use proxy_manager::tui::Tab;
use proxy_manager::tui_view::View;

fn two_route_config() -> Config {
    let mut config = Config::default();
    config.containers.push(Container::new("app1").with_port(8080).with_label("One"));
    config.containers.push(Container::new("app2").with_port(9090));
    config.routes.push(Route::new(8000, "app1"));
    config.routes.push(Route::new(8001, "app2"));
    config
}

fn indented_block(host: u16, target: &str, port: u16) -> String {
    format!(
        r#"    server {{
        listen {};

        set $backend_addr {}:{};
        location / {{
            proxy_pass http://$backend_addr;
            proxy_set_header Host $host;
            proxy_set_header X-Real-IP $remote_addr;
            proxy_set_header X-Forwarded-For $proxy_add_x_forwarded_for;
            resolver 127.0.0.11 valid=30s;
            proxy_next_upstream error timeout http_502 http_503 http_504;
            proxy_intercept_errors on;
            error_page 502 503 504 =503 /fallback_{};
        }}

        location = /fallback_{} {{
            default_type text/plain;
            return 503 'Service temporarily unavailable - container {} is not running';
        }}
    }}"#,
        host, target, port, host, host, target
    )
}

fn flat_block(host: u16, target: &str, port: u16) -> String {
    format!(
        "    server {{\n\
                listen {};\n\
         \n\
                set $backend_addr {}:{};\n\
                location / {{\n\
                    proxy_pass http://$backend_addr;\n\
                    proxy_set_header Host $host;\n\
                    proxy_set_header X-Real-IP $remote_addr;\n\
                    proxy_set_header X-Forwarded-For $proxy_add_x_forwarded_for;\n\
                    resolver 127.0.0.11 valid=30s;\n\
                    proxy_next_upstream error timeout http_502 http_503 http_504;\n\
                    proxy_intercept_errors on;\n\
                    error_page 502 503 504 =503 /fallback_{};\n\
                }}\n\
         \n\
                location = /fallback_{} {{\n\
                    default_type text/plain;\n\
                    return 503 'Service temporarily unavailable - container {} is not running';\n\
                }}\n\
         }}\n",
        host, target, port, host, host, target
    )
}

const HEAD: &str = "events {}\n\nhttp {\n    resolver 127.0.0.11 valid=30s;\n";

#[test]
fn plain_generator_text_is_exact() {
    let config = two_route_config();
    let expected = format!(
        "{}{}\n}}\n",
        HEAD,
        [indented_block(8000, "app1", 8080), indented_block(8001, "app2", 9090)].join("\n\n")
    );
    assert_eq!(nginx::generate_nginx_config(&config), expected);
}

#[test]
fn generator_text_is_exact_and_follows_labels() {
    let mut config = two_route_config();
    config.routes.push(Route::new(8002, "One"));
    let expected = format!(
        "{}{}\n}}",
        HEAD,
        [
            indented_block(8000, "app1", 8080),
            indented_block(8001, "app2", 9090),
            indented_block(8002, "One", 8080)
        ]
        .join("\n\n")
    );
    assert_eq!(NginxConfigGenerator::generate(&config), expected);
    // The plain generator names containers by name only: the labelled route is left out.
    assert!(!nginx::generate_nginx_config(&config).contains("listen 8002;"));
}

#[test]
fn client_generator_text_is_exact() {
    let config = two_route_config();
    let expected = format!(
        "{}{}\n}}\n",
        HEAD,
        [flat_block(8000, "app1", 8080), flat_block(8001, "app2", 9090)].join("\n")
    );
    assert_eq!(docker::generate_nginx_config(&config), expected);
}

#[test]
fn manager_generator_text_is_exact() {
    let config = two_route_config();
    let blocks: Vec<String> = [indented_block(8000, "app1", 8080), indented_block(8001, "app2", 9090)]
        .iter()
        .map(|b| format!("{}\n", b))
        .collect();
    let expected = format!("{}{}\n}}\n", HEAD, blocks.join("\n"));
    assert_eq!(proxy_manager::manager::generate_nginx_config(&config), expected);
}

#[test]
fn routes_to_unknown_containers_get_no_block() {
    let mut config = Config::default();
    config.routes.push(Route::new(8000, "ghost"));
    assert_eq!(nginx::generate_nginx_config(&config), format!("{}\n}}\n", HEAD));
    assert_eq!(NginxConfigGenerator::generate(&config), format!("{}\n}}", HEAD));
}

#[test]
fn dockerfiles_are_exact() {
    let config = two_route_config();
    assert_eq!(
        nginx::generate_dockerfile(&config),
        "FROM nginx:stable-alpine\nCOPY nginx.conf /etc/nginx/nginx.conf\nEXPOSE 8000 8001\nCMD [\"nginx\", \"-g\", \"daemon off;\"]\n"
    );
    assert_eq!(
        NginxConfigGenerator::generate_dockerfile(&Config::default()),
        "FROM nginx:stable-alpine\nCOPY nginx.conf /etc/nginx/nginx.conf\nEXPOSE 8000\nCMD [\"nginx\", \"-g\", \"daemon off;\"]"
    );
    assert_eq!(
        proxy_manager::manager::generate_dockerfile(&[65535, 0, 7]),
        "FROM nginx:stable-alpine\nCOPY nginx.conf /etc/nginx/nginx.conf\nEXPOSE 65535 0 7\nCMD [\"nginx\", \"-g\", \"daemon off;\"]\n"
    );
}

#[test]
fn container_lines_are_exact() {
    let mut config = Config::default();
    config.containers.push(Container::new("svc").with_label("Label").with_port(9000));
    config.containers.push(Container::new("db").with_network("data"));
    config.routes.push(Route::new(8001, "svc"));
    config.routes.push(Route::new(8005, "svc"));
    let lines = list_containers(&config);
    assert_eq!(
        lines,
        vec![
            "svc:9000@proxy-net - Label (port 8005)".to_string(),
            "db:8000@data".to_string()
        ]
    );
    assert_eq!(
        containers_output(&config),
        "Configured containers:\n  svc:9000@proxy-net - Label (port 8005)\n  db:8000@data"
    );
    assert_eq!(containers_output(&Config::default()), "No containers configured");
}

#[test]
fn network_lines_are_padded() {
    let net = NetworkInfo {
        name: "bridge".to_string(),
        driver: "bridge".to_string(),
        scope: "local".to_string(),
        containers: 2,
    };
    let expected = format!(
        "  {:<25} driver={:<10} containers={:<4} scope={}",
        "bridge", "bridge", 2, "local"
    );
    assert_eq!(network_line(&net), expected);
    let long = NetworkInfo {
        name: "a-network-name-longer-than-twenty-five".to_string(),
        driver: "overlay-driver".to_string(),
        scope: "swarm".to_string(),
        containers: 123456,
    };
    let expected_long = format!(
        "  {:<25} driver={:<10} containers={:<4} scope={}",
        long.name, long.driver, long.containers, long.scope
    );
    assert_eq!(network_line(&long), expected_long);
    assert_eq!(
        networks_output(&vec![net]),
        format!("Available Docker networks:\n{}", expected)
    );
}

#[test]
fn status_and_listing_texts_are_exact() {
    let mut config = two_route_config();
    config.routes.push(Route::new(8002, "gone"));
    assert_eq!(status_output(&config, None), "Proxy not running");
    assert_eq!(
        status_output(&config, Some("running".to_string())),
        "Proxy: proxy-manager (running)\n\nActive routes:\n  8000 -> app1:8080\n  8001 -> app2:9090\n  8002 -> gone (container not found)"
    );
    assert_eq!(
        detected_output(&vec!["a".to_string(), "b".to_string()]),
        "Running containers:\n  a\n  b"
    );
    assert_eq!(started_output(&[8001, 8002]), "Proxy started on port(s): 8001, 8002");
}

#[test]
fn error_messages_are_exact() {
    assert_eq!(
        OpsError::NoContainers.message(),
        "No containers configured. Use 'add' command first."
    );
    assert_eq!(
        OpsError::NoRoutes.message(),
        "No routes configured. Use 'switch' command first."
    );
    assert_eq!(
        OpsError::ContainerNotFound("web".to_string()).message(),
        "Container 'web' not found in config"
    );
}

#[test]
fn store_paths_join_the_directory() {
    let s = Store::new_with_config_dir("/tmp/pm");
    assert_eq!(s.config_dir, "/tmp/pm");
    assert_eq!(s.config_file, "/tmp/pm/proxy-config.json");
    assert_eq!(s.build_dir, "/tmp/pm/build");
    let t = Store::new_with_config_dir("/tmp/pm/");
    assert_eq!(t.config_file, "/tmp/pm/proxy-config.json");
}

#[test]
fn config_paths_lie_in_the_data_directory() {
    let file = Config::config_file().unwrap();
    let build = Config::build_dir().unwrap();
    let dir = Config::config_dir().unwrap();
    assert!(file.ends_with("/proxy-manager/proxy-config.json"));
    assert!(build.ends_with("/proxy-manager/build"));
    assert_eq!(file, format!("{}/proxy-config.json", dir));
}

#[test]
fn path_notice_compares_paths() {
    assert_eq!(path_notice("/usr/bin:/home/a/.local/bin", "/home/a/.local/bin"), None);
    assert_eq!(path_notice("/usr/bin:/home/a/.local/bin/", "/home/a/.local/bin"), None);
    assert_eq!(path_notice("/usr/bin::/home/a//.local/bin", "/home/a/.local/bin"), None);
    assert_eq!(
        path_notice("/usr/bin", "/home/a/.local/bin"),
        Some("NOTE: Add /home/a/.local/bin to your PATH:\n  export PATH=\"/home/a/.local/bin:$PATH\"\n  # Add to ~/.bashrc or ~/.zshrc to persist".to_string())
    );
    assert!(path_notice("", "/x").is_some());
}

#[test]
fn tabs_cycle() {
    assert_eq!(Tab::Containers.next(), Tab::Routes);
    assert_eq!(Tab::Logs.next(), Tab::Containers);
    assert_eq!(Tab::Containers.prev(), Tab::Logs);
    assert_eq!(Tab::Status.prev().next(), Tab::Status);
    assert_eq!(Tab::Routes.as_str(), "Routes");
    assert_eq!(View::Logs.next(), View::Containers);
    assert_eq!(View::Containers.next().next(), View::Status);
}

#[test]
fn change_messages() {
    assert_eq!(add_message("svc", false), "Added container: svc");
    assert_eq!(add_message("svc", true), "Updated container: svc");
    assert_eq!(remove_message("svc"), "Removed container: svc");
    assert_eq!(switch_message(8001, "svc", SwitchResult::Added), "Adding route: 8001 -> svc");
    assert_eq!(switch_message(80, "web", SwitchResult::Updated), "Switching route: 80 -> web");
    assert_eq!(stop_port_message(8002), "Removed route: port 8002");
    assert_eq!(already_running_message("proxy-manager"), "Proxy already running: proxy-manager");
}

#[test]
fn default_store_lies_in_the_data_directory() {
    let store = Store::new_default().unwrap();
    assert!(store.config_dir.ends_with("proxy-manager"));
    assert_eq!(store.config_file, format!("{}/proxy-config.json", store.config_dir));
    assert_eq!(store.build_dir, format!("{}/build", store.config_dir));
}
