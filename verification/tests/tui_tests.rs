use proxy_manager::config::{Config, Container, Route};
use proxy_manager::tui::Tab;
use proxy_manager::tui_app::{
    add_detected_container, container_rows, parse_port, parse_route_input, popup_text, route_rows,
    select_next, select_prev, start_files, status_text, tab_index, tab_order, InputMode, Key, Popup,
    TuiAction, TuiState,
};
use proxy_manager::tui_view::{
    container_item, footer_text, header_text, page_status_text, route_item, PageAction, PageState, View,
    HELP_TEXT,
};

fn sample_config() -> Config {
    let mut config = Config::default();
    config.containers.push(Container {
        name: "web".to_string(),
        label: Some("Web".to_string()),
        port: Some(3000),
        network: None,
    });
    config.containers.push(Container {
        name: "api".to_string(),
        label: None,
        port: None,
        network: Some("backend".to_string()),
    });
    config.routes.push(Route { host_port: 8000, target: "web".to_string() });
    config.routes.push(Route { host_port: 8001, target: "api".to_string() });
    config.routes.push(Route { host_port: 8002, target: "gone".to_string() });
    config
}

fn type_text(state: &mut TuiState, config: &mut Config, text: &str) {
    for c in text.chars() {
        assert_eq!(state.handle_key(config, Key::Char(c)), TuiAction::Nothing);
    }
}

#[test]
fn parse_port_reads_like_u16_from_str() {
    assert_eq!(parse_port("8080"), Some(8080));
    assert_eq!(parse_port("+80"), Some(80));
    assert_eq!(parse_port("080"), Some(80));
    assert_eq!(parse_port("0"), Some(0));
    assert_eq!(parse_port("65535"), Some(65535));
    assert_eq!(parse_port("65536"), None);
    assert_eq!(parse_port("999999999999"), None);
    assert_eq!(parse_port(""), None);
    assert_eq!(parse_port("+"), None);
    assert_eq!(parse_port("-1"), None);
    assert_eq!(parse_port("8a"), None);
    assert_eq!(parse_port(" 80"), None);
    for text in ["1", "+7", "00012", "65535", "65536", "x", "", "+-1", "4294967297"] {
        assert_eq!(parse_port(text), text.parse::<u16>().ok(), "{text}");
    }
}

#[test]
fn parse_route_input_splits_at_first_colon() {
    assert_eq!(parse_route_input("8001:app"), Some((8001, "app".to_string())));
    assert_eq!(parse_route_input("8001:a:b"), Some((8001, "a:b".to_string())));
    assert_eq!(parse_route_input("8001:"), Some((8001, String::new())));
    assert_eq!(parse_route_input("x:app"), None);
    assert_eq!(parse_route_input(":app"), None);
    assert_eq!(parse_route_input("8001"), None);
    assert_eq!(parse_route_input("70000:app"), None);
}

#[test]
fn selection_wraps_around() {
    assert_eq!(select_next(None, 3), Some(0));
    assert_eq!(select_next(Some(0), 3), Some(1));
    assert_eq!(select_next(Some(2), 3), Some(0));
    assert_eq!(select_next(Some(7), 3), Some(2));
    assert_eq!(select_next(Some(usize::MAX), 3), Some(((usize::MAX % 3) + 1) % 3));
    assert_eq!(select_next(Some(4), 0), Some(4));
    assert_eq!(select_prev(Some(0), 3), Some(2));
    assert_eq!(select_prev(Some(2), 3), Some(1));
    assert_eq!(select_prev(None, 3), Some(0));
    assert_eq!(select_prev(None, 0), None);
}

#[test]
fn selection_down_then_up_returns() {
    for i in 0..5 {
        assert_eq!(select_prev(select_next(Some(i), 5), 5), Some(i));
        assert_eq!(select_next(select_prev(Some(i), 5), 5), Some(i));
    }
}

#[test]
fn tabs_move_with_tab_and_arrows() {
    let mut config = Config::default();
    let mut state = TuiState::new();
    assert_eq!(state.current_tab, Tab::Containers);
    assert_eq!(state.handle_key(&mut config, Key::Tab), TuiAction::Nothing);
    assert_eq!(state.current_tab, Tab::Routes);
    state.handle_key(&mut config, Key::Right);
    assert_eq!(state.current_tab, Tab::Status);
    state.handle_key(&mut config, Key::Left);
    state.handle_key(&mut config, Key::BackTab);
    assert_eq!(state.current_tab, Tab::Containers);
    state.handle_key(&mut config, Key::BackTab);
    assert_eq!(state.current_tab, Tab::Logs);
    assert_eq!(state.handle_key(&mut config, Key::Char('q')), TuiAction::Quit);
}

#[test]
fn adding_a_route_through_the_dialog() {
    let mut config = sample_config();
    let mut state = TuiState::new();
    state.handle_key(&mut config, Key::Tab);
    assert_eq!(state.handle_key(&mut config, Key::Char('a')), TuiAction::Nothing);
    assert!(matches!(state.popup, Some(Popup::AddRoute)));
    assert_eq!(state.input_mode, InputMode::Input);
    type_text(&mut state, &mut config, "7000:webx");
    assert_eq!(state.handle_key(&mut config, Key::Backspace), TuiAction::Nothing);
    assert_eq!(state.input_buffer, "7000:web");
    assert_eq!(state.handle_key(&mut config, Key::Enter), TuiAction::Save);
    assert_eq!(state.input_mode, InputMode::Normal);
    assert!(state.popup.is_none());
    assert!(state.input_buffer.is_empty());
    let ports: Vec<u16> = config.routes.iter().map(|r| r.host_port).collect();
    assert_eq!(ports, vec![7000, 8000, 8001, 8002]);
    assert_eq!(config.routes[0].target, "web");
}

#[test]
fn a_malformed_route_changes_nothing() {
    let mut config = sample_config();
    let before = config.clone();
    let mut state = TuiState::new();
    state.handle_key(&mut config, Key::Tab);
    state.handle_key(&mut config, Key::Char('a'));
    type_text(&mut state, &mut config, "web");
    assert_eq!(state.handle_key(&mut config, Key::Enter), TuiAction::Nothing);
    assert_eq!(config, before);
    assert_eq!(state.input_mode, InputMode::Normal);
}

#[test]
fn adding_a_container_asks_for_its_network() {
    let mut config = Config::default();
    let mut state = TuiState::new();
    state.handle_key(&mut config, Key::Char('a'));
    assert!(matches!(state.popup, Some(Popup::AddContainer)));
    type_text(&mut state, &mut config, "svc");
    assert_eq!(state.handle_key(&mut config, Key::Enter), TuiAction::AddContainer("svc".to_string()));
    assert!(config.containers.is_empty());
    add_detected_container(&mut config, "svc", Some("net".to_string()));
    assert_eq!(config.containers[0].network.as_deref(), Some("net"));
    add_detected_container(&mut config, "other", None);
    assert_eq!(config.containers[1].network.as_deref(), Some(""));
    assert_eq!(config.containers[1].port, None);
}

#[test]
fn an_empty_container_name_is_ignored() {
    let mut config = Config::default();
    let mut state = TuiState::new();
    state.handle_key(&mut config, Key::Char('a'));
    assert_eq!(state.handle_key(&mut config, Key::Enter), TuiAction::Nothing);
    assert_eq!(state.handle_key(&mut config, Key::Char('a')), TuiAction::Nothing);
    assert_eq!(state.handle_key(&mut config, Key::Esc), TuiAction::Nothing);
    assert!(state.popup.is_none());
    assert!(config.containers.is_empty());
}

#[test]
fn deleting_a_container_asks_for_confirmation() {
    let mut config = sample_config();
    let mut state = TuiState::new();
    state.handle_key(&mut config, Key::Down);
    assert_eq!(state.container_selected, Some(1));
    assert_eq!(state.handle_key(&mut config, Key::Char('d')), TuiAction::Nothing);
    match &state.popup {
        Some(Popup::RemoveContainer(name)) => assert_eq!(name, "api"),
        _ => panic!("no removal dialog"),
    }
    assert_eq!(config.containers.len(), 2);
    state.input_mode = InputMode::Input;
    type_text(&mut state, &mut config, "Y");
    assert_eq!(state.handle_key(&mut config, Key::Enter), TuiAction::Save);
    assert_eq!(config.containers.len(), 1);
    assert!(config.routes.iter().all(|r| r.target != "api"));
}

#[test]
fn declining_removal_keeps_the_container() {
    let mut config = sample_config();
    let before = config.clone();
    let mut state = TuiState::new();
    state.handle_key(&mut config, Key::Char('d'));
    state.input_mode = InputMode::Input;
    type_text(&mut state, &mut config, "n");
    assert_eq!(state.handle_key(&mut config, Key::Enter), TuiAction::Nothing);
    assert_eq!(config, before);
}

#[test]
fn deleting_a_route_saves() {
    let mut config = sample_config();
    let mut state = TuiState::new();
    state.handle_key(&mut config, Key::Tab);
    state.handle_key(&mut config, Key::Up);
    assert_eq!(state.route_selected, Some(2));
    assert_eq!(state.handle_key(&mut config, Key::Char('d')), TuiAction::Save);
    assert_eq!(config.routes.len(), 2);
    assert!(config.routes.iter().all(|r| r.host_port != 8002));
    state.route_selected = Some(9);
    assert_eq!(state.handle_key(&mut config, Key::Char('d')), TuiAction::Nothing);
}

#[test]
fn status_and_log_keys() {
    let mut config = Config::default();
    let mut state = TuiState::new();
    state.handle_key(&mut config, Key::Tab);
    state.handle_key(&mut config, Key::Tab);
    assert_eq!(state.handle_key(&mut config, Key::Char('s')), TuiAction::Start);
    assert_eq!(state.handle_key(&mut config, Key::Char('x')), TuiAction::Stop);
    assert_eq!(state.handle_key(&mut config, Key::Char('r')), TuiAction::Reload);
    state.handle_key(&mut config, Key::Tab);
    state.handle_key(&mut config, Key::PageUp);
    assert_eq!(state.logs_scroll, 0);
    state.handle_key(&mut config, Key::Down);
    state.handle_key(&mut config, Key::PageDown);
    assert_eq!(state.logs_scroll, 11);
    state.handle_key(&mut config, Key::Up);
    assert_eq!(state.logs_scroll, 10);
    state.logs_scroll = usize::MAX;
    state.handle_key(&mut config, Key::PageDown);
    assert_eq!(state.logs_scroll, usize::MAX);
}

#[test]
fn q_is_typed_in_a_dialog() {
    let mut config = Config::default();
    let mut state = TuiState::new();
    state.handle_key(&mut config, Key::Char('a'));
    assert_eq!(state.handle_key(&mut config, Key::Char('q')), TuiAction::Nothing);
    assert_eq!(state.input_buffer, "q");
}

#[test]
fn table_rows() {
    let config = sample_config();
    let rows = container_rows(&config);
    assert_eq!(rows[0], vec!["web", "Web", "3000", "proxy-net"]);
    assert_eq!(rows[1], vec!["api", "", "8000", "backend"]);
    let routes = route_rows(&config);
    assert_eq!(routes[0], vec!["8000", "web", "3000"]);
    assert_eq!(routes[1], vec!["8001", "api", "8000"]);
    assert_eq!(routes[2], vec!["8002", "gone", "?"]);
}

#[test]
fn status_tab_text() {
    let config = sample_config();
    assert_eq!(
        status_text(&config, &Some("running".to_string())),
        "Status: running\n\nActive Routes:\n  8000 -> web:3000\n  8001 -> api:8000\n  8002 -> gone:?"
    );
    assert_eq!(status_text(&Config::default(), &None), "Status: not running\n\nActive Routes:\n  (none)");
}

#[test]
fn dialog_texts() {
    assert_eq!(popup_text(&Popup::AddContainer, "ab"), (" Add Container ", "Container name:\nab".to_string()));
    assert_eq!(popup_text(&Popup::AddRoute, ""), (" Add Route ", "Format: port:container\n".to_string()));
    assert_eq!(
        popup_text(&Popup::RemoveContainer("web".to_string()), "y"),
        (" Remove Container ", "Remove 'web'? (y/n)\ny".to_string())
    );
    assert_eq!(
        popup_text(&Popup::Confirm("Sure?".to_string(), Box::new(Popup::AddRoute)), "n"),
        (" Confirm ", "Sure?\nn".to_string())
    );
}

#[test]
fn tab_bar_order() {
    let tabs = tab_order();
    assert_eq!(tabs, vec![Tab::Containers, Tab::Routes, Tab::Status, Tab::Logs]);
    for (i, t) in tabs.iter().enumerate() {
        assert_eq!(tab_index(*t), i);
    }
}

#[test]
fn start_files_need_containers_and_routes() {
    assert!(start_files(&Config::default()).is_none());
    let (conf, dockerfile) = start_files(&sample_config()).unwrap();
    assert!(conf.contains("listen 8000;"));
    assert!(dockerfile.starts_with("FROM nginx:stable-alpine"));
    assert!(dockerfile.contains("EXPOSE 8000 8001 8002"));
}

#[test]
fn page_interface_moves_within_lists() {
    let mut config = sample_config();
    let mut state = PageState::new();
    assert_eq!(state.handle_key(&mut config, Key::Up), PageAction::Continue);
    assert_eq!(state.selected_container, 0);
    state.handle_key(&mut config, Key::Down);
    state.handle_key(&mut config, Key::Down);
    assert_eq!(state.selected_container, 1);
    state.handle_key(&mut config, Key::Tab);
    assert_eq!(state.current_view, View::Routes);
    assert_eq!(state.selected_container, 0);
    state.handle_key(&mut config, Key::Down);
    state.handle_key(&mut config, Key::Down);
    state.handle_key(&mut config, Key::Down);
    assert_eq!(state.selected_route, 2);
    assert_eq!(state.handle_key(&mut config, Key::Char('q')), PageAction::Quit);
}

#[test]
fn page_interface_deletes() {
    let mut config = sample_config();
    let mut state = PageState::new();
    assert_eq!(state.handle_key(&mut config, Key::Char('a')), PageAction::Continue);
    assert_eq!(state.message, "Use CLI to add containers");
    assert_eq!(
        state.handle_key(&mut config, Key::Char('d')),
        PageAction::Save("Removed container: web".to_string())
    );
    assert_eq!(config.containers.len(), 1);
    assert_eq!(config.routes.len(), 2);
    assert_eq!(state.selected_container, 0);
    state.handle_key(&mut config, Key::Tab);
    state.handle_key(&mut config, Key::Down);
    assert_eq!(state.handle_key(&mut config, Key::Char('d')), PageAction::Save("Removed route".to_string()));
    assert_eq!(config.routes.len(), 1);
    assert_eq!(config.routes[0].host_port, 8001);
    assert_eq!(state.selected_route, 0);
    state.handle_key(&mut config, Key::Tab);
    assert_eq!(state.handle_key(&mut config, Key::Char('d')), PageAction::Continue);
}

#[test]
fn page_interface_texts() {
    let config = sample_config();
    assert_eq!(header_text(View::Routes), " Proxy Manager  | Routes");
    assert_eq!(container_item(&config, 0, 0), "> web :3000@proxy-net (Web)");
    assert_eq!(container_item(&config, 1, 0), "  api :8000@backend");
    assert_eq!(route_item(&config, 1, 1), "> 8001 -> api");
    assert_eq!(
        page_status_text(&config),
        "Proxy: proxy-manager\nNetwork: proxy-net\nContainers: 2\nRoutes: 3\n"
    );
    let mut state = PageState::new();
    assert_eq!(footer_text(&state), HELP_TEXT);
    state.message = "Removed route".to_string();
    assert_eq!(footer_text(&state), "Removed route");
}
