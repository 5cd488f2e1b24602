use proxy_manager::paths::{default_build_dir, default_config_dir, default_config_file, CONFIG_FILE_NAME};

#[test]
fn default_paths_are_consistent() {
    let dir = default_config_dir().unwrap();
    let file = default_config_file().unwrap();
    let build = default_build_dir().unwrap();

    assert!(std::path::Path::new(&file).starts_with(&dir));
    assert!(std::path::Path::new(&build).starts_with(&dir));
    assert!(std::path::Path::new(&file).ends_with(CONFIG_FILE_NAME));
}
