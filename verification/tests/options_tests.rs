use vite_actix::proxy_vite_options::{
    try_find_vite_dir, ConfigError, DirProbe, LogLevel, OptionsStore, ProxyViteOptions,
    CONFIG_FILE_JS, CONFIG_FILE_TS, ROOT_DIRECTORY,
};

fn probe(path: &str, has_ts_config: bool, has_js_config: bool) -> DirProbe {
    DirProbe { path: Some(path.to_string()), has_ts_config, has_js_config }
}

#[test]
fn new_options_have_no_port_and_log_at_debug_level() {
    let options = ProxyViteOptions::new(None);
    assert_eq!(options.port, None);
    assert_eq!(options.working_directory, "./");
    assert_eq!(options.log_level, Some(LogLevel::Debug));
}

#[test]
fn new_options_start_in_the_project_root_that_was_found() {
    let options = ProxyViteOptions::new(Some("/srv/app/web".to_string()));
    assert_eq!(options.port, None);
    assert_eq!(options.working_directory, "/srv/app/web");
    assert_eq!(options.log_level, Some(LogLevel::Debug));
}

#[test]
fn builders_change_one_option_each() {
    let options = ProxyViteOptions::new(None).port(3000);
    assert_eq!(
        options,
        ProxyViteOptions {
            port: Some(3000),
            working_directory: "./".to_string(),
            log_level: Some(LogLevel::Debug),
        }
    );
    let options = options.working_directory("web");
    assert_eq!(
        options,
        ProxyViteOptions {
            port: Some(3000),
            working_directory: "web".to_string(),
            log_level: Some(LogLevel::Debug),
        }
    );
    let options = options.log_level(LogLevel::Warn);
    assert_eq!(
        options,
        ProxyViteOptions {
            port: Some(3000),
            working_directory: "web".to_string(),
            log_level: Some(LogLevel::Warn),
        }
    );
    let options = options.disable_logging();
    assert_eq!(
        options,
        ProxyViteOptions { port: Some(3000), working_directory: "web".to_string(), log_level: None }
    );
}

#[test]
fn the_last_of_two_logging_choices_wins() {
    let options = ProxyViteOptions::new(None).disable_logging().log_level(LogLevel::Warn);
    assert_eq!(options.log_level, Some(LogLevel::Warn));
    let options = ProxyViteOptions::new(None).log_level(LogLevel::Trace).disable_logging();
    assert_eq!(options.log_level, None);
}

#[test]
fn a_new_store_holds_nothing() {
    let store = OptionsStore::new();
    assert!(!store.is_initialized());
    assert_eq!(store.snapshot(), None);
}

#[test]
fn build_commits_the_options() {
    let mut store = OptionsStore::new();
    let options = ProxyViteOptions::new(None).port(3000).working_directory("web");
    assert_eq!(options.clone().build(&mut store), Ok(()));
    assert!(store.is_initialized());
    assert_eq!(store.snapshot(), Some(options.clone()));
    assert_eq!(ProxyViteOptions::global(&mut store, None), options);
}

#[test]
fn a_second_build_fails_and_changes_nothing() {
    let mut store = OptionsStore::new();
    let first = ProxyViteOptions::new(None).port(3000);
    assert_eq!(first.clone().build(&mut store), Ok(()));
    let second = ProxyViteOptions::new(None).port(4000).disable_logging();
    assert_eq!(second.build(&mut store), Err(ConfigError::AlreadyInitialized));
    assert_eq!(store.snapshot(), Some(first));
}

#[test]
fn build_after_a_first_read_fails() {
    let mut store = OptionsStore::new();
    let defaults = ProxyViteOptions::global(&mut store, None);
    let explicit = ProxyViteOptions::new(None).port(3000);
    assert_eq!(explicit.build(&mut store), Err(ConfigError::AlreadyInitialized));
    assert_eq!(store.snapshot(), Some(defaults));
}

#[test]
fn global_commits_the_defaults_on_first_use() {
    let mut store = OptionsStore::new();
    let options = ProxyViteOptions::global(&mut store, Some("/srv/app".to_string()));
    assert_eq!(options, ProxyViteOptions::new(Some("/srv/app".to_string())));
    assert!(store.is_initialized());
    assert_eq!(store.snapshot(), Some(options));
}

#[test]
fn global_twice_gives_the_same_snapshot() {
    let mut store = OptionsStore::new();
    let first = ProxyViteOptions::global(&mut store, Some("/srv/app".to_string()));
    let second = ProxyViteOptions::global(&mut store, Some("/elsewhere".to_string()));
    let third = ProxyViteOptions::global(&mut store, None);
    assert_eq!(first, second);
    assert_eq!(first, third);
    assert_eq!(first.working_directory, "/srv/app");
}

#[test]
fn update_port_is_seen_by_the_next_read() {
    let mut store = OptionsStore::new();
    let options =
        ProxyViteOptions::new(None).port(3000).working_directory("web").log_level(LogLevel::Info);
    assert_eq!(options.build(&mut store), Ok(()));
    assert_eq!(ProxyViteOptions::update_port(&mut store, 4321), Ok(()));
    let read = ProxyViteOptions::global(&mut store, None);
    assert_eq!(
        read,
        ProxyViteOptions {
            port: Some(4321),
            working_directory: "web".to_string(),
            log_level: Some(LogLevel::Info),
        }
    );
}

#[test]
fn update_port_after_the_store_was_committed_replaces_the_port_again() {
    let mut store = OptionsStore::new();
    let _ = ProxyViteOptions::global(&mut store, None);
    assert_eq!(ProxyViteOptions::update_port(&mut store, 5173), Ok(()));
    assert_eq!(ProxyViteOptions::update_port(&mut store, 5174), Ok(()));
    assert_eq!(ProxyViteOptions::global(&mut store, None).port, Some(5174));
}

#[test]
fn update_port_leaves_an_empty_store_empty() {
    let mut store = OptionsStore::new();
    assert_eq!(ProxyViteOptions::update_port(&mut store, 4321), Ok(()));
    assert!(!store.is_initialized());
    assert_eq!(ProxyViteOptions::global(&mut store, None).port, None);
}

#[test]
fn snapshot_does_not_commit_anything() {
    let store = OptionsStore::new();
    assert_eq!(store.snapshot(), None);
    assert_eq!(store.snapshot(), None);
    assert!(!store.is_initialized());
}

#[test]
fn the_names_of_the_configuration_files() {
    assert_eq!(CONFIG_FILE_TS, "vite.config.ts");
    assert_eq!(CONFIG_FILE_JS, "vite.config.js");
    assert_eq!(ROOT_DIRECTORY, "/");
}

#[test]
fn the_project_is_found_in_a_parent_directory() {
    let probes = vec![
        probe("/a/b/c", false, false),
        probe("/a/b", true, false),
        probe("/a", false, false),
        probe("/", false, false),
    ];
    assert_eq!(try_find_vite_dir(&probes), Some("/a/b".to_string()));
}

#[test]
fn no_project_is_found_where_no_directory_holds_a_configuration() {
    let probes = vec![probe("/x/y", false, false), probe("/x", false, false), probe("/", false, false)];
    assert_eq!(try_find_vite_dir(&probes), None);
}

#[test]
fn the_nearest_project_wins() {
    let probes = vec![
        probe("/a/b/c", false, true),
        probe("/a/b", true, false),
        probe("/a", true, true),
        probe("/", false, false),
    ];
    assert_eq!(try_find_vite_dir(&probes), Some("/a/b/c".to_string()));
}

#[test]
fn a_javascript_configuration_marks_a_project_too() {
    let probes = vec![probe("/work", false, true), probe("/", false, false)];
    assert_eq!(try_find_vite_dir(&probes), Some("/work".to_string()));
}

#[test]
fn the_filesystem_root_is_not_searched() {
    let probes = vec![probe("/a", false, false), probe("/", true, true)];
    assert_eq!(try_find_vite_dir(&probes), None);
    assert_eq!(try_find_vite_dir(&vec![probe("/", true, false)]), None);
}

#[test]
fn nothing_behind_the_root_is_searched() {
    let probes = vec![probe("/", false, false), probe("/a", true, false)];
    assert_eq!(try_find_vite_dir(&probes), None);
}

#[test]
fn an_unknown_current_directory_gives_no_project() {
    assert_eq!(try_find_vite_dir(&Vec::new()), None);
}

#[test]
fn a_walk_that_ends_before_the_root_gives_no_project() {
    let probes = vec![probe("b/c", false, false), probe("b", false, false), probe("", false, false)];
    assert_eq!(try_find_vite_dir(&probes), None);
}

#[test]
fn a_project_whose_path_is_not_unicode_is_not_reported() {
    let probes = vec![
        DirProbe { path: None, has_ts_config: true, has_js_config: false },
        probe("/a", true, false),
        probe("/", false, false),
    ];
    assert_eq!(try_find_vite_dir(&probes), None);
}

#[test]
fn a_directory_whose_path_is_not_unicode_is_walked_through() {
    let probes = vec![
        DirProbe { path: None, has_ts_config: false, has_js_config: false },
        probe("/a", true, false),
        probe("/", false, false),
    ];
    assert_eq!(try_find_vite_dir(&probes), Some("/a".to_string()));
}

#[test]
fn the_store_error_describes_itself() {
    assert_eq!(ConfigError::AlreadyInitialized.message(), "Failed to set proxy options");
}
