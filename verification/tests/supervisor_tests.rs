use vite_actix::proxy_vite_options::{LogLevel, OptionsStore, ProxyViteOptions};
use vite_actix::supervisor::{
    inspect_line, is_readiness_line, launch_plan, port_arguments, port_from_url,
    port_in_plain_text, record_announcement, select_executable, supervise_line, LaunchPlan,
    LineReport, LogLine, StartError, LOCALHOST_PREFIX, LOCAL_MARKER, URL_GROUP, URL_PATTERN,
};

#[test]
fn the_only_path_is_selected() {
    assert_eq!(select_executable("/usr/local/bin/vite\n"), Ok("/usr/local/bin/vite".to_string()));
}

#[test]
fn the_last_of_several_paths_is_selected() {
    let output = "/usr/local/bin/vite\n/usr/bin/vite\n/home/dev/.npm/bin/vite\n";
    assert_eq!(select_executable(output), Ok("/home/dev/.npm/bin/vite".to_string()));
}

#[test]
fn the_selected_path_is_trimmed() {
    let output = "\r\nC:\\npm\\vite\r\nC:\\npm\\vite.cmd  \r\n\r\n";
    assert_eq!(select_executable(output), Ok("C:\\npm\\vite.cmd".to_string()));
}

#[test]
fn a_path_is_kept_with_the_blanks_inside_it() {
    assert_eq!(
        select_executable("  /opt/my tools/vite  "),
        Ok("/opt/my tools/vite".to_string())
    );
}

#[test]
fn empty_output_means_not_found() {
    assert_eq!(select_executable(""), Err(StartError::NotFound));
    assert_eq!(select_executable(" \n\t\r\n "), Err(StartError::NotFound));
}

#[test]
fn no_arguments_without_a_port() {
    assert_eq!(port_arguments(None), Vec::<String>::new());
}

#[test]
fn the_port_is_passed_in_base_ten() {
    assert_eq!(port_arguments(Some(3000)), vec!["--port".to_string(), "3000".to_string()]);
    assert_eq!(port_arguments(Some(0)), vec!["--port".to_string(), "0".to_string()]);
    assert_eq!(port_arguments(Some(65535)), vec!["--port".to_string(), "65535".to_string()]);
}

#[test]
fn the_plan_runs_the_executable_in_the_working_directory() {
    let options = ProxyViteOptions::new(None).working_directory("/srv/app/web");
    assert_eq!(
        launch_plan("/usr/bin/vite\n", &options),
        Ok(LaunchPlan {
            program: "/usr/bin/vite".to_string(),
            arguments: Vec::new(),
            working_directory: "/srv/app/web".to_string(),
        })
    );
}

#[test]
fn the_plan_asks_for_the_configured_port() {
    let options = ProxyViteOptions::new(None).port(3000);
    assert_eq!(
        launch_plan("/a/vite\n/b/vite\n", &options),
        Ok(LaunchPlan {
            program: "/b/vite".to_string(),
            arguments: vec!["--port".to_string(), "3000".to_string()],
            working_directory: "./".to_string(),
        })
    );
}

#[test]
fn no_plan_is_made_where_the_executable_is_not_found() {
    let options = ProxyViteOptions::new(None).port(3000);
    assert_eq!(launch_plan("", &options), Err(StartError::NotFound));
    assert_eq!(launch_plan("\n", &options), Err(StartError::NotFound));
}

#[test]
fn the_texts_that_a_readiness_line_is_known_by() {
    assert_eq!(LOCAL_MARKER, "Local");
    assert_eq!(LOCALHOST_PREFIX, "http://localhost:");
    assert_eq!(URL_GROUP, "url");
    assert_eq!(URL_PATTERN, r"(?P<url>http://localhost:\d+).*");
}

#[test]
fn a_readiness_line_holds_both_markers() {
    assert!(is_readiness_line("\u{279c}  Local:   http://localhost:5173/"));
    assert!(is_readiness_line("http://localhost: is Local"));
    assert!(!is_readiness_line("\u{279c}  Network: http://localhost:5173/"));
    assert!(!is_readiness_line("\u{279c}  Local:   http://127.0.0.1:5173/"));
    assert!(!is_readiness_line("VITE v5.0.0  ready in 300 ms"));
    assert!(!is_readiness_line(""));
}

#[test]
fn the_port_is_what_follows_the_last_colon() {
    assert_eq!(port_from_url("http://localhost:5173"), Some(5173));
    assert_eq!(port_from_url("http://localhost:80"), Some(80));
    assert_eq!(port_from_url("5173"), Some(5173));
}

#[test]
fn an_address_without_a_port_that_fits_gives_none() {
    assert_eq!(port_from_url("http://localhost:"), None);
    assert_eq!(port_from_url("http://localhost:65536"), None);
    assert_eq!(port_from_url("http://localhost:5173/"), None);
    assert_eq!(port_from_url("http://localhost"), None);
    assert_eq!(port_from_url(""), None);
}

#[test]
fn the_readiness_line_announces_the_port() {
    assert_eq!(inspect_line("\u{279c} Local: http://localhost:4321/"), Some(4321));
    assert_eq!(inspect_line("  \u{279c}  Local:   http://localhost:5173/\n"), Some(5173));
    assert_eq!(inspect_line("  > Local: http://localhost:3000/index.html"), Some(3000));
}

#[test]
fn other_lines_announce_nothing() {
    assert_eq!(inspect_line("VITE vX ready in 300 ms"), None);
    assert_eq!(inspect_line("  \u{279c}  Network: use --host to expose"), None);
    assert_eq!(inspect_line("  \u{279c}  Network: http://localhost:5173/"), None);
    assert_eq!(inspect_line(""), None);
}

#[test]
fn colour_codes_do_not_hide_the_announcement() {
    let line = "  \u{1b}[32m\u{279c}\u{1b}[39m  \u{1b}[1mLocal\u{1b}[22m:   \u{1b}[36mhttp://localhost:\u{1b}[1m5173\u{1b}[22m/\u{1b}[39m";
    assert_eq!(inspect_line(line), Some(5173));
}

#[test]
fn colour_codes_inside_a_marker_are_removed_before_matching() {
    assert_eq!(inspect_line("Lo\u{1b}[1mcal: http://localhost:4321/"), Some(4321));
    assert_eq!(inspect_line("Local: http://local\u{1b}[0mhost:4321/"), Some(4321));
}

#[test]
fn an_announcement_without_a_usable_port_is_passed_over() {
    assert_eq!(inspect_line("Local: http://localhost:/"), None);
    assert_eq!(inspect_line("Local: http://localhost:port"), None);
    assert_eq!(inspect_line("Local: http://localhost:70000/"), None);
    assert_eq!(inspect_line("Local: http://localhost:99999999999999999999/"), None);
}

#[test]
fn the_first_address_of_a_line_is_taken() {
    assert_eq!(
        inspect_line("Local: http://localhost:3000/ and http://localhost:4000/"),
        Some(3000)
    );
    assert_eq!(inspect_line("Local: http://localhost:x http://localhost:4000/"), Some(4000));
}

#[test]
fn the_synthetic_output_records_the_port() {
    let mut store = OptionsStore::new();
    let options = ProxyViteOptions::global(&mut store, None);
    assert_eq!(options.port, None);
    let first = supervise_line(&mut store, options.log_level, "VITE vX ready in 300 ms");
    assert_eq!(first.port, None);
    assert_eq!(ProxyViteOptions::global(&mut store, None).port, None);
    let second =
        supervise_line(&mut store, options.log_level, "\u{279c} Local: http://localhost:4321/");
    assert_eq!(second.port, Some(4321));
    assert_eq!(ProxyViteOptions::global(&mut store, None).port, Some(4321));
}

#[test]
fn a_discovered_port_replaces_the_configured_one_only() {
    let mut store = OptionsStore::new();
    let options =
        ProxyViteOptions::new(None).port(3000).working_directory("web").log_level(LogLevel::Info);
    assert_eq!(options.build(&mut store), Ok(()));
    let report = supervise_line(&mut store, Some(LogLevel::Info), "Local: http://localhost:3001/");
    assert_eq!(report.port, Some(3001));
    assert_eq!(
        store.snapshot(),
        Some(ProxyViteOptions {
            port: Some(3001),
            working_directory: "web".to_string(),
            log_level: Some(LogLevel::Info),
        })
    );
}

#[test]
fn a_line_that_announces_nothing_leaves_the_store_alone() {
    let mut store = OptionsStore::new();
    assert_eq!(ProxyViteOptions::new(None).port(3000).build(&mut store), Ok(()));
    let before = store.snapshot();
    let report = supervise_line(&mut store, None, "press h + enter to show help");
    assert_eq!(report, LineReport { port: None, log: None });
    assert_eq!(store.snapshot(), before);
}

#[test]
fn every_line_is_logged_at_the_configured_level() {
    let mut store = OptionsStore::new();
    let report = supervise_line(&mut store, Some(LogLevel::Warn), "  hmr update /src/App.vue \n");
    assert_eq!(
        report,
        LineReport {
            port: None,
            log: Some(LogLine { level: LogLevel::Warn, text: "hmr update /src/App.vue".to_string() }),
        }
    );
    let report = supervise_line(&mut store, Some(LogLevel::Trace), "Local: http://localhost:1/");
    assert_eq!(
        report,
        LineReport {
            port: Some(1),
            log: Some(LogLine {
                level: LogLevel::Trace,
                text: "Local: http://localhost:1/".to_string(),
            }),
        }
    );
}

#[test]
fn the_logged_line_keeps_its_colour_codes() {
    let mut store = OptionsStore::new();
    let report = supervise_line(&mut store, Some(LogLevel::Debug), " \u{1b}[32mready\u{1b}[39m ");
    assert_eq!(
        report.log,
        Some(LogLine { level: LogLevel::Debug, text: "\u{1b}[32mready\u{1b}[39m".to_string() })
    );
}

#[test]
fn nothing_is_logged_where_logging_is_disabled() {
    let mut store = OptionsStore::new();
    let _ = ProxyViteOptions::global(&mut store, None);
    let report = supervise_line(&mut store, None, "Local: http://localhost:4321/");
    assert_eq!(report, LineReport { port: Some(4321), log: None });
    assert_eq!(ProxyViteOptions::global(&mut store, None).port, Some(4321));
}

#[test]
fn start_errors_describe_themselves() {
    assert_eq!(StartError::NotFound.message(), "vite not found");
    assert_eq!(StartError::SpawnFailure.message(), "Failed to spawn the Vite process");
    assert_eq!(
        StartError::StdoutCaptureFailure.message(),
        "Failed to capture Vite process stdout"
    );
}

#[test]
fn plain_text_is_searched_as_it_stands() {
    assert_eq!(port_in_plain_text("  Local:   http://localhost:5173/"), Some(5173));
    assert_eq!(port_in_plain_text("Local http://localhost:8080"), Some(8080));
    assert_eq!(port_in_plain_text("Network: http://localhost:5173/"), None);
    assert_eq!(port_in_plain_text("Local: http://localhost:none"), None);
    assert_eq!(port_in_plain_text("Lo\u{1b}[1mcal: http://localhost:4321/"), None);
}

#[test]
fn an_announcement_is_published_and_silence_is_not() {
    let mut store = OptionsStore::new();
    assert_eq!(ProxyViteOptions::new(None).port(3000).build(&mut store), Ok(()));
    record_announcement(&mut store, None);
    assert_eq!(store.snapshot(), Some(ProxyViteOptions::new(None).port(3000)));
    record_announcement(&mut store, Some(3001));
    assert_eq!(store.snapshot(), Some(ProxyViteOptions::new(None).port(3001)));
    record_announcement(&mut store, Some(3002));
    record_announcement(&mut store, None);
    assert_eq!(store.snapshot(), Some(ProxyViteOptions::new(None).port(3002)));
}
