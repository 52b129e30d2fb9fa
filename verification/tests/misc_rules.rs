use muon::handlers::simple::SimpleHandler;
use muon::arguments::Cli;
use muon::logger::{check_loglevel, log_client_simple, loglevels, HttpMethod};
use muon::servers::HttpVersion;
use muon::settings::{LogSettings, Settings};
use muon::ssltls::{resolve_cert, select_cert, sni_matches, CertChoice};
use muon::startup::{initial_logging, runtime_plan, settings_fallback, settings_name, settings_path, RuntimePlan};
use std::sync::Arc;

#[test]
fn log_mask() {
    assert!(check_loglevel(u64::MAX, loglevels::REQUEST));
    assert!(!check_loglevel(loglevels::EXIT, loglevels::REQUEST));
    assert!(check_loglevel(loglevels::EXIT | loglevels::REQUEST, loglevels::REQUEST));
    assert_eq!(loglevels::HTTP2_FRAME_DUMP, 1 << 11);
}

#[test]
fn request_summary() {
    assert_eq!(
        log_client_simple(&HttpMethod::Get, "/a", &HttpVersion::Http11),
        "\x1b[32mGET\x1b[0m /a \x1b[33mHTTP/1.1\x1b[0m"
    );
    assert_eq!(
        log_client_simple(&HttpMethod::Unknown(Some("BREW".to_string())), "/", &HttpVersion::Unknown(None)),
        "BREW / UNKNOWN/0.0"
    );
    assert_eq!(log_client_simple(&HttpMethod::Unknown(None), "x", &HttpVersion::Http2), "UNKOWN x \x1b[32mHTTP/2\x1b[0m");
}

#[test]
fn sni_names() {
    assert!(sni_matches("*.example.com", "a.example.com"));
    assert!(!sni_matches("*.example.com", "example.com"));
    assert!(!sni_matches("*.example.com", "a.b.example.com"));
    assert!(sni_matches("one.localhost", "one.localhost"));
    assert!(!sni_matches("one.localhost", "two.localhost"));
    let names = vec!["two.localhost".to_string(), "*.localhost".to_string(), "one.localhost".to_string()];
    assert_eq!(select_cert(&names, "one.localhost"), Some(1));
    assert_eq!(select_cert(&names, "localhost"), None);
    assert_eq!(resolve_cert(Some("two.localhost"), &names, true), CertChoice::Named(0));
    assert_eq!(resolve_cert(Some("x.y.z"), &names, true), CertChoice::Default);
    assert_eq!(resolve_cert(None, &names, false), CertChoice::Nothing);
}

#[test]
fn settings_location() {
    assert_eq!(settings_name(None), "settings.toml");
    assert_eq!(settings_name(Some("x.toml")), "x.toml");
    assert_eq!(settings_fallback("x.toml"), "./x.toml");
    assert_eq!(settings_path(Some("/etc/muon.toml"), Some("/opt"), "settings.toml"), "/etc/muon.toml");
    assert_eq!(settings_path(None, Some("/opt/muon"), "settings.toml"), "/opt/muon/settings.toml");
    assert_eq!(settings_path(None, None, "settings.toml"), "./settings.toml");
}

#[test]
fn logging_before_the_file() {
    let l = initial_logging(Some(128), Some("debug"));
    assert_eq!(l.init_error, Some(true));
    assert_eq!(l.exit, None);
    let l = initial_logging(None, Some("info"));
    assert_eq!(l.exit, Some(true));
    assert_eq!(l.init_error, Some(true));
    assert_eq!(l.response_time, None);
    let l = initial_logging(None, None);
    assert!(l.request.is_none());
}

#[test]
fn runtimes() {
    let mut s = Settings::default();
    assert!(matches!(runtime_plan(&s.environment, true), RuntimePlan::Reuse));
    s.environment.rebuild_on_restart = true;
    s.environment.thread_name = Some("w".to_string());
    match runtime_plan(&s.environment, true) {
        RuntimePlan::CurrentThread { thread_name, thread_stack_size } => {
            assert_eq!(thread_name.as_deref(), Some("w"));
            assert!(thread_stack_size.is_none());
        },
        _ => panic!("expected a single-threaded runtime"),
    }
    s.environment.multi_threaded = true;
    s.environment.worker_threads = Some(4);
    match runtime_plan(&s.environment, false) {
        RuntimePlan::MultiThread { worker_threads, .. } => assert_eq!(worker_threads, Some(4)),
        _ => panic!("expected a multi-threaded runtime"),
    }
}

#[test]
fn simple_handler_paths() {
    let mut s = Settings::default();
    s.content.serve_dir = "public".to_string();
    s.content.max_file_size = Some(100);
    let cli = Cli { addresses: None, cwd: None, settings: None, settings_name: None, handler: None, loglevel: None };
    let h = SimpleHandler { _args: Arc::new(cli), settings: Arc::new(s) };
    assert_eq!(h.target("/../secret/../index.html?x"), "public/index.html");
    assert!(h.too_big(101));
    assert!(!h.too_big(100));
    let _ = LogSettings::default();
}
