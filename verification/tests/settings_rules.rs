use muon::settings::{
    def_false, def_file_chunk_size, def_max_file_read_size, def_one_or_many, def_serve_dir, def_true,
    finalize_settings, LogSettings, OneOrMany, Settings,
};

fn flags(l: &LogSettings) -> Vec<Option<bool>> {
    vec![
        l.init_error, l.exit, l.client_dump, l.ip_dump, l.request, l.response, l.response_time,
        l.handler_error, l.tls_upgrade_error, l.content_handler_error, l.http2_error, l.http2_frame_dump,
        l.routes_error, l.routes_warning, l.routes_update, l.route_dump, l.http_error, l.http_error_detailed,
        l.file_type_info, l.file_processing_info,
    ]
}

#[test]
fn default_log_settings_decide_nothing() {
    let l = LogSettings::default();
    assert!(flags(&l).iter().all(|f| f.is_none()));
    assert_eq!(l.loglevel, None);
    assert!(l.loglevel_template.is_none());
    assert!(!l.enable_unset && !l.disable_unset);
}

#[test]
fn enable_unset_keeps_decided_switches() {
    let mut l = LogSettings::default();
    l.request = Some(false);
    l.enable_unset();
    assert_eq!(l.request, Some(false));
    assert_eq!(l.exit, Some(true));
    assert!(flags(&l).iter().all(|f| f.is_some()));
}

#[test]
fn disable_then_enable_changes_nothing() {
    let mut l = LogSettings::default();
    l.exit = Some(true);
    l.disable_unset();
    let before = flags(&l);
    l.enable_unset();
    assert_eq!(flags(&l), before);
    assert_eq!(l.exit, Some(true));
    assert_eq!(l.request, Some(false));
}

#[test]
fn all_switches_at_once() {
    let mut l = LogSettings::default();
    l.loglevel = Some(3);
    l._enable_all();
    assert!(flags(&l).iter().all(|f| *f == Some(true)));
    assert_eq!(l.loglevel, Some(3));
    l._disable_all();
    assert!(flags(&l).iter().all(|f| *f == Some(false)));
    l._unset_all();
    assert!(flags(&l).iter().all(|f| f.is_none()));
    assert_eq!(l.loglevel, Some(3));
}

#[test]
fn numeric_level_without_cascade_selects_its_bits_only() {
    let mut l = LogSettings::default();
    l.update_loglevel(16, false);
    assert_eq!(l.routes_warning, Some(true));
    assert_eq!(l.routes_error, Some(true));
    assert_eq!(l.http_error, Some(true));
    assert_eq!(l.handler_error, None);
    assert_eq!(l.init_error, None);
    assert_eq!(l.exit, None);
    assert_eq!(l.client_dump, None);
}

#[test]
fn warning_template_turns_on_louder_categories() {
    let mut l = LogSettings::default();
    l.update_loglevel_template("warning");
    // warning, error, critical error and fatal error
    assert_eq!(l.routes_warning, Some(true));
    assert_eq!(l.routes_error, Some(true));
    assert_eq!(l.http_error, Some(true));
    assert_eq!(l.handler_error, Some(true));
    assert_eq!(l.content_handler_error, Some(true));
    assert_eq!(l.tls_upgrade_error, Some(true));
    assert_eq!(l.init_error, Some(true));
    // nothing quieter
    assert_eq!(l.exit, None);
    assert_eq!(l.request, None);
    assert_eq!(l.response_time, None);
    assert_eq!(l.ip_dump, None);
    assert_eq!(l.http2_error, None);
}

#[test]
fn debug_template_turns_on_all_but_client_dump() {
    let mut l = LogSettings::default();
    l.update_loglevel_template("debug");
    let f = flags(&l);
    for (i, v) in f.iter().enumerate() {
        if i == 2 {
            assert_eq!(*v, None, "client_dump is never set by a level");
        } else {
            assert_eq!(*v, Some(true));
        }
    }
}

#[test]
fn unknown_template_changes_nothing() {
    let mut l = LogSettings::default();
    l.update_loglevel_template("loud");
    assert!(flags(&l).iter().all(|f| f.is_none()));
}

#[test]
fn level_does_not_override_explicit_switch() {
    let mut l = LogSettings::default();
    l.init_error = Some(false);
    l.update_loglevel(128, false);
    assert_eq!(l.init_error, Some(false));
    let once = flags(&l);
    l.update_loglevel(128, false);
    assert_eq!(flags(&l), once);
}

#[test]
fn initial_switches_win_over_file() {
    let mut loaded = Settings::default();
    loaded.logging.request = Some(true);
    loaded.logging.exit = Some(true);
    loaded.logging.disable_unset = true;
    let mut initial = LogSettings::default();
    initial.request = Some(false);
    let s = finalize_settings(Some(loaded), &initial);
    assert_eq!(s.logging.request, Some(false));
    assert_eq!(s.logging.exit, Some(true));
    assert_eq!(s.logging.response, Some(false));
}

#[test]
fn missing_settings_give_defaults() {
    let mut initial = LogSettings::default();
    initial.http_error = Some(true);
    let s = finalize_settings(None, &initial);
    assert_eq!(s.logging.http_error, Some(true));
    assert_eq!(s.logging.request, None);
    assert!(!s.environment.multi_threaded);
    assert_eq!(s.content.serve_dir, "");
    assert_eq!(s.content.file_chunk_size, 0);
    match &s.network.address {
        OneOrMany::One(a) => assert_eq!(a, ""),
        OneOrMany::Many(_) => panic!("default address is one empty address"),
    }
}

#[test]
fn file_level_and_template_apply() {
    let mut loaded = Settings::default();
    loaded.logging.loglevel = Some(8);
    loaded.logging.loglevel_template = Some("fatal-error".to_string());
    let s = finalize_settings(Some(loaded), &LogSettings::default());
    assert_eq!(s.logging.exit, Some(true));
    assert_eq!(s.logging.request, Some(true));
    assert_eq!(s.logging.init_error, Some(true));
    assert_eq!(s.logging.routes_warning, None);
}

#[test]
fn one_or_many_items() {
    let one = OneOrMany::One(5);
    assert_eq!(one.get(), &[5]);
    assert_eq!(one._convert(), vec![5]);
    let many = OneOrMany::Many(vec![1, 2]);
    assert_eq!(many.get(), &[1, 2]);
    let d: OneOrMany<u32> = Default::default();
    assert_eq!(d.get(), &[0]);
    let e: OneOrMany<u32> = def_one_or_many();
    assert!(e.get().is_empty());
}

#[test]
fn file_defaults() {
    assert!(def_true());
    assert!(!def_false());
    assert_eq!(def_serve_dir(), "./");
    assert_eq!(def_max_file_read_size(), 131072);
    assert_eq!(def_file_chunk_size(), 131072);
}
