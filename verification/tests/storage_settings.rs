use model_meter::mimo::storage::{saved_cookies, SettingValue, SettingsFile, Storage};

fn with_settings(settings: SettingsFile) -> Storage {
    let mut s = Storage::new();
    s.settings = settings;
    s
}

#[test]
fn new_storage_is_empty() {
    let s = Storage::new();
    assert!(s.data_dir.is_none());
    assert!(s.load_setting("x").is_none());
    assert!(!s.has_saved_platform_cookies());
    assert!(s.is_first_launch());
    assert!(!s.load_edge_snap_enabled());
}

#[test]
fn data_dir_is_set_once() {
    let mut s = Storage::new();
    s.init("/data/app".to_string());
    s.init("/elsewhere".to_string());
    assert_eq!(s.data_dir(), "/data/app");
    let path = s.settings_path();
    assert!(path == "/data/app/settings.json" || path == "/data/app\\settings.json");
    let mut d = Storage::new();
    d.init("C:".to_string());
    let p = d.settings_path();
    assert!(p == "C:/settings.json" || p == "C:settings.json");
    let mut e = Storage::new();
    e.init(String::new());
    assert_eq!(e.settings_path(), "settings.json");
    let mut t = Storage::new();
    t.init("/data/app/".to_string());
    assert_eq!(t.settings_path(), "/data/app/settings.json");
}

#[test]
fn a_setting_reads_back_what_was_saved() {
    let mut s = Storage::new();
    s.save_setting("payment_mode", "token");
    assert_eq!(s.load_setting("payment_mode").as_deref(), Some("token"));
    s.save_setting("theme", "dark");
    s.save_setting("payment_mode", "plan");
    assert_eq!(s.load_setting("payment_mode").as_deref(), Some("plan"));
    assert_eq!(s.load_setting("theme").as_deref(), Some("dark"));
    assert!(s.load_setting("missing").is_none());
}

#[test]
fn only_strings_are_read_as_settings() {
    let s = with_settings(SettingsFile::Object(vec![
        ("a".to_string(), SettingValue::Flag(true)),
        ("b".to_string(), SettingValue::Other("[1]".to_string())),
        ("c".to_string(), SettingValue::Text("1".to_string())),
        ("c".to_string(), SettingValue::Text("2".to_string())),
    ]));
    assert!(s.load_setting("a").is_none());
    assert!(s.load_setting("b").is_none());
    assert_eq!(s.load_setting("c").as_deref(), Some("2"));
}

#[test]
fn null_and_unreadable_files_become_objects() {
    let mut s = with_settings(SettingsFile::Null);
    assert!(s.load_setting("k").is_none());
    s.save_setting("k", "v");
    assert_eq!(s.load_setting("k").as_deref(), Some("v"));
    let mut t = with_settings(SettingsFile::Unreadable);
    t.save_onboarding_completed();
    assert!(!t.is_first_launch());
}

#[test]
fn edge_snap_round_trip() {
    let mut s = Storage::new();
    s.save_edge_snap_enabled(true);
    assert!(s.load_edge_snap_enabled());
    assert_eq!(s.load_setting("edge_snap_enabled").as_deref(), Some("true"));
    s.save_edge_snap_enabled(false);
    assert!(!s.load_edge_snap_enabled());
    assert_eq!(s.load_setting("edge_snap_enabled").as_deref(), Some("false"));
}

#[test]
fn onboarding_ends_the_first_launch() {
    let mut s = Storage::new();
    assert!(s.is_first_launch());
    s.save_onboarding_completed();
    assert!(s.load_onboarding_completed());
    s.save_setting("theme", "light");
    assert!(!s.is_first_launch());
    let text = with_settings(SettingsFile::Object(vec![(
        "onboarding_completed".to_string(),
        SettingValue::Text("true".to_string()),
    )]));
    assert!(text.is_first_launch());
}

#[test]
fn window_positions_round_trip() {
    let mut s = Storage::new();
    s.save_window_position("main", -1920, 35);
    assert_eq!(s.load_setting("main_x").as_deref(), Some("-1920"));
    assert_eq!(s.load_setting("main_y").as_deref(), Some("35"));
    assert_eq!(s.load_window_position("main"), Some((-1920, 35)));
    assert_eq!(s.load_window_position("widget"), None);
    s.save_setting("widget_x", "12");
    s.save_setting("widget_y", "abc");
    assert_eq!(s.load_window_position("widget"), None);
}

#[test]
fn cookies_flag_is_cleared() {
    let mut s = Storage::new();
    s.note_platform_cookies_saved();
    assert!(s.has_saved_platform_cookies());
    s.clear_platform_cookies();
    assert!(!s.has_saved_platform_cookies());
}

#[test]
fn saved_cookies_expire_after_a_week() {
    assert_eq!(saved_cookies(Some("a=1".to_string()), true, Some(7)).as_deref(), Some("a=1"));
    assert_eq!(saved_cookies(Some("a=1".to_string()), true, Some(8)), None);
    assert_eq!(saved_cookies(Some("a=1".to_string()), true, None).as_deref(), Some("a=1"));
    assert_eq!(saved_cookies(Some("a=1".to_string()), false, Some(0)), None);
    assert_eq!(saved_cookies(None, true, Some(0)), None);
}
