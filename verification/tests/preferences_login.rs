use model_meter::ds::autostart::{
    deletion_outcome, read_back, reg_sz_bytes, registered_path, Deletion, ReadBack,
};
use model_meter::ds::login::{on_login_navigation, redirect_login};
use model_meter::errors::{join_texts, ErrorLog};
use model_meter::mimo::api::ApiError;
use model_meter::mimo::login::{
    cookie_header, format_cookie_value, LoginCheck, LoginStep, LoginWait, LoginWindow,
};
use model_meter::preferences::{
    interval_change, release_date, validate_api_key, validate_default_provider, validate_provider,
    validate_theme, validate_usage_token, DownloadEvent, DownloadProgress,
};

#[test]
fn api_keys_are_trimmed_and_checked() {
    assert_eq!(validate_api_key("  sk-abc \n").unwrap(), "sk-abc");
    assert_eq!(validate_api_key(" \t ").unwrap_err(), "API Key 不能为空");
    assert_eq!(validate_api_key(&"k".repeat(257)).unwrap_err(), "API Key 长度超出限制");
    assert_eq!(validate_api_key(&"k".repeat(256)).unwrap(), "k".repeat(256));
    assert_eq!(validate_api_key(&"好".repeat(86)).unwrap_err(), "API Key 长度超出限制");
    assert_eq!(validate_api_key("no-prefix").unwrap(), "no-prefix");
}

#[test]
fn usage_tokens_are_checked() {
    assert!(validate_usage_token(" tok ").is_ok());
    assert_eq!(validate_usage_token("   ").unwrap_err(), "用量 Token 不能为空");
    assert_eq!(validate_usage_token(&"t".repeat(4097)).unwrap_err(), "用量 Token 长度超出限制");
    assert!(validate_usage_token(&"t".repeat(4096)).is_ok());
}

#[test]
fn themes_and_providers() {
    assert!(validate_theme("light").is_ok());
    assert!(validate_theme("dark").is_ok());
    assert!(validate_theme("system").is_ok());
    assert_eq!(validate_theme("blue").unwrap_err(), "无效主题");
    assert!(validate_default_provider("deepseek").is_ok());
    assert!(validate_default_provider("mimo").is_ok());
    assert_eq!(validate_default_provider("x").unwrap_err(), "无效平台");
    assert!(validate_provider("mimo").is_ok());
    assert_eq!(
        validate_provider("openai").unwrap_err(),
        "无效的 provider，仅支持 deepseek 或 mimo"
    );
}

#[test]
fn refresh_interval_changes() {
    assert_eq!(interval_change("refresh_interval", "120"), Some(120));
    assert_eq!(interval_change("refresh_interval", "+5"), Some(5));
    assert_eq!(interval_change("refresh_interval", "-5"), None);
    assert_eq!(interval_change("refresh_interval", "abc"), None);
    assert_eq!(interval_change("refresh_interval", "18446744073709551615"), Some(u64::MAX));
    assert_eq!(interval_change("refresh_interval", "18446744073709551616"), None);
    assert_eq!(interval_change("theme", "120"), None);
}

#[test]
fn release_dates() {
    assert_eq!(release_date(2024, 3, 5), "2024-03-05");
    assert_eq!(release_date(2025, 12, 31), "2025-12-31");
    assert_eq!(release_date(-1, 1, 1), "-1-01-01");
}

#[test]
fn download_progress_reports_the_start_once() {
    let mut p = DownloadProgress::new();
    let first = p.on_chunk(100, Some(1000));
    assert!(first == vec![DownloadEvent::Started(Some(1000)), DownloadEvent::Progress(100, 100)]);
    let second = p.on_chunk(50, Some(1000));
    assert!(second == vec![DownloadEvent::Progress(50, 150)]);
    assert_eq!(p.downloaded, 150);
}

#[test]
fn login_redirect_carries_token_and_cookies() {
    let url = "https://dsm.local/token?t=abc%2Bdef&c=a%3D1%3B%20b%3D2";
    let (t, c) = redirect_login(url);
    assert_eq!(t, "abc+def");
    assert_eq!(c, "a=1; b=2");
    let nav = on_login_navigation(url);
    assert!(!nav.allow);
    let (token, cookies) = nav.captured.expect("captured");
    assert_eq!(token, "abc+def");
    assert_eq!(cookies.as_deref(), Some("a=1; b=2"));
}

#[test]
fn login_redirect_edge_cases() {
    let (t, c) = redirect_login("https://dsm.local/token?c=x&t=1&t=2&z");
    assert_eq!(t, "2");
    assert_eq!(c, "x");
    let (t, _) = redirect_login("https://dsm.local/token?t=%FF");
    assert_eq!(t, "");
    let (t, _) = redirect_login("https://dsm.local/token?t=a%2");
    assert_eq!(t, "a%2");
    let nav = on_login_navigation("https://dsm.local/token?c=1");
    assert!(!nav.allow);
    assert!(nav.captured.is_none());
    let nav = on_login_navigation("https://platform.deepseek.com/usage");
    assert!(nav.allow);
    assert!(nav.captured.is_none());
    let nav = on_login_navigation("https://dsm.local/token?t=tok");
    assert_eq!(nav.captured.unwrap().1, None);
}

#[test]
fn registry_value_bytes() {
    assert_eq!(reg_sz_bytes("C:\\a"), vec![b'C', 0, b':', 0, b'\\', 0, b'a', 0, 0, 0]);
    assert_eq!(reg_sz_bytes("é"), vec![0xE9, 0, 0, 0]);
    assert_eq!(reg_sz_bytes("😀"), vec![0x3D, 0xD8, 0x00, 0xDE, 0, 0]);
    assert_eq!(reg_sz_bytes(""), vec![0, 0]);
}

#[test]
fn registry_read_backs() {
    assert!(matches!(read_back(0, Some("C:\\app.exe"), "C:\\app.exe"), ReadBack::Verified));
    assert!(matches!(read_back(5, Some("other"), "C:\\app.exe"), ReadBack::Retry));
    assert!(matches!(read_back(5, None, "C:\\app.exe"), ReadBack::Retry));
    match read_back(120, Some("C:\\app.exe"), "C:\\app.exe") {
        ReadBack::Failed(m) => assert_eq!(m, "注册表值已写入但内容不匹配，可能被安全软件拦截"),
        _ => panic!("the last read fails"),
    }
    match read_back(120, None, "C:\\app.exe") {
        ReadBack::Failed(m) => assert_eq!(m, "注册表写入超时（60秒），值未被验证，可能被安全软件拦截"),
        _ => panic!("the last read fails"),
    }
    assert_eq!(registered_path(None, Some("old".to_string())).as_deref(), Some("old"));
    assert_eq!(registered_path(Some("new".to_string()), Some("old".to_string())).as_deref(), Some("new"));
}

#[test]
fn registry_deletions() {
    assert!(deletion_outcome(&vec![Deletion::Deleted, Deletion::Missing]).is_ok());
    assert_eq!(
        deletion_outcome(&vec![Deletion::Missing, Deletion::Failed("denied".to_string())]).unwrap_err(),
        "删除注册表失败: denied"
    );
}

#[test]
fn cookie_headers() {
    assert_eq!(format_cookie_value("plain"), "plain");
    assert_eq!(format_cookie_value("a b"), "\"a b\"");
    assert_eq!(format_cookie_value("x=\"y\"z"), "\"x=\\\"y\\\"z\"");
    assert_eq!(format_cookie_value("\"quoted already\""), "\"quoted already\"");
    let cookies = vec![
        ("a".to_string(), "1".to_string()),
        ("".to_string(), "skipped".to_string()),
        ("b".to_string(), "x;y".to_string()),
    ];
    assert_eq!(cookie_header(&cookies), "a=1; b=\"x;y\"");
    assert_eq!(cookie_header(&vec![]), "");
}

#[test]
fn login_wait_makes_at_most_120_checks() {
    let mut w = LoginWait::new();
    let mut checks = 0;
    while w.begin_check() {
        checks += 1;
    }
    assert_eq!(checks, 120);
    assert!(!w.begin_check());
}

#[test]
fn login_wait_steps() {
    let w = LoginWait::new();
    assert!(matches!(w.on_window(LoginWindow::Closed), LoginStep::Stop));
    assert!(matches!(w.on_window(LoginWindow::Hidden), LoginStep::Stop));
    assert!(matches!(w.on_window(LoginWindow::Open(None)), LoginStep::Retry));
    assert!(matches!(w.on_window(LoginWindow::Open(Some(String::new()))), LoginStep::Retry));
    match w.on_window(LoginWindow::Open(Some("a=1".to_string()))) {
        LoginStep::TryCookies(c) => assert_eq!(c, "a=1"),
        _ => panic!("cookies are tried"),
    }
    assert!(w.on_balance(None) == LoginCheck::Done);
    assert!(w.on_balance(Some(&ApiError::PlatformUnauthorized)) == LoginCheck::DropAndRetry);
    assert!(w.on_balance(Some(&ApiError::RateLimited)) == LoginCheck::Retry);
}

#[test]
fn error_log_keeps_each_message_once() {
    let mut log = ErrorLog::new();
    log.record("a".to_string());
    log.record("b".to_string());
    log.record("a".to_string());
    assert!(log.contains("a"));
    assert_eq!(log.error_text("u").as_deref(), Some("a\nb"));
    log.record("u".to_string());
    assert_eq!(log.error_text("u").as_deref(), Some("u"));
    assert!(ErrorLog::new().error_text("u").is_none());
    assert_eq!(join_texts(&vec!["x".to_string(), "y".to_string()], "; "), "x; y");
}
