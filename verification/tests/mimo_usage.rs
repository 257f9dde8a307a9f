use model_meter::calendar::LocalDateTime;
use model_meter::mimo::api::{
    append_ph, check_code, check_status, extract_ph_from_cookies, format_number, is_pro_model,
    is_standard_model, parse_error, plan_reply, safe_truncate, ApiError, PlanReply,
};
use model_meter::mimo::commands::{
    cost_counted, current_bill, daily_points, earlier_month_to_fetch, effective_today,
    main_usage_item, month_prefix, payment_mode, refresh_report, usage_summary, usage_totals,
    with_daily_costs, TokenRecord,
};
use model_meter::mimo::models::{MimoModel, MimoMonthBill, MimoTokenDetailItem, MimoTokenPlanItem};

fn record(date: &str, model: &str, total: i64, requests: i64) -> TokenRecord {
    TokenRecord {
        date: date.to_string(),
        model: model.to_string(),
        total_token: total,
        input_hit_token: total / 2,
        input_miss_token: total / 4,
        output_token: total / 4,
        request_count: requests,
        input_audio_duration: 1,
    }
}

fn now(year: i32, month: u32, day: u32, hour: u32) -> LocalDateTime {
    LocalDateTime { year, month, day, hour }
}

#[test]
fn mimo_model_names() {
    assert_eq!(MimoModel::Standard.display_name(), "mimo-v2.5");
    assert_eq!(MimoModel::Pro.display_name(), "mimo-v2.5-pro");
    assert_eq!(MimoModel::Standard.short_name(), "Standard");
    assert_eq!(MimoModel::Pro.short_name(), "Pro");
}

#[test]
fn model_families() {
    assert!(is_pro_model("MiMo-V2.5-Pro"));
    assert!(!is_pro_model("mimo-v2.5"));
    assert!(is_standard_model("mimo-v2.5"));
    assert!(!is_standard_model("mimo-v2.5-pro"));
    assert!(!is_standard_model("other-model"));
}

#[test]
fn mimo_numbers_are_grouped() {
    assert_eq!(format_number(1234567890123), "1,234,567,890,123");
    assert_eq!(format_number(-5), "-5");
    assert_eq!(format_number(i64::MIN), "-9,223,372,036,854,775,808");
}

#[test]
fn truncation_keeps_whole_characters() {
    assert_eq!(safe_truncate("hello", 10), "hello");
    assert_eq!(safe_truncate("hello", 3), "hel");
    assert_eq!(safe_truncate("你好", 4), "你");
    assert_eq!(safe_truncate("你好", 2), "");
}

#[test]
fn status_checks() {
    assert!(check_status(204, "").is_ok());
    assert!(matches!(check_status(401, ""), Err(ApiError::PlatformUnauthorized)));
    match check_status(500, "oops") {
        Err(ApiError::Http(m)) => assert_eq!(m, "HTTP 500: oops"),
        _ => panic!("expected an HTTP error"),
    }
    assert!(check_code(0).is_ok());
    assert!(matches!(check_code(1), Err(ApiError::PlatformUnauthorized)));
    match parse_error("eof") {
        ApiError::Http(m) => assert_eq!(m, "parse: eof"),
        _ => panic!("expected an HTTP error"),
    }
    assert!(plan_reply(200, "{}") == PlanReply::Parse);
    assert!(plan_reply(200, "") == PlanReply::Empty);
    assert!(plan_reply(500, "x") == PlanReply::Empty);
    assert!(plan_reply(403, "x") == PlanReply::Unauthorized);
}

#[test]
fn mimo_error_messages() {
    assert_eq!(ApiError::PlatformUnauthorized.to_string(), "登录已过期，请重新登录");
    assert_eq!(ApiError::RateLimited.to_string(), "请求过于频繁");
    assert_eq!(ApiError::Http("x".to_string()).to_string(), "请求失败: x");
    assert!(ApiError::PlatformUnauthorized.is_auth_error());
    assert!(!ApiError::RateLimited.is_auth_error());
}

#[test]
fn ph_cookie_is_found_and_appended() {
    let cookies = "a=1; api-platform_ph=\"ab c/d\" ; b=2";
    assert_eq!(extract_ph_from_cookies(Some(cookies)).as_deref(), Some("ab c/d"));
    assert!(extract_ph_from_cookies(Some("a=1")).is_none());
    assert!(extract_ph_from_cookies(None).is_none());
    assert_eq!(
        append_ph("https://x/api", Some(cookies)),
        "https://x/api?api-platform_ph=ab%20c%2Fd"
    );
    assert_eq!(
        append_ph("https://x/api?y=1", Some("api-platform_ph=v~1")),
        "https://x/api?y=1&api-platform_ph=v~1"
    );
    assert_eq!(append_ph("https://x/api", None), "https://x/api");
}

#[test]
fn mimo_today_starts_at_seven() {
    assert_eq!(effective_today(&now(2024, 3, 5, 6)), "2024-03-04");
    assert_eq!(effective_today(&now(2024, 3, 5, 7)), "2024-03-05");
}

#[test]
fn records_from_items() {
    let item = MimoTokenPlanItem {
        date: Some("2024-03-05".to_string()),
        model: None,
        total_token: Some(10),
        input_hit_token: None,
        input_miss_token: Some(3),
        output_token: Some(2),
        request_count: Some(1),
        input_audio_duration: None,
    };
    let r = TokenRecord::from_plan_item(&item);
    assert_eq!(r.date, "2024-03-05");
    assert_eq!(r.model, "");
    assert_eq!(r.total_token, 10);
    assert_eq!(r.input_hit_token, 0);
    assert_eq!(r.input_audio_duration, 0);
    let detail = MimoTokenDetailItem {
        date: None,
        model: Some("mimo-v2.5".to_string()),
        api_key: None,
        currency: None,
        consumed_amount: Some("0.5".to_string()),
        input_hit_amount: None,
        input_miss_amount: None,
        output_amount: None,
        total_token: Some(7),
        input_hit_token: None,
        input_miss_token: None,
        output_token: None,
        request_count: None,
        input_audio_duration: Some(4),
    };
    let d = TokenRecord::from_detail_item(&detail);
    assert_eq!(d.date, "");
    assert_eq!(d.model, "mimo-v2.5");
    assert_eq!(d.total_token, 7);
    assert_eq!(d.input_audio_duration, 4);
}

#[test]
fn daily_points_are_grouped_by_day_in_order() {
    let records = vec![
        record("2024-03-05", "mimo-v2.5", 100, 1),
        record("2024-03-01", "mimo-v2.5", 40, 2),
        record("2024-03-05", "mimo-v2.5", 8, 3),
        record("2024-03-03", "mimo-v2.5-pro", 1000, 4),
        record("", "mimo-v2.5", 5, 5),
        record("2024-03-02", "other", 5, 5),
        record("bad-date", "mimo-v2.5", 4, 1),
    ];
    let flash = daily_points(&records, false);
    let dates: Vec<&str> = flash.iter().map(|p| p.date.as_str()).collect();
    assert_eq!(dates, vec!["2024-03-01", "2024-03-05", "bad-date"]);
    assert_eq!(flash[1].total_tokens, 108);
    assert_eq!(flash[1].request_count, 4);
    assert_eq!(flash[1].input_cache_hit_tokens, 54);
    assert_eq!(flash[1].input_audio_duration, 2);
    assert_eq!(flash[1].label, "03-05");
    assert_eq!(flash[2].label, "bad-date");
    assert_eq!(flash[0].cost_in_cents, 0);
    let pro = daily_points(&records, true);
    assert_eq!(pro.len(), 1);
    assert_eq!(pro[0].date, "2024-03-03");
    assert_eq!(pro[0].total_tokens, 1000);
}

#[test]
fn totals_and_todays_figures() {
    let records = vec![
        record("2024-03-05", "mimo-v2.5", 100, 1),
        record("2024-03-04", "mimo-v2.5", 40, 2),
        record("2024-03-05", "mimo-v2.5-pro", 1000, 4),
        record("2024-03-05", "other", 7, 7),
    ];
    let (flash, pro, day) = usage_totals(&records, "2024-03-05");
    assert_eq!(flash, 140);
    assert_eq!(pro, 1000);
    assert_eq!(day.requests, 5);
    assert_eq!(day.flash_tokens, 100);
    assert_eq!(day.pro_tokens, 1000);
    assert_eq!(day.audio, 2);
}

#[test]
fn totals_wrap_like_release_builds() {
    let records = vec![
        record("2024-03-05", "mimo-v2.5", i64::MAX, 0),
        record("2024-03-05", "mimo-v2.5", 1, 0),
    ];
    let (flash, _, _) = usage_totals(&records, "x");
    assert_eq!(flash, i64::MIN);
}

#[test]
fn summaries() {
    let s = usage_summary(MimoModel::Pro, 1234, 56, true, "¥0.56".to_string()).expect("summary");
    assert!(s.model == MimoModel::Pro);
    assert_eq!(s.total_tokens_formatted, "1,234");
    assert_eq!(s.cost_formatted, "套餐");
    let t = usage_summary(MimoModel::Standard, 5, 56, false, "¥0.56".to_string()).expect("summary");
    assert_eq!(t.cost_formatted, "¥0.56");
    assert_eq!(t.cost_in_cents, 56);
    assert!(usage_summary(MimoModel::Standard, 0, 0, false, String::new()).is_none());
}

#[test]
fn payment_modes() {
    let (m, plan) = payment_mode(None);
    assert_eq!(m, "plan");
    assert!(plan);
    let (m, plan) = payment_mode(Some("token".to_string()));
    assert_eq!(m, "token");
    assert!(!plan);
    let (_, plan) = payment_mode(Some("other".to_string()));
    assert!(plan);
}

#[test]
fn earlier_month_in_first_days() {
    assert_eq!(earlier_month_to_fetch(&now(2024, 3, 1, 12)), Some((2024, 2)));
    assert_eq!(earlier_month_to_fetch(&now(2024, 1, 1, 12)), Some((2023, 12)));
    assert_eq!(earlier_month_to_fetch(&now(2024, 3, 4, 12)), Some((2024, 3)));
    assert_eq!(earlier_month_to_fetch(&now(2024, 3, 7, 12)), None);
}

#[test]
fn bills_and_plan_items() {
    let bill = |m: Option<i64>| MimoMonthBill {
        report_month: m,
        consumption_amount: None,
        gift_consumption: None,
        cash_consumption: None,
    };
    let bills = vec![bill(None), bill(Some(202402)), bill(Some(202403)), bill(Some(202403))];
    assert_eq!(current_bill(&bills, 2024, 3), Some(2));
    assert_eq!(current_bill(&bills, 2024, 4), None);
    let names = vec![Some("compensation_total_token".to_string()), None, Some("plan".to_string())];
    assert_eq!(main_usage_item(&names), Some(1));
    let only = vec![Some("compensation_total_token".to_string())];
    assert_eq!(main_usage_item(&only), None);
}

#[test]
fn month_prefixes() {
    assert_eq!(month_prefix(2024, 3), "2024-03");
    assert_eq!(month_prefix(987, 11), "0987-11");
    assert_eq!(month_prefix(-5, 1), "-005-01");
}

#[test]
fn costs_count_for_known_models() {
    let r = record("2024-03-05", "mimo-v2.5", 1, 1);
    assert_eq!(cost_counted(&r, "2024-03-05", "2024-03"), (true, true));
    assert_eq!(cost_counted(&r, "2024-03-06", "2024-03"), (false, true));
    assert_eq!(cost_counted(&r, "2024-03-05", "2024-04"), (true, false));
    let other = record("2024-03-05", "other", 1, 1);
    assert_eq!(cost_counted(&other, "2024-03-05", "2024-03"), (false, false));
}

#[test]
fn daily_costs_by_date() {
    let records = vec![record("2024-03-05", "mimo-v2.5", 1, 1), record("2024-03-06", "mimo-v2.5", 1, 1)];
    let points = daily_points(&records, false);
    let cents = vec![("2024-03-06".to_string(), 123i64)];
    let r = with_daily_costs(&points, &cents);
    assert_eq!(r[0].cost_in_cents, 0);
    assert_eq!(r[1].cost_in_cents, 123);
    assert_eq!(r[1].total_tokens, 1);
}

#[test]
fn refresh_report_with_expired_login() {
    let failures = vec![None, Some(ApiError::Http("x".to_string())), None, Some(ApiError::PlatformUnauthorized)];
    let r = refresh_report(true, true, &failures, 2, false);
    assert!(!r.session_kept);
    assert!(!r.account_available);
    assert_eq!(r.error_message.as_deref(), Some("登录已过期，请重新登录"));
}

#[test]
fn refresh_report_lists_other_failures_once() {
    let failures = vec![
        Some(ApiError::Http("a".to_string())),
        Some(ApiError::Http("a".to_string())),
        Some(ApiError::Http("skip".to_string())),
        Some(ApiError::RateLimited),
    ];
    let r = refresh_report(true, false, &failures, 2, false);
    assert!(r.session_kept);
    assert!(!r.account_available);
    assert_eq!(r.error_message.as_deref(), Some("请求失败: a\n请求过于频繁"));
}

#[test]
fn refresh_report_without_session() {
    let r = refresh_report(false, false, &vec![], 2, true);
    assert!(!r.session_kept);
    assert_eq!(r.error_message.as_deref(), Some("登录已过期，请重新登录"));
    let r = refresh_report(false, false, &vec![], 2, false);
    assert!(r.error_message.is_none());
    let r = refresh_report(true, true, &vec![None, None], 2, false);
    assert!(r.session_kept);
    assert!(r.account_available);
    assert!(r.error_message.is_none());
}

#[test]
fn daily_points_add_up_to_the_month() {
    let records = vec![
        record("2024-03-05", "mimo-v2.5", 100, 1),
        record("2024-03-01", "mimo-v2.5", 40, 2),
        record("2024-03-05", "mimo-v2.5", 8, 3),
        record("2024-03-03", "mimo-v2.5-pro", 1000, 4),
    ];
    for pro in [false, true] {
        let points = daily_points(&records, pro);
        let sum = points.iter().fold(0i64, |a, p| a.wrapping_add(p.total_tokens));
        let (flash, pro_total, _) = usage_totals(&records, "x");
        assert_eq!(sum, if pro { pro_total } else { flash });
    }
}

#[test]
fn grouped_numbers_read_back_without_commas() {
    for n in [0i64, 7, -1000, 999_999, 1_000_000, i64::MAX, i64::MIN] {
        let g = format_number(n);
        assert_eq!(g.replace(',', ""), n.to_string());
        let digits = g.trim_start_matches('-');
        let groups: Vec<&str> = digits.split(',').collect();
        assert!((1..=3).contains(&groups[0].len()));
        assert!(groups[1..].iter().all(|p| p.len() == 3));
    }
}
