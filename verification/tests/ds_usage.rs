use model_meter::calendar::LocalDateTime;
use model_meter::ds::api::{
    build_daily_from_platform, check_platform_status, check_response_code, find_flash_model,
    format_date_short, format_number, is_flash_model, is_pro_model, ApiError,
};
use model_meter::ds::commands::{
    apply_platform_amount, cost_day, effective_today, enrich_daily_costs, fill_today_tokens, wallet_balances,
    DsRefresh, DsRefreshStep,
};
use model_meter::ds::models::{
    DashboardUsage, DeepSeekModel, ModelDailyUsagePoint, PlatformAmountInnerData,
    PlatformAmountResponse, PlatformBizDataContent, PlatformDayData, PlatformModelData,
    PlatformUsageEntry, UserSummaryBizData, UserSummaryWallet,
};

fn entry(kind: &str, amount: &str) -> PlatformUsageEntry {
    PlatformUsageEntry { usage_type: kind.to_string(), amount: amount.to_string() }
}

fn model(name: &str, usage: Vec<PlatformUsageEntry>) -> PlatformModelData {
    PlatformModelData { model: name.to_string(), usage }
}

fn now(year: i32, month: u32, day: u32, hour: u32) -> LocalDateTime {
    LocalDateTime { year, month, day, hour }
}

#[test]
fn model_names() {
    assert_eq!(DeepSeekModel::Flash.api_model_name(), "deepseek-chat");
    assert_eq!(DeepSeekModel::Pro.api_model_name(), "deepseek-reasoner");
    assert_eq!(DeepSeekModel::Flash.display_name(), "V4 Flash");
    assert_eq!(DeepSeekModel::Pro.display_name(), "V4 Pro");
    assert_eq!(DeepSeekModel::Flash.short_name(), "Flash");
    assert_eq!(DeepSeekModel::Pro.short_name(), "Pro");
}

#[test]
fn model_families_ignore_case() {
    assert!(is_pro_model("deepseek-reasoner"));
    assert!(is_pro_model("DeepSeek-V4-PRO"));
    assert!(!is_pro_model("deepseek-chat"));
    assert!(is_flash_model("deepseek-chat"));
    assert!(is_flash_model("V4-Flash"));
    assert!(!is_flash_model("deepseek-reasoner"));
}

#[test]
fn first_flash_model_is_found() {
    let models = vec![
        model("deepseek-reasoner", vec![]),
        model("deepseek-chat", vec![entry("REQUEST", "1")]),
        model("v4-flash", vec![]),
    ];
    let found = find_flash_model(&models).expect("a flash model");
    assert_eq!(found.model, "deepseek-chat");
    let none = vec![model("deepseek-reasoner", vec![])];
    assert!(find_flash_model(&none).is_none());
}

#[test]
fn numbers_are_grouped_by_thousands() {
    assert_eq!(format_number(0), "0");
    assert_eq!(format_number(999), "999");
    assert_eq!(format_number(1000), "1,000");
    assert_eq!(format_number(1234567), "1,234,567");
    assert_eq!(format_number(-1234567), "-1,234,567");
    assert_eq!(format_number(i32::MIN), "-2,147,483,648");
}

#[test]
fn short_dates() {
    assert_eq!(format_date_short("2024-03-05"), "03-05");
    assert_eq!(format_date_short("2024-3-5"), "2024-3-5");
    assert_eq!(format_date_short(""), "");
}

#[test]
fn today_starts_at_eight() {
    assert_eq!(effective_today(&now(2024, 3, 5, 7)), "2024-03-04");
    assert_eq!(effective_today(&now(2024, 3, 5, 8)), "2024-03-05");
    assert_eq!(effective_today(&now(2024, 3, 1, 0)), "2024-02-29");
    assert_eq!(effective_today(&now(2024, 1, 1, 3)), "2023-12-31");
}

#[test]
fn daily_points_from_platform_days() {
    let days = vec![
        PlatformDayData {
            date: "2024-03-01".to_string(),
            data: vec![
                model(
                    "deepseek-chat",
                    vec![
                        entry("PROMPT_CACHE_HIT_TOKEN", "10"),
                        entry("PROMPT_CACHE_MISS_TOKEN", "20"),
                        entry("RESPONSE_TOKEN", "5"),
                        entry("REQUEST", "2"),
                    ],
                ),
                model("deepseek-reasoner", vec![entry("PROMPT_TOKEN", "100"), entry("REQUEST", "1")]),
            ],
        },
        PlatformDayData {
            date: "2024-03-02".to_string(),
            data: vec![model("deepseek-chat", vec![entry("REQUEST", "0")])],
        },
    ];
    let flash = build_daily_from_platform(&days, false);
    assert_eq!(flash.len(), 1);
    assert_eq!(flash[0].date, "2024-03-01");
    assert_eq!(flash[0].label, "03-01");
    assert_eq!(flash[0].total_tokens, 35);
    assert_eq!(flash[0].input_cache_hit_tokens, 10);
    assert_eq!(flash[0].input_cache_miss_tokens, 20);
    assert_eq!(flash[0].output_tokens, 5);
    assert_eq!(flash[0].request_count, 2);
    assert_eq!(flash[0].cost_in_cents, 0);
    let pro = build_daily_from_platform(&days, true);
    assert_eq!(pro.len(), 1);
    assert_eq!(pro[0].total_tokens, 100);
    assert_eq!(pro[0].request_count, 1);
}

#[test]
fn amount_reply_fills_the_month_and_today() {
    let day = PlatformDayData {
        date: "2024-03-05".to_string(),
        data: vec![
            model("deepseek-chat", vec![entry("PROMPT_TOKEN", "1500"), entry("REQUEST", "3")]),
            model("deepseek-reasoner", vec![entry("RESPONSE_TOKEN", "700"), entry("REQUEST", "2")]),
        ],
    };
    let amount = PlatformAmountResponse {
        code: 0,
        data: Some(PlatformAmountInnerData {
            biz_code: 0,
            biz_data: Some(PlatformBizDataContent {
                total: vec![
                    model("deepseek-chat", vec![entry("PROMPT_TOKEN", "1500"), entry("REQUEST", "9")]),
                    model("deepseek-reasoner", vec![entry("RESPONSE_TOKEN", "700")]),
                ],
                days: vec![day],
            }),
        }),
    };
    let r = apply_platform_amount(DashboardUsage::empty(), &amount, &now(2024, 3, 5, 12));
    let flash = r.flash_usage.as_ref().expect("flash summary");
    assert_eq!(flash.total_tokens, 1500);
    assert_eq!(flash.total_tokens_formatted, "1,500");
    assert_eq!(flash.cost_formatted, "¥0.00");
    let pro = r.pro_usage.as_ref().expect("pro summary");
    assert_eq!(pro.total_tokens, 700);
    assert_eq!(r.current_day_flash_tokens, 1500);
    assert_eq!(r.current_day_pro_tokens, 700);
    assert_eq!(r.current_day_requests, 5);
    assert_eq!(r.flash_daily_usage.len(), 1);
    assert_eq!(r.pro_daily_usage.len(), 1);
}

#[test]
fn amount_reply_without_data_changes_nothing() {
    let amount = PlatformAmountResponse { code: 0, data: None };
    let r = apply_platform_amount(DashboardUsage::empty(), &amount, &now(2024, 3, 5, 12));
    assert!(r.flash_usage.is_none());
    assert!(r.pro_usage.is_none());
    assert_eq!(r.current_day_requests, 0);
}

fn point(date: &str, tokens: i32) -> ModelDailyUsagePoint {
    ModelDailyUsagePoint {
        date: date.to_string(),
        label: date.to_string(),
        total_tokens: tokens,
        input_cache_hit_tokens: 0,
        input_cache_miss_tokens: 0,
        output_tokens: 0,
        request_count: 0,
        cost_in_cents: 7,
    }
}

#[test]
fn daily_costs_are_taken_by_date() {
    let points = vec![point("2024-03-01", 1), point("2024-03-02", 2)];
    let costs = vec![("2024-03-02".to_string(), 150), ("2024-03-02".to_string(), 250)];
    let r = enrich_daily_costs(&points, &costs);
    assert_eq!(r[0].cost_in_cents, 7);
    assert_eq!(r[1].cost_in_cents, 250);
    assert_eq!(r[1].total_tokens, 2);
}

#[test]
fn todays_tokens_come_from_the_daily_points() {
    let mut usage = DashboardUsage::empty();
    usage.flash_daily_usage = vec![point("2024-03-05", 42)];
    usage.pro_daily_usage = vec![point("2024-03-05", 9)];
    usage.current_day_pro_tokens = 3;
    let r = fill_today_tokens(usage, "2024-03-05");
    assert_eq!(r.current_day_flash_tokens, 42);
    assert_eq!(r.current_day_pro_tokens, 3);
}

#[test]
fn wallet_balances_default_to_zero() {
    let biz = UserSummaryBizData {
        normal_wallets: vec![UserSummaryWallet {
            currency: "CNY".to_string(),
            balance: "12.50".to_string(),
            token_estimation: "0".to_string(),
        }],
        bonus_wallets: vec![],
    };
    let (normal, bonus) = wallet_balances(&biz);
    assert_eq!(normal, "12.50");
    assert_eq!(bonus, "0");
}

#[test]
fn status_and_code_checks() {
    assert!(check_platform_status(200, "").is_ok());
    assert!(matches!(check_platform_status(401, "x"), Err(ApiError::PlatformUnauthorized)));
    assert!(matches!(check_platform_status(403, "x"), Err(ApiError::PlatformUnauthorized)));
    match check_platform_status(500, "boom") {
        Err(ApiError::PlatformError(500, body)) => assert_eq!(body, "boom"),
        _ => panic!("expected a platform error"),
    }
    assert!(check_response_code(0).is_ok());
    assert!(matches!(check_response_code(40003), Err(ApiError::PlatformUnauthorized)));
}

#[test]
fn error_messages() {
    assert_eq!(ApiError::Unauthorized.to_string(), "认证无效或已过期，请重新登录");
    assert_eq!(ApiError::RateLimited.to_string(), "请求过于频繁，请稍后重试");
    assert_eq!(ApiError::ServerError(502).to_string(), "服务器错误 (502)");
    assert_eq!(ApiError::HttpError(418).to_string(), "HTTP 错误 (418)");
    assert_eq!(ApiError::NetworkError("x".to_string()).to_string(), "网络连接失败，请检查网络设置");
    assert_eq!(ApiError::DecodingError("bad".to_string()).to_string(), "数据解析错误: bad");
    assert_eq!(ApiError::InvalidResponse.to_string(), "服务器返回无效响应");
    assert_eq!(ApiError::PlatformError(500, "b".to_string()).to_string(), "平台API HTTP 500: b");
    assert_eq!(ApiError::PlatformUnauthorized.to_string(), "登录无效或已过期，请重新登录");
}

#[test]
fn refresh_without_token_reports_saved_login_as_expired() {
    let r = DsRefresh::start(false);
    assert!(r.step == DsRefreshStep::Finish);
    let (text, valid) = r.finish(true);
    assert_eq!(text.as_deref(), Some("登录无效或已过期，请重新登录"));
    assert!(!valid);
    let (text, _) = DsRefresh::start(false).finish(false);
    assert!(text.is_none());
}

#[test]
fn refresh_with_expired_login_drops_session() {
    let mut r = DsRefresh::start(true);
    assert!(r.step == DsRefreshStep::FetchSummary);
    let e = ApiError::PlatformUnauthorized;
    assert!(r.on_summary(Some(&e)));
    assert!(r.step == DsRefreshStep::Finish);
    let (text, valid) = r.finish(false);
    assert_eq!(text.as_deref(), Some("登录无效或已过期，请重新登录"));
    assert!(!valid);
}

#[test]
fn refresh_reports_other_failures_once() {
    let mut r = DsRefresh::start(true);
    let e = ApiError::ServerError(500);
    assert!(!r.on_summary(Some(&e)));
    assert!(r.step == DsRefreshStep::FetchUsage);
    assert!(!r.on_usage(None, None));
    let (text, valid) = r.finish(false);
    assert_eq!(text.as_deref(), Some("服务器错误 (500)"));
    assert!(valid);
}

#[test]
fn cost_days_by_date() {
    assert_eq!(cost_day("2024-03-05", "2024-03-05", 2024, 3), (true, true));
    assert_eq!(cost_day("2024-02-29", "2024-03-05", 2024, 3), (false, false));
    assert_eq!(cost_day("2024-03-01", "2024-03-05", 2024, 3), (false, true));
    assert_eq!(cost_day("not a date", "not a date", 2024, 3), (true, false));
}
