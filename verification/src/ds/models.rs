use vstd::prelude::*;

verus! {

/// Account balance amounts, as the platform reports them, in a currency.
pub struct BalanceInfo {
    pub currency: String,
    pub total_balance: String,
    pub granted_balance: String,
    pub topped_up_balance: String,
}

/// The two DeepSeek model families that the dashboard tracks.
#[derive(Clone, Copy, Debug, PartialEq, Eq, Structural)]
pub enum DeepSeekModel {
    Flash,
    Pro,
}

impl DeepSeekModel {
    /// The model name that the DeepSeek API uses for this family.
    pub fn api_model_name(&self) -> (r: &'static str)
        ensures
            r@ == (match self {
                DeepSeekModel::Flash => "deepseek-chat"@,
                DeepSeekModel::Pro => "deepseek-reasoner"@,
            }),
    {
        match self {
            DeepSeekModel::Flash => "deepseek-chat",
            DeepSeekModel::Pro => "deepseek-reasoner",
        }
    }

    /// The name shown to the user.
    pub fn display_name(&self) -> (r: &'static str)
        ensures
            r@ == (match self {
                DeepSeekModel::Flash => "V4 Flash"@,
                DeepSeekModel::Pro => "V4 Pro"@,
            }),
    {
        match self {
            DeepSeekModel::Flash => "V4 Flash",
            DeepSeekModel::Pro => "V4 Pro",
        }
    }

    /// A short label for compact views.
    pub fn short_name(&self) -> (r: &'static str)
        ensures
            r@ == (match self {
                DeepSeekModel::Flash => "Flash"@,
                DeepSeekModel::Pro => "Pro"@,
            }),
    {
        match self {
            DeepSeekModel::Flash => "Flash",
            DeepSeekModel::Pro => "Pro",
        }
    }
}

/// Monthly token usage of one model family.
pub struct ModelUsageSummary {
    pub model: DeepSeekModel,
    pub total_tokens: i32,
    pub cost_in_cents: i32,
    pub total_tokens_formatted: String,
    pub cost_formatted: String,
}

/// Usage of one model family on one day.
pub struct ModelDailyUsagePoint {
    pub date: String,
    pub label: String,
    pub total_tokens: i32,
    pub input_cache_hit_tokens: i32,
    pub input_cache_miss_tokens: i32,
    pub output_tokens: i32,
    pub request_count: i32,
    pub cost_in_cents: i32,
}

/// One usage figure of a model: its kind (`PROMPT_TOKEN`, `REQUEST`, ...) and amount.
pub struct PlatformUsageEntry {
    pub usage_type: String,
    pub amount: String,
}

/// The usage figures of one model.
pub struct PlatformModelData {
    pub model: String,
    pub usage: Vec<PlatformUsageEntry>,
}

/// The usage figures of all models on one day.
pub struct PlatformDayData {
    pub date: String,
    pub data: Vec<PlatformModelData>,
}

/// Month totals and per-day figures.
pub struct PlatformBizDataContent {
    pub total: Vec<PlatformModelData>,
    pub days: Vec<PlatformDayData>,
}

/// Reply of the platform's monthly cost endpoint.
pub struct PlatformCostResponse {
    pub code: i32,
    pub data: Option<PlatformCostInnerData>,
}

/// Reply of the platform's monthly token amount endpoint.
pub struct PlatformAmountResponse {
    pub code: i32,
    pub data: Option<PlatformAmountInnerData>,
}

pub struct PlatformCostInnerData {
    pub biz_code: i32,
    pub biz_data: Option<Vec<PlatformBizDataContent>>,
}

pub struct PlatformAmountInnerData {
    pub biz_code: i32,
    pub biz_data: Option<PlatformBizDataContent>,
}

/// Reply of the platform's user summary endpoint.
pub struct UserSummaryResponse {
    pub code: i32,
    pub data: Option<UserSummaryInnerData>,
}

pub struct UserSummaryInnerData {
    pub biz_code: i32,
    pub biz_data: Option<UserSummaryBizData>,
}

pub struct UserSummaryBizData {
    pub normal_wallets: Vec<UserSummaryWallet>,
    pub bonus_wallets: Vec<UserSummaryWallet>,
}

pub struct UserSummaryWallet {
    pub currency: String,
    pub balance: String,
    pub token_estimation: String,
}

/// The usage part of the dashboard: everything that is counted rather than priced.
pub struct DashboardUsage {
    pub flash_usage: Option<ModelUsageSummary>,
    pub pro_usage: Option<ModelUsageSummary>,
    pub flash_daily_usage: Vec<ModelDailyUsagePoint>,
    pub pro_daily_usage: Vec<ModelDailyUsagePoint>,
    pub current_day_requests: i32,
    pub current_day_flash_tokens: i64,
    pub current_day_pro_tokens: i64,
}

impl DashboardUsage {
    /// The usage of a dashboard before anything was fetched.
    pub fn empty() -> (r: DashboardUsage)
        ensures
            r.flash_usage is None,
            r.pro_usage is None,
            r.flash_daily_usage@.len() == 0,
            r.pro_daily_usage@.len() == 0,
            r.current_day_requests == 0,
            r.current_day_flash_tokens == 0,
            r.current_day_pro_tokens == 0,
    {
        DashboardUsage {
            flash_usage: None,
            pro_usage: None,
            flash_daily_usage: Vec::new(),
            pro_daily_usage: Vec::new(),
            current_day_requests: 0,
            current_day_flash_tokens: 0,
            current_day_pro_tokens: 0,
        }
    }
}

} // verus!
