use vstd::prelude::*;

verus! {

/// The two MiMo model families that the dashboard tracks.
#[derive(Clone, Copy, Debug, PartialEq, Eq, Structural)]
pub enum MimoModel {
    Standard,
    Pro,
}

impl MimoModel {
    /// The model name shown to the user.
    pub fn display_name(&self) -> (r: &'static str)
        ensures
            r@ == (match self {
                MimoModel::Standard => "mimo-v2.5"@,
                MimoModel::Pro => "mimo-v2.5-pro"@,
            }),
    {
        match self {
            MimoModel::Standard => "mimo-v2.5",
            MimoModel::Pro => "mimo-v2.5-pro",
        }
    }

    /// A short label for compact views.
    pub fn short_name(&self) -> (r: &'static str)
        ensures
            r@ == (match self {
                MimoModel::Standard => "Standard"@,
                MimoModel::Pro => "Pro"@,
            }),
    {
        match self {
            MimoModel::Standard => "Standard",
            MimoModel::Pro => "Pro",
        }
    }
}

/// Reply of the balance endpoint.
pub struct MimoApiBalanceResponse {
    pub code: i32,
    pub data: Option<MimoBalanceData>,
}

/// Balances as decimal texts.
pub struct MimoBalanceData {
    pub balance: String,
    pub cash_balance: String,
    pub gift_balance: String,
    pub frozen_balance: String,
    pub currency: String,
}

/// Reply of the token-plan usage list endpoint.
pub struct MimoApiDetailListResponse {
    pub code: i32,
    pub message: Option<String>,
    pub data: Option<Vec<MimoTokenPlanItem>>,
}

/// One day's usage of one model under a token plan.
pub struct MimoTokenPlanItem {
    pub date: Option<String>,
    pub model: Option<String>,
    pub total_token: Option<i64>,
    pub input_hit_token: Option<i64>,
    pub input_miss_token: Option<i64>,
    pub output_token: Option<i64>,
    pub request_count: Option<i64>,
    pub input_audio_duration: Option<i64>,
}

/// Reply of the monthly bill endpoint.
pub struct MimoApiMonthlyBillResponse {
    pub code: i32,
    pub message: Option<String>,
    pub data: Option<Vec<MimoMonthBill>>,
}

/// The bill of one month (`report_month` is `YYYYMM`).
pub struct MimoMonthBill {
    pub report_month: Option<i64>,
    pub consumption_amount: Option<String>,
    pub gift_consumption: Option<String>,
    pub cash_consumption: Option<String>,
}

/// Reply of the pay-per-token usage list endpoint.
pub struct MimoApiTokenDetailListResponse {
    pub code: i32,
    pub message: Option<String>,
    pub data: Option<Vec<MimoTokenDetailItem>>,
}

/// One day's usage and cost of one model and API key when paying per token.
pub struct MimoTokenDetailItem {
    pub date: Option<String>,
    pub model: Option<String>,
    pub api_key: Option<String>,
    pub currency: Option<String>,
    pub consumed_amount: Option<String>,
    pub input_hit_amount: Option<String>,
    pub input_miss_amount: Option<String>,
    pub output_amount: Option<String>,
    pub total_token: Option<i64>,
    pub input_hit_token: Option<i64>,
    pub input_miss_token: Option<i64>,
    pub output_token: Option<i64>,
    pub request_count: Option<i64>,
    pub input_audio_duration: Option<i64>,
}

/// Monthly usage of one model family.
pub struct ModelUsageSummary {
    pub model: MimoModel,
    pub total_tokens: i64,
    pub cost_in_cents: i64,
    pub total_tokens_formatted: String,
    pub cost_formatted: String,
}

/// Usage of one model family on one day.
pub struct ModelDailyUsagePoint {
    pub date: String,
    pub label: String,
    pub total_tokens: i64,
    pub input_cache_hit_tokens: i64,
    pub input_cache_miss_tokens: i64,
    pub output_tokens: i64,
    pub request_count: i64,
    pub cost_in_cents: i64,
    pub input_audio_duration: i64,
}

} // verus!
