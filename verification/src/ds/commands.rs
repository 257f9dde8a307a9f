use vstd::prelude::*;
use crate::errors::{error_text, with_message, ErrorLog};
use crate::calendar::{effective_day, effective_day_text, parse_ymd, parsed_ymd, ymd_text, LocalDateTime};
use crate::ds::api::{
    error_message, ApiError,
    build_daily_from_platform, daily_labels_defined, first_match, first_model_index, format_number,
    is_pro_model, is_pro_name, kept_days, labels_defined, point_of_day,
};
use crate::ds::models::{
    DashboardUsage, DeepSeekModel, ModelDailyUsagePoint, ModelUsageSummary, PlatformAmountResponse,
    PlatformBizDataContent, PlatformDayData, PlatformModelData, PlatformUsageEntry,
    UserSummaryBizData, UserSummaryWallet,
};
use crate::numbers::{grouped_number, parse_i32, parse_i64};
use crate::text::{owned, parsed_i32, parsed_i64, str_eq};

use std::sync::atomic::AtomicBool;

verus! {

/// The `YYYY-MM-DD` day whose usage is "today": before 8 AM it is still the previous day.
pub fn effective_today(now: &LocalDateTime) -> (r: String)
    requires
        now.wf(),
    ensures
        r@ == today_text(*now),
{
    effective_day_text(now.year, now.month, now.day, now.hour, 8)
}

/// The text of the day whose usage is "today" at local time `now`.
pub open spec fn today_text(now: LocalDateTime) -> Seq<char> {
    let e = effective_day(now.year as int, now.month as int, now.day as int, now.hour as int, 8);
    ymd_text(e.0, e.1, e.2)
}

// ---------------------------------------------------------------------------
// Token and request sums
// ---------------------------------------------------------------------------

/// The token figures of a model: the amounts of its entries other than `REQUEST` that
/// parse as `i64`, summed from the first (wrapping like release builds).
pub open spec fn token_sum(usage: Seq<PlatformUsageEntry>) -> i64
    decreases usage.len(),
{
    if usage.len() == 0 {
        0
    } else {
        let rest = token_sum(usage.drop_last());
        let e = usage.last();
        if e.usage_type@ != "REQUEST"@ && parsed_i64(e.amount@) is Some {
            rest.wrapping_add(parsed_i64(e.amount@)->0)
        } else {
            rest
        }
    }
}

/// `acc` plus the `REQUEST` amounts of `usage` that parse as `i32`, in order (wrapping).
pub open spec fn request_fold(acc: i32, usage: Seq<PlatformUsageEntry>) -> i32
    decreases usage.len(),
{
    if usage.len() == 0 {
        acc
    } else {
        let rest = request_fold(acc, usage.drop_last());
        let e = usage.last();
        if e.usage_type@ == "REQUEST"@ && parsed_i32(e.amount@) is Some {
            rest.wrapping_add(parsed_i32(e.amount@)->0)
        } else {
            rest
        }
    }
}

/// The requests of all models of a day, summed in order (wrapping).
pub open spec fn day_requests(models: Seq<PlatformModelData>) -> i32
    decreases models.len(),
{
    if models.len() == 0 {
        0
    } else {
        request_fold(day_requests(models.drop_last()), models.last().usage@)
    }
}

/// The tokens of all Pro models, summed in order (wrapping).
pub open spec fn pro_tokens(models: Seq<PlatformModelData>) -> i64
    decreases models.len(),
{
    if models.len() == 0 {
        0
    } else {
        let rest = pro_tokens(models.drop_last());
        if is_pro_name(models.last().model@) {
            rest.wrapping_add(token_sum(models.last().usage@))
        } else {
            rest
        }
    }
}

/// The tokens of the last Pro model, if any.
pub open spec fn last_pro_tokens(models: Seq<PlatformModelData>) -> Option<i64>
    decreases models.len(),
{
    if models.len() == 0 {
        None
    } else if is_pro_name(models.last().model@) {
        Some(token_sum(models.last().usage@))
    } else {
        last_pro_tokens(models.drop_last())
    }
}

/// The tokens of the first Flash model, if any.
pub open spec fn flash_tokens(models: Seq<PlatformModelData>) -> Option<i64> {
    match first_match(models, false) {
        Some(k) => Some(token_sum(models[k].usage@)),
        None => None,
    }
}

/// The tokens of a model add up every entry that is not `REQUEST` and whose amount
/// parses: appending such an entry adds its amount; appending a `REQUEST` entry, or one
/// whose amount does not parse, adds nothing.
pub proof fn law_token_sum_counts_every_token_entry(u: Seq<PlatformUsageEntry>, e: PlatformUsageEntry)
    ensures
        e.usage_type@ != "REQUEST"@ && parsed_i64(e.amount@) is Some ==> token_sum(u.push(e))
            == token_sum(u).wrapping_add(parsed_i64(e.amount@)->0),
        e.usage_type@ == "REQUEST"@ || parsed_i64(e.amount@) is None ==> token_sum(u.push(e))
            == token_sum(u),
        token_sum(Seq::<PlatformUsageEntry>::empty()) == 0,
{
    assert(u.push(e).drop_last() == u);
    assert(u.push(e).last() == e);
}

/// The tokens of the model's non-`REQUEST` entries.
pub fn token_sum_of(usage: &Vec<PlatformUsageEntry>) -> (r: i64)
    ensures
        r == token_sum(usage@),
{
    let mut acc: i64 = 0;
    let mut j: usize = 0;
    while j < usage.len()
        invariant
            j <= usage.len(),
            acc == token_sum(usage@.take(j as int)),
        decreases usage.len() - j,
    {
        proof {
            assert(usage@.take(j + 1).drop_last() == usage@.take(j as int));
            assert(usage@.take(j + 1).last() == usage@[j as int]);
        }
        if !str_eq(usage[j].usage_type.as_str(), "REQUEST") {
            match parse_i64(usage[j].amount.as_str()) {
                Some(v) => {
                    acc = acc.wrapping_add(v);
                },
                None => {},
            }
        }
        j += 1;
    }
    proof {
        assert(usage@.take(usage.len() as int) == usage@);
    }
    acc
}

fn request_fold_of(acc: i32, usage: &Vec<PlatformUsageEntry>) -> (r: i32)
    ensures
        r == request_fold(acc, usage@),
{
    let mut total = acc;
    let mut j: usize = 0;
    while j < usage.len()
        invariant
            j <= usage.len(),
            total == request_fold(acc, usage@.take(j as int)),
        decreases usage.len() - j,
    {
        proof {
            assert(usage@.take(j + 1).drop_last() == usage@.take(j as int));
            assert(usage@.take(j + 1).last() == usage@[j as int]);
        }
        if str_eq(usage[j].usage_type.as_str(), "REQUEST") {
            match parse_i32(usage[j].amount.as_str()) {
                Some(v) => {
                    total = total.wrapping_add(v);
                },
                None => {},
            }
        }
        j += 1;
    }
    proof {
        assert(usage@.take(usage.len() as int) == usage@);
    }
    total
}

/// The requests of all models of a day.
pub fn day_requests_of(models: &Vec<PlatformModelData>) -> (r: i32)
    ensures
        r == day_requests(models@),
{
    let mut total: i32 = 0;
    let mut i: usize = 0;
    while i < models.len()
        invariant
            i <= models.len(),
            total == day_requests(models@.take(i as int)),
        decreases models.len() - i,
    {
        proof {
            assert(models@.take(i + 1).drop_last() == models@.take(i as int));
            assert(models@.take(i + 1).last() == models@[i as int]);
        }
        total = request_fold_of(total, &models[i].usage);
        i += 1;
    }
    proof {
        assert(models@.take(models.len() as int) == models@);
    }
    total
}

/// The tokens of all Pro models.
pub fn pro_tokens_of(models: &Vec<PlatformModelData>) -> (r: i64)
    ensures
        r == pro_tokens(models@),
{
    let mut total: i64 = 0;
    let mut i: usize = 0;
    while i < models.len()
        invariant
            i <= models.len(),
            total == pro_tokens(models@.take(i as int)),
        decreases models.len() - i,
    {
        proof {
            assert(models@.take(i + 1).drop_last() == models@.take(i as int));
            assert(models@.take(i + 1).last() == models@[i as int]);
        }
        let t = token_sum_of(&models[i].usage);
        if is_pro_model(models[i].model.as_str()) {
            total = total.wrapping_add(t);
        }
        i += 1;
    }
    proof {
        assert(models@.take(models.len() as int) == models@);
    }
    total
}

/// The tokens of the last Pro model, if any.
pub fn last_pro_tokens_of(models: &Vec<PlatformModelData>) -> (r: Option<i64>)
    ensures
        r == last_pro_tokens(models@),
{
    let mut found: Option<i64> = None;
    let mut i: usize = 0;
    while i < models.len()
        invariant
            i <= models.len(),
            found == last_pro_tokens(models@.take(i as int)),
        decreases models.len() - i,
    {
        proof {
            assert(models@.take(i + 1).drop_last() == models@.take(i as int));
            assert(models@.take(i + 1).last() == models@[i as int]);
        }
        if is_pro_model(models[i].model.as_str()) {
            found = Some(token_sum_of(&models[i].usage));
        }
        i += 1;
    }
    proof {
        assert(models@.take(models.len() as int) == models@);
    }
    found
}

/// The tokens of the first Flash model, if any.
pub fn flash_tokens_of(models: &Vec<PlatformModelData>) -> (r: Option<i64>)
    ensures
        r == flash_tokens(models@),
{
    match first_model_index(models, false) {
        Some(k) => Some(token_sum_of(&models[k].usage)),
        None => None,
    }
}


// ---------------------------------------------------------------------------
// Applying the month's token amounts
// ---------------------------------------------------------------------------

/// `d` is the first day dated `today`.
pub open spec fn is_first_day(days: Seq<PlatformDayData>, today: Seq<char>, d: int) -> bool {
    &&& 0 <= d < days.len()
    &&& days[d].date@ == today
    &&& forall|j: int| 0 <= j < d ==> (#[trigger] days[j]).date@ != today
}

pub open spec fn first_day(days: Seq<PlatformDayData>, today: Seq<char>) -> Option<int> {
    if exists|d: int| is_first_day(days, today, d) {
        Some(choose|d: int| is_first_day(days, today, d))
    } else {
        None
    }
}

proof fn lemma_first_day_unique(days: Seq<PlatformDayData>, today: Seq<char>, d: int)
    requires
        is_first_day(days, today, d),
    ensures
        first_day(days, today) == Some(d),
{
    let c = choose|d: int| is_first_day(days, today, d);
    assert(is_first_day(days, today, c));
    if c < d {
        assert(days[c].date@ != today);
    } else if d < c {
        assert(days[d].date@ != today);
    }
}

/// The position of the first day dated `today`.
pub fn find_day(days: &Vec<PlatformDayData>, today: &str) -> (r: Option<usize>)
    ensures
        r matches Some(d) ==> first_day(days@, today@) == Some(d as int),
        r is None ==> first_day(days@, today@) is None,
{
    let mut i: usize = 0;
    while i < days.len()
        invariant
            i <= days.len(),
            forall|j: int| 0 <= j < i ==> (#[trigger] days@[j]).date@ != today@,
        decreases days.len() - i,
    {
        if str_eq(days[i].date.as_str(), today) {
            proof {
                lemma_first_day_unique(days@, today@, i as int);
            }
            return Some(i);
        }
        i += 1;
    }
    proof {
        if exists|d: int| is_first_day(days@, today@, d) {
            let d = choose|d: int| is_first_day(days@, today@, d);
            assert(days@[d].date@ != today@);
        }
    }
    None
}

/// `s` is the month summary of a family with `tokens` tokens, before costs are known.
pub open spec fn month_summary(s: Option<ModelUsageSummary>, model: DeepSeekModel, tokens: i64) -> bool {
    &&& s matches Some(u)
    &&& u.model == model
    &&& u.total_tokens == tokens as i32
    &&& u.cost_in_cents == 0
    &&& u.total_tokens_formatted@ == grouped_number((tokens as i32) as int)
    &&& u.cost_formatted@ == "¥0.00"@
}

/// `points` is the daily usage of a family over `days`.
pub open spec fn daily_usage_of(points: Seq<ModelDailyUsagePoint>, days: Seq<PlatformDayData>, pro: bool) -> bool {
    &&& points.len() == kept_days(days, pro).len()
    &&& forall|k: int| 0 <= k < points.len() ==> point_of_day(#[trigger] points[k], kept_days(days, pro)[k], pro)
}

/// The amount reply carries month data whose daily labels can be cut out.
pub open spec fn amount_labels_defined(amount: PlatformAmountResponse) -> bool {
    match amount.data {
        Some(inner) => match inner.biz_data {
            Some(b) => labels_defined(b.days@, false) && labels_defined(b.days@, true),
            None => true,
        },
        None => true,
    }
}

/// `new` is `old` with the month's token amounts applied.
pub open spec fn amount_applied(
    old: DashboardUsage,
    new: DashboardUsage,
    amount: PlatformAmountResponse,
    today: Seq<char>,
) -> bool {
    match amount.data {
        Some(inner) => match inner.biz_data {
            Some(biz) => month_data_applied(old, new, biz, today),
            None => new == old,
        },
        None => new == old,
    }
}

/// `new` is `old` with the month totals and days of `biz` applied.
pub open spec fn month_data_applied(
    old: DashboardUsage,
    new: DashboardUsage,
    biz: PlatformBizDataContent,
    today: Seq<char>,
) -> bool {
    let month_flash = match flash_tokens(biz.total@) {
        Some(t) => t,
        None => 0,
    };
    let month_pro = pro_tokens(biz.total@);
    &&& if month_flash > 0 {
        month_summary(new.flash_usage, DeepSeekModel::Flash, month_flash)
    } else {
        new.flash_usage == old.flash_usage
    }
    &&& if month_pro > 0 {
        month_summary(new.pro_usage, DeepSeekModel::Pro, month_pro)
    } else {
        new.pro_usage == old.pro_usage
    }
    &&& match first_day(biz.days@, today) {
        Some(d) => {
            let models = biz.days@[d].data@;
            &&& new.current_day_pro_tokens == match last_pro_tokens(models) {
                Some(t) => t,
                None => old.current_day_pro_tokens,
            }
            &&& new.current_day_flash_tokens == match flash_tokens(models) {
                Some(t) => t,
                None => old.current_day_flash_tokens,
            }
            &&& new.current_day_requests == day_requests(models)
        },
        None => {
            &&& new.current_day_pro_tokens == old.current_day_pro_tokens
            &&& new.current_day_flash_tokens == old.current_day_flash_tokens
            &&& new.current_day_requests == old.current_day_requests
        },
    }
    &&& daily_usage_of(new.flash_daily_usage@, biz.days@, false)
    &&& daily_usage_of(new.pro_daily_usage@, biz.days@, true)
}

fn month_summary_of(model: DeepSeekModel, tokens: i64) -> (r: ModelUsageSummary)
    ensures
        month_summary(Some(r), model, tokens),
{
    let t = tokens as i32;
    ModelUsageSummary {
        model,
        total_tokens: t,
        cost_in_cents: 0,
        total_tokens_formatted: format_number(t),
        cost_formatted: owned("¥0.00"),
    }
}

/// Applies the month's token amounts: the month summaries of both families, today's
/// tokens and requests, and the daily usage of both families.
pub fn apply_platform_amount(data: DashboardUsage, amount: &PlatformAmountResponse, now: &LocalDateTime) -> (r:
    DashboardUsage)
    requires
        now.wf(),
        amount_labels_defined(*amount),
    ensures
        amount_applied(data, r, *amount, today_text(*now)),
{
    let today = effective_today(now);
    let mut data = data;
    let ghost old_data = data;
    match &amount.data {
        Some(inner) => match &inner.biz_data {
            Some(biz) => {
                let month_pro = pro_tokens_of(&biz.total);
                let month_flash = match flash_tokens_of(&biz.total) {
                    Some(t) => t,
                    None => 0,
                };
                if month_flash > 0 {
                    data.flash_usage = Some(month_summary_of(DeepSeekModel::Flash, month_flash));
                }
                if month_pro > 0 {
                    data.pro_usage = Some(month_summary_of(DeepSeekModel::Pro, month_pro));
                }
                match find_day(&biz.days, today.as_str()) {
                    Some(d) => {
                        let models = &biz.days[d].data;
                        match last_pro_tokens_of(models) {
                            Some(t) => {
                                data.current_day_pro_tokens = t;
                            },
                            None => {},
                        }
                        match flash_tokens_of(models) {
                            Some(t) => {
                                data.current_day_flash_tokens = t;
                            },
                            None => {},
                        }
                        data.current_day_requests = day_requests_of(models);
                    },
                    None => {},
                }
                data.flash_daily_usage = build_daily_from_platform(&biz.days, false);
                data.pro_daily_usage = build_daily_from_platform(&biz.days, true);
            },
            None => {},
        },
        None => {},
    }
    data
}


/// Whether the amount reply's daily labels can all be cut out.
pub fn amount_labels_are_defined(amount: &PlatformAmountResponse) -> (r: bool)
    ensures
        r == amount_labels_defined(*amount),
{
    match &amount.data {
        Some(inner) => match &inner.biz_data {
            Some(b) => daily_labels_defined(&b.days, false) && daily_labels_defined(&b.days, true),
            None => true,
        },
        None => true,
    }
}

// ---------------------------------------------------------------------------
// Which cost days count
// ---------------------------------------------------------------------------

/// Whether a day of the cost reply counts as today, and as a day of the month
/// `year`/`month` (its date read as `YYYY-MM-DD`; a date that does not parse counts for
/// no month).
pub open spec fn cost_day_counts(date: Seq<char>, today: Seq<char>, year: int, month: int) -> (bool, bool) {
    (
        date == today,
        match parsed_ymd(date) {
            Some(t) => t.0 == year && t.1 == month,
            None => false,
        },
    )
}

/// Whether a cost day counts as today and as a day of the month `year`/`month`.
pub fn cost_day(date: &str, today: &str, year: i32, month: u32) -> (r: (bool, bool))
    ensures
        r == cost_day_counts(date@, today@, year as int, month as int),
{
    let is_today = str_eq(date, today);
    let in_month = match parse_ymd(date) {
        Some((y, m, _d)) => y == year && m == month,
        None => false,
    };
    (is_today, in_month)
}

// ---------------------------------------------------------------------------
// Daily costs
// ---------------------------------------------------------------------------

/// The cost recorded last for `date`, if any.
pub open spec fn last_cost_for(costs: Seq<(String, i32)>, date: Seq<char>) -> Option<i32>
    decreases costs.len(),
{
    if costs.len() == 0 {
        None
    } else if costs.last().0@ == date {
        Some(costs.last().1)
    } else {
        last_cost_for(costs.drop_last(), date)
    }
}

/// `p` is `q` with its cost taken from `costs` when `costs` has one for its date.
pub open spec fn cost_enriched(q: ModelDailyUsagePoint, p: ModelDailyUsagePoint, costs: Seq<(String, i32)>) -> bool {
    &&& p.date@ == q.date@
    &&& p.label@ == q.label@
    &&& p.total_tokens == q.total_tokens
    &&& p.input_cache_hit_tokens == q.input_cache_hit_tokens
    &&& p.input_cache_miss_tokens == q.input_cache_miss_tokens
    &&& p.output_tokens == q.output_tokens
    &&& p.request_count == q.request_count
    &&& p.cost_in_cents == match last_cost_for(costs, q.date@) {
        Some(c) => c,
        None => q.cost_in_cents,
    }
}

/// The cost recorded last for `date`, if any.
pub fn last_cost_of(costs: &Vec<(String, i32)>, date: &str) -> (r: Option<i32>)
    ensures
        r == last_cost_for(costs@, date@),
{
    let mut found: Option<i32> = None;
    let mut i: usize = 0;
    while i < costs.len()
        invariant
            i <= costs.len(),
            found == last_cost_for(costs@.take(i as int), date@),
        decreases costs.len() - i,
    {
        proof {
            assert(costs@.take(i + 1).drop_last() == costs@.take(i as int));
            assert(costs@.take(i + 1).last() == costs@[i as int]);
        }
        if str_eq(costs[i].0.as_str(), date) {
            found = Some(costs[i].1);
        }
        i += 1;
    }
    proof {
        assert(costs@.take(costs.len() as int) == costs@);
    }
    found
}

/// Sets the cost of each daily point whose date has a cost (in cents) in `costs`,
/// where a later entry for a date replaces an earlier one.
pub fn enrich_daily_costs(points: &Vec<ModelDailyUsagePoint>, costs: &Vec<(String, i32)>) -> (r: Vec<
    ModelDailyUsagePoint,
>)
    ensures
        r@.len() == points@.len(),
        forall|k: int| 0 <= k < r@.len() ==> cost_enriched(points@[k], #[trigger] r@[k], costs@),
{
    let mut r: Vec<ModelDailyUsagePoint> = Vec::new();
    let mut k: usize = 0;
    while k < points.len()
        invariant
            k <= points.len(),
            r@.len() == k,
            forall|j: int| 0 <= j < k ==> cost_enriched(points@[j], #[trigger] r@[j], costs@),
        decreases points.len() - k,
    {
        let q = &points[k];
        let cost = match last_cost_of(costs, q.date.as_str()) {
            Some(c) => c,
            None => q.cost_in_cents,
        };
        r.push(
            ModelDailyUsagePoint {
                date: q.date.clone(),
                label: q.label.clone(),
                total_tokens: q.total_tokens,
                input_cache_hit_tokens: q.input_cache_hit_tokens,
                input_cache_miss_tokens: q.input_cache_miss_tokens,
                output_tokens: q.output_tokens,
                request_count: q.request_count,
                cost_in_cents: cost,
            },
        );
        k += 1;
    }
    r
}

// ---------------------------------------------------------------------------
// Today's tokens from the daily usage
// ---------------------------------------------------------------------------

/// The position of the first point dated `today`.
pub open spec fn first_point(points: Seq<ModelDailyUsagePoint>, today: Seq<char>) -> Option<int> {
    if exists|k: int| is_first_point(points, today, k) {
        Some(choose|k: int| is_first_point(points, today, k))
    } else {
        None
    }
}

pub open spec fn is_first_point(points: Seq<ModelDailyUsagePoint>, today: Seq<char>, k: int) -> bool {
    &&& 0 <= k < points.len()
    &&& points[k].date@ == today
    &&& forall|j: int| 0 <= j < k ==> (#[trigger] points[j]).date@ != today
}

/// Today's tokens of a family: kept when already known (non-zero), else taken from the
/// first daily point dated today.
pub open spec fn today_tokens(current: i64, points: Seq<ModelDailyUsagePoint>, today: Seq<char>) -> i64 {
    if current != 0 {
        current
    } else {
        match first_point(points, today) {
            Some(k) => points[k].total_tokens as i64,
            None => current,
        }
    }
}

fn first_point_of(points: &Vec<ModelDailyUsagePoint>, today: &str) -> (r: Option<usize>)
    ensures
        r matches Some(k) ==> first_point(points@, today@) == Some(k as int),
        r is None ==> first_point(points@, today@) is None,
{
    let mut i: usize = 0;
    while i < points.len()
        invariant
            i <= points.len(),
            forall|j: int| 0 <= j < i ==> (#[trigger] points@[j]).date@ != today@,
        decreases points.len() - i,
    {
        if str_eq(points[i].date.as_str(), today) {
            proof {
                let c = choose|k: int| is_first_point(points@, today@, k);
                assert(is_first_point(points@, today@, i as int));
                if c < i {
                    assert(points@[c].date@ != today@);
                } else if c > i {
                    assert(points@[i as int].date@ != today@);
                }
            }
            return Some(i);
        }
        i += 1;
    }
    proof {
        if exists|k: int| is_first_point(points@, today@, k) {
            let c = choose|k: int| is_first_point(points@, today@, k);
            assert(points@[c].date@ != today@);
        }
    }
    None
}

/// Fills in today's tokens of each family from its daily usage when they are still 0.
pub fn fill_today_tokens(usage: DashboardUsage, today: &str) -> (r: DashboardUsage)
    ensures
        r.current_day_pro_tokens == today_tokens(usage.current_day_pro_tokens, usage.pro_daily_usage@, today@),
        r.current_day_flash_tokens == today_tokens(
            usage.current_day_flash_tokens,
            usage.flash_daily_usage@,
            today@,
        ),
        r.flash_usage == usage.flash_usage,
        r.pro_usage == usage.pro_usage,
        r.flash_daily_usage == usage.flash_daily_usage,
        r.pro_daily_usage == usage.pro_daily_usage,
        r.current_day_requests == usage.current_day_requests,
{
    let mut usage = usage;
    if usage.current_day_pro_tokens == 0 {
        match first_point_of(&usage.pro_daily_usage, today) {
            Some(k) => {
                usage.current_day_pro_tokens = usage.pro_daily_usage[k].total_tokens as i64;
            },
            None => {},
        }
    }
    if usage.current_day_flash_tokens == 0 {
        match first_point_of(&usage.flash_daily_usage, today) {
            Some(k) => {
                usage.current_day_flash_tokens = usage.flash_daily_usage[k].total_tokens as i64;
            },
            None => {},
        }
    }
    usage
}


// ---------------------------------------------------------------------------
// The steps of a refresh
// ---------------------------------------------------------------------------

/// Errors after which the saved platform session is dropped: an expired login, or no
/// connection to the platform.
pub open spec fn loses_session(e: ApiError) -> bool {
    e matches ApiError::PlatformUnauthorized || e matches ApiError::NetworkError(_)
}

/// Only an expired platform login or a network failure drops the session; every other
/// error keeps it.
pub proof fn law_only_login_and_network_lose_session(e: ApiError, m: String)
    ensures
        !(e is PlatformUnauthorized) && !(e is NetworkError) ==> !loses_session(e),
        loses_session(ApiError::PlatformUnauthorized),
        loses_session(ApiError::NetworkError(m)),
        !loses_session(ApiError::RateLimited),
{
}

/// Whether an error drops the saved platform session.
pub fn error_loses_session(e: &ApiError) -> (r: bool)
    ensures
        r == loses_session(*e),
{
    match e {
        ApiError::PlatformUnauthorized => true,
        ApiError::NetworkError(_) => true,
        _ => false,
    }
}

/// The message of an expired platform login.
pub open spec fn unauthorized_message() -> Seq<char> {
    error_message(ApiError::PlatformUnauthorized)
}

/// What a refresh does next.
#[derive(PartialEq, Eq, Structural)]
pub enum DsRefreshStep {
    /// Fetch the user summary (balance) with the saved token.
    FetchSummary,
    /// Fetch the month's cost and token amounts with the saved token.
    FetchUsage,
    /// Nothing more to fetch.
    Finish,
}

/// The decisions of one dashboard refresh: which requests are made, which errors are
/// reported and whether the platform session survives.
pub struct DsRefresh {
    pub has_token: bool,
    pub session_valid: bool,
    pub errors: ErrorLog,
    pub step: DsRefreshStep,
}

impl DsRefresh {
    /// Starts a refresh; with a saved token the user summary is fetched first.
    pub fn start(has_token: bool) -> (r: DsRefresh)
        ensures
            r.has_token == has_token,
            r.session_valid == has_token,
            r.errors@ == Seq::<Seq<char>>::empty(),
            r.step == if has_token {
                DsRefreshStep::FetchSummary
            } else {
                DsRefreshStep::Finish
            },
    {
        DsRefresh {
            has_token,
            session_valid: has_token,
            errors: ErrorLog::new(),
            step: if has_token {
                DsRefreshStep::FetchSummary
            } else {
                DsRefreshStep::Finish
            },
        }
    }

    /// Takes the outcome of the user summary request (`None` when it succeeded); returns
    /// whether the saved platform session is to be dropped.
    pub fn on_summary(&mut self, failure: Option<&ApiError>) -> (drop_session: bool)
        requires
            old(self).step == DsRefreshStep::FetchSummary,
        ensures
            final(self).has_token == old(self).has_token,
            match failure {
                None => {
                    &&& !drop_session
                    &&& final(self).step == DsRefreshStep::FetchUsage
                    &&& final(self).errors@ == old(self).errors@
                    &&& final(self).session_valid == old(self).session_valid
                },
                Some(e) => {
                    let logged = with_message(old(self).errors@, error_message(*e));
                    if loses_session(*e) {
                        &&& drop_session
                        &&& final(self).step == DsRefreshStep::Finish
                        &&& final(self).errors@ == with_message(logged, unauthorized_message())
                        &&& !final(self).session_valid
                    } else {
                        &&& !drop_session
                        &&& final(self).step == DsRefreshStep::FetchUsage
                        &&& final(self).errors@ == logged
                        &&& final(self).session_valid == old(self).session_valid
                    }
                },
            },
    {
        match failure {
            None => {
                self.step = DsRefreshStep::FetchUsage;
                false
            },
            Some(e) => {
                self.errors.record(e.to_string());
                if error_loses_session(e) {
                    self.errors.record(ApiError::PlatformUnauthorized.to_string());
                    self.session_valid = false;
                    self.step = DsRefreshStep::Finish;
                    true
                } else {
                    self.step = DsRefreshStep::FetchUsage;
                    false
                }
            },
        }
    }

    /// Takes the outcomes of the cost and amount requests (`None` for a success);
    /// returns whether the saved platform session is to be dropped. Other failures of
    /// these requests are not reported.
    pub fn on_usage(&mut self, cost_failure: Option<&ApiError>, amount_failure: Option<&ApiError>) -> (drop_session: bool)
        requires
            old(self).step == DsRefreshStep::FetchUsage,
        ensures
            final(self).has_token == old(self).has_token,
            final(self).step == DsRefreshStep::Finish,
            drop_session == ((cost_failure matches Some(e) && loses_session(*e)) || (
            amount_failure matches Some(e) && loses_session(*e))),
            drop_session ==> final(self).errors@ == with_message(old(self).errors@, unauthorized_message())
                && !final(self).session_valid,
            !drop_session ==> final(self).errors@ == old(self).errors@ && final(self).session_valid
                == old(self).session_valid,
    {
        let cost_lost = match cost_failure {
            Some(e) => error_loses_session(e),
            None => false,
        };
        let amount_lost = match amount_failure {
            Some(e) => error_loses_session(e),
            None => false,
        };
        self.step = DsRefreshStep::Finish;
        if cost_lost || amount_lost {
            self.errors.record(ApiError::PlatformUnauthorized.to_string());
            self.session_valid = false;
            true
        } else {
            false
        }
    }

    /// Ends the refresh: a token saved on disk without one in memory means that another
    /// window dropped an expired login. Returns the error text and whether the platform
    /// session is still valid.
    pub fn finish(self, saved_token_on_disk: bool) -> (r: (Option<String>, bool))
        requires
            self.step == DsRefreshStep::Finish,
        ensures
            ({
                let errs = if !self.has_token && saved_token_on_disk {
                    with_message(self.errors@, unauthorized_message())
                } else {
                    self.errors@
                };
                &&& r.0 is Some == error_text(errs, unauthorized_message()) is Some
                &&& r.0 matches Some(t) ==> t@ == error_text(errs, unauthorized_message())->0
            }),
            r.1 == self.session_valid,
    {
        let mut errors = self.errors;
        let unauth = ApiError::PlatformUnauthorized.to_string();
        if !self.has_token && saved_token_on_disk {
            errors.record(ApiError::PlatformUnauthorized.to_string());
        }
        (errors.error_text(unauth.as_str()), self.session_valid)
    }
}


/// The balance text of the first wallet, or `"0"` when there is none.
pub open spec fn first_balance(wallets: Seq<UserSummaryWallet>) -> Seq<char> {
    if wallets.len() > 0 {
        wallets[0].balance@
    } else {
        "0"@
    }
}

/// The balances (as text) of the first normal (topped-up) wallet and the first bonus
/// (granted) wallet.
pub fn wallet_balances(biz: &UserSummaryBizData) -> (r: (String, String))
    ensures
        r.0@ == first_balance(biz.normal_wallets@),
        r.1@ == first_balance(biz.bonus_wallets@),
{
    let normal = if biz.normal_wallets.len() > 0 {
        owned(biz.normal_wallets[0].balance.as_str())
    } else {
        owned("0")
    };
    let bonus = if biz.bonus_wallets.len() > 0 {
        owned(biz.bonus_wallets[0].balance.as_str())
    } else {
        owned("0")
    };
    (normal, bonus)
}

// ---------------------------------------------------------------------------
// The mark of a refresh in progress
// ---------------------------------------------------------------------------

/// Holds the mark that a DeepSeek refresh is in progress; `finish` clears it.
pub struct RefreshGuard<'a> {
    flag: &'a AtomicBool,
}

impl<'a> RefreshGuard<'a> {
    /// The mark this guard clears.
    pub closed spec fn flag(&self) -> &'a AtomicBool {
        self.flag
    }

    /// A guard of the mark `flag`, which the caller has just set.
    pub fn new(flag: &'a AtomicBool) -> (r: Self)
        ensures
            r.flag() == flag,
    {
        RefreshGuard { flag }
    }

    /// Clears the mark: the refresh is over.
    pub fn finish(&self) {
        self.flag.store(false, std::sync::atomic::Ordering::Release);
    }
}

} // verus!
