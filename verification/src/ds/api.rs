use vstd::prelude::*;
use vstd::string::StringSliceAdditionalSpecFns;
use vstd::utf8::{encode_utf8, is_char_boundary};
use crate::ds::models::{ModelDailyUsagePoint, PlatformDayData, PlatformModelData, PlatformUsageEntry};
use crate::numbers::{grouped_number, grouped_number_string, parse_i32, push_decimal};
use crate::text::{
    contains_str, contains_text, decimal_digits, lowercase_text, parsed_i32, push_str,
    str_eq, to_lowercase,
};

verus! {

/// Failures of the DeepSeek platform requests.
pub enum ApiError {
    Unauthorized,
    RateLimited,
    ServerError(u16),
    HttpError(u16),
    NetworkError(String),
    DecodingError(String),
    InvalidResponse,
    PlatformError(u16, String),
    PlatformUnauthorized,
}

/// The message shown to the user for an error.
pub open spec fn error_message(e: ApiError) -> Seq<char> {
    match e {
        ApiError::Unauthorized => "认证无效或已过期，请重新登录"@,
        ApiError::RateLimited => "请求过于频繁，请稍后重试"@,
        ApiError::ServerError(c) => "服务器错误 ("@ + decimal_digits(c as nat) + ")"@,
        ApiError::HttpError(c) => "HTTP 错误 ("@ + decimal_digits(c as nat) + ")"@,
        ApiError::NetworkError(_) => "网络连接失败，请检查网络设置"@,
        ApiError::DecodingError(m) => "数据解析错误: "@ + m@,
        ApiError::InvalidResponse => "服务器返回无效响应"@,
        ApiError::PlatformError(c, m) => "平台API HTTP "@ + decimal_digits(c as nat) + ": "@ + m@,
        ApiError::PlatformUnauthorized => "登录无效或已过期，请重新登录"@,
    }
}

impl ApiError {
    /// The message shown to the user for this error.
    pub fn to_string(&self) -> (r: String)
        ensures
            r@ == error_message(*self),
    {
        let mut r = String::new();
        match self {
            ApiError::Unauthorized => push_str(&mut r, "认证无效或已过期，请重新登录"),
            ApiError::RateLimited => push_str(&mut r, "请求过于频繁，请稍后重试"),
            ApiError::ServerError(c) => {
                push_str(&mut r, "服务器错误 (");
                push_decimal(&mut r, *c as u64);
                push_str(&mut r, ")");
            },
            ApiError::HttpError(c) => {
                push_str(&mut r, "HTTP 错误 (");
                push_decimal(&mut r, *c as u64);
                push_str(&mut r, ")");
            },
            ApiError::NetworkError(_) => push_str(&mut r, "网络连接失败，请检查网络设置"),
            ApiError::DecodingError(m) => {
                push_str(&mut r, "数据解析错误: ");
                push_str(&mut r, m.as_str());
            },
            ApiError::InvalidResponse => push_str(&mut r, "服务器返回无效响应"),
            ApiError::PlatformError(c, m) => {
                push_str(&mut r, "平台API HTTP ");
                push_decimal(&mut r, *c as u64);
                push_str(&mut r, ": ");
                push_str(&mut r, m.as_str());
            },
            ApiError::PlatformUnauthorized => push_str(&mut r, "登录无效或已过期，请重新登录"),
        }
        r
    }
}

} // verus!

verus! {

// ---------------------------------------------------------------------------
// HTTP replies
// ---------------------------------------------------------------------------

/// `StatusCode::is_success`.
pub open spec fn is_success_status(status: u16) -> bool {
    200 <= status <= 299
}

/// The first 500 bytes of a reply body can be cut out without splitting a character.
pub open spec fn short_body_defined(body: &str) -> bool {
    body.spec_bytes().len() <= 500 || is_char_boundary(body.spec_bytes(), 500)
}

/// At most the first 500 bytes of a reply body.
pub open spec fn short_body(body: Seq<char>) -> Seq<char> {
    if encode_utf8(body).len() > 500 {
        vstd::utf8::decode_utf8(encode_utf8(body).subrange(0, 500))
    } else {
        body
    }
}

/// The outcome of a platform reply's status line: `Ok` for a success status, else the
/// error that the platform request reports.
pub open spec fn status_outcome(status: u16, body: Seq<char>, r: Result<(), ApiError>) -> bool {
    if is_success_status(status) {
        r is Ok
    } else if status == 401 || status == 403 {
        r matches Err(ApiError::PlatformUnauthorized)
    } else {
        r matches Err(ApiError::PlatformError(c, m)) && c == status && m@ == short_body(body)
    }
}

/// Checks the status of a platform reply.
pub fn check_platform_status(status: u16, body: &str) -> (r: Result<(), ApiError>)
    requires
        is_success_status(status) || short_body_defined(body),
    ensures
        status_outcome(status, body@, r),
{
    broadcast use vstd::utf8::group_utf8_lib;

    if 200 <= status && status <= 299 {
        return Ok(());
    }
    let short = if body.as_bytes().len() > 500 {
        let (head, _) = body.split_at(500);
        let h = crate::text::owned(head);
        proof {
            assert(head.spec_bytes() == encode_utf8(head@));
            assert(encode_utf8(head@) == encode_utf8(body@).subrange(0, 500));
            assert(vstd::utf8::decode_utf8(encode_utf8(head@)) == head@);
            assert(h@ == short_body(body@));
        }
        h
    } else {
        let h = crate::text::owned(body);
        assert(h@ == short_body(body@));
        h
    };
    assert(short@ == short_body(body@));
    if status == 401 || status == 403 {
        return Err(ApiError::PlatformUnauthorized);
    }
    Err(ApiError::PlatformError(status, short))
}

/// A platform reply whose `code` is not 0 means that the session is no longer accepted.
pub fn check_response_code(code: i32) -> (r: Result<(), ApiError>)
    ensures
        code == 0 ==> r is Ok,
        code != 0 ==> r matches Err(ApiError::PlatformUnauthorized),
{
    if code != 0 {
        Err(ApiError::PlatformUnauthorized)
    } else {
        Ok(())
    }
}

// ---------------------------------------------------------------------------
// Model families
// ---------------------------------------------------------------------------

/// A lowercased model name that names a Pro model.
pub open spec fn pro_marker(lower: Seq<char>) -> bool {
    contains_text(lower, "pro"@) || contains_text(lower, "reasoner"@)
}

/// A lowercased model name that names a Flash model.
pub open spec fn flash_marker(lower: Seq<char>) -> bool {
    contains_text(lower, "flash"@) || contains_text(lower, "chat"@)
}

pub open spec fn is_pro_name(name: Seq<char>) -> bool {
    pro_marker(lowercase_text(name))
}

pub open spec fn is_flash_name(name: Seq<char>) -> bool {
    flash_marker(lowercase_text(name))
}

/// Whether an already lowercased model name names a Pro model.
pub fn has_pro_marker(lower: &str) -> (r: bool)
    ensures
        r == pro_marker(lower@),
{
    contains_str(lower, "pro") || contains_str(lower, "reasoner")
}

/// Whether an already lowercased model name names a Flash model.
pub fn has_flash_marker(lower: &str) -> (r: bool)
    ensures
        r == flash_marker(lower@),
{
    contains_str(lower, "flash") || contains_str(lower, "chat")
}

/// Whether a model name (in any case) names a Pro model.
pub fn is_pro_model(model: &str) -> (r: bool)
    ensures
        r == is_pro_name(model@),
{
    let lower = to_lowercase(model);
    has_pro_marker(lower.as_str())
}

/// Whether a model name (in any case) names a Flash model.
pub fn is_flash_model(model: &str) -> (r: bool)
    ensures
        r == is_flash_name(model@),
{
    let lower = to_lowercase(model);
    has_flash_marker(lower.as_str())
}

pub open spec fn model_matches(m: PlatformModelData, pro: bool) -> bool {
    if pro {
        is_pro_name(m.model@)
    } else {
        is_flash_name(m.model@)
    }
}

/// `k` is the first model of the family in `models`.
pub open spec fn is_first_match(models: Seq<PlatformModelData>, pro: bool, k: int) -> bool {
    &&& 0 <= k < models.len()
    &&& model_matches(models[k], pro)
    &&& forall|j: int| 0 <= j < k ==> !model_matches(#[trigger] models[j], pro)
}

/// The position of the first model of the family, if any.
pub open spec fn first_match(models: Seq<PlatformModelData>, pro: bool) -> Option<int> {
    if exists|k: int| is_first_match(models, pro, k) {
        Some(choose|k: int| is_first_match(models, pro, k))
    } else {
        None
    }
}

pub proof fn lemma_first_match_unique(models: Seq<PlatformModelData>, pro: bool, k: int)
    requires
        is_first_match(models, pro, k),
    ensures
        first_match(models, pro) == Some(k),
{
    let c = choose|k: int| is_first_match(models, pro, k);
    assert(is_first_match(models, pro, c));
    if c < k {
        assert(!model_matches(models[c], pro));
    } else if k < c {
        assert(!model_matches(models[k], pro));
    }
}

/// The position of the first model of the family (Pro when `pro`, else Flash).
pub fn first_model_index(models: &Vec<PlatformModelData>, pro: bool) -> (r: Option<usize>)
    ensures
        r matches Some(k) ==> first_match(models@, pro) == Some(k as int),
        r is None ==> first_match(models@, pro) is None,
{
    let mut i: usize = 0;
    while i < models.len()
        invariant
            i <= models.len(),
            forall|j: int| 0 <= j < i ==> !model_matches(#[trigger] models@[j], pro),
        decreases models.len() - i,
    {
        let hit = if pro {
            is_pro_model(models[i].model.as_str())
        } else {
            is_flash_model(models[i].model.as_str())
        };
        if hit {
            proof {
                lemma_first_match_unique(models@, pro, i as int);
            }
            return Some(i);
        }
        i += 1;
    }
    proof {
        if exists|k: int| is_first_match(models@, pro, k) {
            let k = choose|k: int| is_first_match(models@, pro, k);
            assert(!model_matches(models@[k], pro));
        }
    }
    None
}

/// The first Flash model ("flash" or "chat" in its name).
pub fn find_flash_model(models: &Vec<PlatformModelData>) -> (r: Option<&PlatformModelData>)
    ensures
        r is Some == first_match(models@, false) is Some,
        r matches Some(m) ==> *m == models@[first_match(models@, false)->0],
{
    match first_model_index(models, false) {
        Some(k) => Some(&models[k]),
        None => None,
    }
}

// ---------------------------------------------------------------------------
// Number and date labels
// ---------------------------------------------------------------------------

/// An integer with thousands separators, e.g. `1,234,567`.
pub fn format_number(n: i32) -> (r: String)
    ensures
        r@ == grouped_number(n as int),
{
    grouped_number_string(n as i64)
}

/// A date label can be cut from bytes 5 to 10 without splitting a character.
pub open spec fn date_short_defined(date: Seq<char>) -> bool {
    encode_utf8(date).len() >= 10 ==> is_char_boundary(encode_utf8(date), 5) && is_char_boundary(
        encode_utf8(date),
        10,
    )
}

/// The `MM-DD` part of a `YYYY-MM-DD` date: bytes 5 to 10, or the whole text when shorter.
pub open spec fn short_date(date: Seq<char>) -> Seq<char> {
    if encode_utf8(date).len() >= 10 {
        vstd::utf8::decode_utf8(encode_utf8(date).subrange(5, 10))
    } else {
        date
    }
}

/// The `MM-DD` label of a `YYYY-MM-DD` date.
pub fn format_date_short(date_str: &str) -> (r: String)
    requires
        date_short_defined(date_str@),
    ensures
        r@ == short_date(date_str@),
{
    broadcast use vstd::utf8::group_utf8_lib;

    if date_str.as_bytes().len() >= 10 {
        let ghost bytes = date_str.spec_bytes();
        let (_, rest) = date_str.split_at(5);
        proof {
            let rb = rest.spec_bytes();
            assert(rb == bytes.subrange(5, bytes.len() as int));
            vstd::utf8::encode_utf8_valid_utf8(rest@);
            vstd::utf8::encode_utf8_valid_utf8(date_str@);
            if rb.len() > 5 {
                assert(rb[5] == bytes[10]);
                vstd::utf8::is_char_boundary_iff_not_is_continuation_byte(rb, 5);
                vstd::utf8::is_char_boundary_iff_not_is_continuation_byte(bytes, 10);
            } else {
                vstd::utf8::is_char_boundary_start_end_of_seq(rb);
            }
            assert(is_char_boundary(rest.spec_bytes(), 5));
        }
        let (mid, _) = rest.split_at(5);
        proof {
            assert(mid.spec_bytes() == bytes.subrange(5, 10));
            assert(vstd::utf8::decode_utf8(encode_utf8(mid@)) == mid@);
        }
        crate::text::owned(mid)
    } else {
        crate::text::owned(date_str)
    }
}


/// Whether the `MM-DD` label of a date can be cut out.
pub fn date_short_is_defined(date_str: &str) -> (r: bool)
    ensures
        r == date_short_defined(date_str@),
{
    if date_str.as_bytes().len() >= 10 {
        date_str.is_char_boundary(5) && date_str.is_char_boundary(10)
    } else {
        true
    }
}

// ---------------------------------------------------------------------------
// Daily usage from the platform's per-day figures
// ---------------------------------------------------------------------------

/// `s.parse::<i32>().unwrap_or(0)`.
pub open spec fn parse_or_zero(s: Seq<char>) -> i32 {
    match parsed_i32(s) {
        Some(v) => v,
        None => 0,
    }
}

/// The amount of the last usage entry of the given kind, or 0 when there is none.
pub open spec fn usage_of(usage: Seq<PlatformUsageEntry>, kind: Seq<char>) -> i32
    decreases usage.len(),
{
    if usage.len() == 0 {
        0
    } else if usage.last().usage_type@ == kind {
        parse_or_zero(usage.last().amount@)
    } else {
        usage_of(usage.drop_last(), kind)
    }
}

/// The figures of one model on one day.
pub struct DayFigures {
    pub total: i32,
    pub hit: i32,
    pub miss: i32,
    pub output: i32,
    pub requests: i32,
}

/// A model's daily figures; when no prompt total is given, the total is the sum of the
/// cache hits, cache misses and output tokens (wrapping like release builds).
pub open spec fn model_figures(m: PlatformModelData) -> DayFigures {
    let prompt = usage_of(m.usage@, "PROMPT_TOKEN"@);
    let hit = usage_of(m.usage@, "PROMPT_CACHE_HIT_TOKEN"@);
    let miss = usage_of(m.usage@, "PROMPT_CACHE_MISS_TOKEN"@);
    let output = usage_of(m.usage@, "RESPONSE_TOKEN"@);
    let requests = usage_of(m.usage@, "REQUEST"@);
    DayFigures {
        total: if prompt == 0 { hit.wrapping_add(miss).wrapping_add(output) } else { prompt },
        hit,
        miss,
        output,
        requests,
    }
}

/// The figures of a family on a day: those of its first model, unless that model has
/// neither tokens nor requests.
pub open spec fn day_figures(day: PlatformDayData, pro: bool) -> Option<DayFigures> {
    match first_match(day.data@, pro) {
        Some(k) => {
            let f = model_figures(day.data@[k]);
            if f.total == 0 && f.requests == 0 {
                None
            } else {
                Some(f)
            }
        },
        None => None,
    }
}

/// The days that get a point in the family's daily usage, in order.
pub open spec fn kept_days(days: Seq<PlatformDayData>, pro: bool) -> Seq<PlatformDayData>
    decreases days.len(),
{
    if days.len() == 0 {
        Seq::empty()
    } else {
        let rest = kept_days(days.drop_last(), pro);
        if day_figures(days.last(), pro) is Some {
            rest.push(days.last())
        } else {
            rest
        }
    }
}

/// `p` is the daily usage point of `day`.
pub open spec fn point_of_day(p: ModelDailyUsagePoint, day: PlatformDayData, pro: bool) -> bool {
    &&& day_figures(day, pro) matches Some(f)
    &&& p.date@ == day.date@
    &&& p.label@ == short_date(day.date@)
    &&& p.total_tokens == f.total
    &&& p.input_cache_hit_tokens == f.hit
    &&& p.input_cache_miss_tokens == f.miss
    &&& p.output_tokens == f.output
    &&& p.request_count == f.requests
    &&& p.cost_in_cents == 0
}

/// Every day that gets a point has a date whose label can be cut out.
pub open spec fn labels_defined(days: Seq<PlatformDayData>, pro: bool) -> bool {
    forall|i: int|
        0 <= i < days.len() && (#[trigger] day_figures(days[i], pro)) is Some ==> date_short_defined(
            days[i].date@,
        )
}

/// A model's daily total is its `PROMPT_TOKEN` amount whenever that is non-zero: an
/// entry of any other kind leaves the total as it is.
pub proof fn law_prompt_total_ignores_other_entries(m: PlatformModelData, n: PlatformModelData, e: PlatformUsageEntry)
    requires
        n.usage@ == m.usage@.push(e),
        e.usage_type@ != "PROMPT_TOKEN"@,
        usage_of(m.usage@, "PROMPT_TOKEN"@) != 0,
    ensures
        model_figures(n).total == model_figures(m).total,
        model_figures(m).total == usage_of(m.usage@, "PROMPT_TOKEN"@),
{
    assert(n.usage@.drop_last() == m.usage@);
    assert(n.usage@.last() == e);
}

/// The last entry of each kind gives that figure: a `PROMPT_TOKEN` entry with a non-zero
/// amount becomes the total, and cache hits, cache misses, output tokens and requests are
/// the amounts of their own last entries.
pub proof fn law_last_entry_gives_figure(m: PlatformModelData, n: PlatformModelData, e: PlatformUsageEntry)
    requires
        n.usage@ == m.usage@.push(e),
    ensures
        e.usage_type@ == "PROMPT_TOKEN"@ && parse_or_zero(e.amount@) != 0 ==> model_figures(n).total
            == parse_or_zero(e.amount@),
        e.usage_type@ == "PROMPT_CACHE_HIT_TOKEN"@ ==> model_figures(n).hit == parse_or_zero(e.amount@),
        e.usage_type@ == "PROMPT_CACHE_MISS_TOKEN"@ ==> model_figures(n).miss == parse_or_zero(e.amount@),
        e.usage_type@ == "RESPONSE_TOKEN"@ ==> model_figures(n).output == parse_or_zero(e.amount@),
        e.usage_type@ == "REQUEST"@ ==> model_figures(n).requests == parse_or_zero(e.amount@),
{
    assert(n.usage@.drop_last() == m.usage@);
    assert(n.usage@.last() == e);
}

proof fn lemma_usage_of_step(usage: Seq<PlatformUsageEntry>, j: int, kind: Seq<char>)
    requires
        0 <= j < usage.len(),
    ensures
        usage_of(usage.take(j + 1), kind) == if usage[j].usage_type@ == kind {
            parse_or_zero(usage[j].amount@)
        } else {
            usage_of(usage.take(j), kind)
        },
{
    assert(usage.take(j + 1).drop_last() == usage.take(j));
    assert(usage.take(j + 1).last() == usage[j]);
}

/// The daily figures of one model.
pub fn model_figures_of(m: &PlatformModelData) -> (f: DayFigures)
    ensures
        f == model_figures(*m),
{
    let mut prompt: i32 = 0;
    let mut hit: i32 = 0;
    let mut miss: i32 = 0;
    let mut output: i32 = 0;
    let mut requests: i32 = 0;
    let usage = &m.usage;
    let mut j: usize = 0;
    while j < usage.len()
        invariant
            j <= usage.len(),
            prompt == usage_of(usage@.take(j as int), "PROMPT_TOKEN"@),
            hit == usage_of(usage@.take(j as int), "PROMPT_CACHE_HIT_TOKEN"@),
            miss == usage_of(usage@.take(j as int), "PROMPT_CACHE_MISS_TOKEN"@),
            output == usage_of(usage@.take(j as int), "RESPONSE_TOKEN"@),
            requests == usage_of(usage@.take(j as int), "REQUEST"@),
        decreases usage.len() - j,
    {
        let entry = &usage[j];
        let val = match parse_i32(entry.amount.as_str()) {
            Some(v) => v,
            None => 0,
        };
        let kind = entry.usage_type.as_str();
        proof {
            lemma_usage_of_step(usage@, j as int, "PROMPT_TOKEN"@);
            lemma_usage_of_step(usage@, j as int, "PROMPT_CACHE_HIT_TOKEN"@);
            lemma_usage_of_step(usage@, j as int, "PROMPT_CACHE_MISS_TOKEN"@);
            lemma_usage_of_step(usage@, j as int, "RESPONSE_TOKEN"@);
            lemma_usage_of_step(usage@, j as int, "REQUEST"@);
        }
        if str_eq(kind, "PROMPT_TOKEN") {
            prompt = val;
        }
        if str_eq(kind, "PROMPT_CACHE_HIT_TOKEN") {
            hit = val;
        }
        if str_eq(kind, "PROMPT_CACHE_MISS_TOKEN") {
            miss = val;
        }
        if str_eq(kind, "RESPONSE_TOKEN") {
            output = val;
        }
        if str_eq(kind, "REQUEST") {
            requests = val;
        }
        j += 1;
    }
    proof {
        assert(usage@.take(usage.len() as int) == usage@);
    }
    let total = if prompt == 0 {
        hit.wrapping_add(miss).wrapping_add(output)
    } else {
        prompt
    };
    DayFigures { total, hit, miss, output, requests }
}

/// The figures of a family on a day, if the day gets a point.
pub fn day_figures_of(day: &PlatformDayData, is_pro: bool) -> (r: Option<DayFigures>)
    ensures
        r == day_figures(*day, is_pro),
{
    match first_model_index(&day.data, is_pro) {
        Some(k) => {
            let f = model_figures_of(&day.data[k]);
            if f.total == 0 && f.requests == 0 {
                None
            } else {
                Some(f)
            }
        },
        None => None,
    }
}

/// Whether every day that gets a point has a date whose label can be cut out.
pub fn daily_labels_defined(days: &Vec<PlatformDayData>, is_pro: bool) -> (r: bool)
    ensures
        r == labels_defined(days@, is_pro),
{
    let mut i: usize = 0;
    while i < days.len()
        invariant
            i <= days.len(),
            forall|j: int|
                0 <= j < i && (#[trigger] day_figures(days@[j], is_pro)) is Some
                    ==> date_short_defined(days@[j].date@),
        decreases days.len() - i,
    {
        if day_figures_of(&days[i], is_pro).is_some() && !date_short_is_defined(days[i].date.as_str()) {
            return false;
        }
        i += 1;
    }
    true
}

/// The daily usage of a family (Pro when `is_pro`, else Flash) from the per-day figures.
pub fn build_daily_from_platform(days: &Vec<PlatformDayData>, is_pro: bool) -> (r: Vec<
    ModelDailyUsagePoint,
>)
    requires
        labels_defined(days@, is_pro),
    ensures
        r@.len() == kept_days(days@, is_pro).len(),
        forall|k: int|
            0 <= k < r@.len() ==> point_of_day(#[trigger] r@[k], kept_days(days@, is_pro)[k], is_pro),
{
    let mut r: Vec<ModelDailyUsagePoint> = Vec::new();
    let mut i: usize = 0;
    while i < days.len()
        invariant
            i <= days.len(),
            labels_defined(days@, is_pro),
            r@.len() == kept_days(days@.take(i as int), is_pro).len(),
            forall|k: int|
                0 <= k < r@.len() ==> point_of_day(
                    #[trigger] r@[k],
                    kept_days(days@.take(i as int), is_pro)[k],
                    is_pro,
                ),
        decreases days.len() - i,
    {
        let day = &days[i];
        let ghost prev = kept_days(days@.take(i as int), is_pro);
        proof {
            assert(days@.take(i + 1).drop_last() == days@.take(i as int));
            assert(days@.take(i + 1).last() == days@[i as int]);
        }
        match day_figures_of(day, is_pro) {
            Some(f) => {
                assert(date_short_defined(days@[i as int].date@));
                let point = ModelDailyUsagePoint {
                    date: day.date.clone(),
                    label: format_date_short(day.date.as_str()),
                    total_tokens: f.total,
                    input_cache_hit_tokens: f.hit,
                    input_cache_miss_tokens: f.miss,
                    output_tokens: f.output,
                    request_count: f.requests,
                    cost_in_cents: 0,
                };
                r.push(point);
                proof {
                    let now = kept_days(days@.take(i + 1), is_pro);
                    assert(now == prev.push(days@[i as int]));
                    assert forall|k: int| 0 <= k < r@.len() implies point_of_day(
                        #[trigger] r@[k],
                        now[k],
                        is_pro,
                    ) by {
                        if k < prev.len() {
                            assert(now[k] == prev[k]);
                        }
                    }
                }
            },
            None => {
                proof {
                    assert(kept_days(days@.take(i + 1), is_pro) == prev);
                }
            },
        }
        i += 1;
    }
    proof {
        assert(days@.take(days.len() as int) == days@);
    }
    r
}

} // verus!
