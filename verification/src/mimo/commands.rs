use vstd::prelude::*;
use crate::calendar::{
    day_before, effective_day, effective_day_text, format_md, md_text, parse_ymd, parsed_ymd,
    previous_day, push_padded, ymd_text, zero_padded, LocalDateTime,
};
use crate::errors::{error_text, with_message, ErrorLog};
use crate::mimo::api::{error_message, format_number, ApiError, is_pro_model, is_pro_name, is_standard_model, is_standard_name};
use crate::mimo::models::{
    MimoModel, MimoMonthBill, MimoTokenDetailItem, MimoTokenPlanItem, ModelDailyUsagePoint,
    ModelUsageSummary,
};
use crate::numbers::grouped_number;
use crate::text::{
    chars_of, contains_str, contains_text, lemma_text_lt_irreflexive, lemma_text_lt_transitive,
    owned, push_char, starts_with_chars, starts_with_text, str_eq, text_lt, text_order, TextOrder,
};

use std::sync::atomic::AtomicBool;

verus! {

/// The day whose usage is "today" at local time `now`: before 7 AM it is still the
/// previous day.
pub open spec fn today_text(now: LocalDateTime) -> Seq<char> {
    let e = effective_day(now.year as int, now.month as int, now.day as int, now.hour as int, 7);
    ymd_text(e.0, e.1, e.2)
}

/// The `YYYY-MM-DD` day whose usage is "today".
pub fn effective_today(now: &LocalDateTime) -> (r: String)
    requires
        now.wf(),
    ensures
        r@ == today_text(*now),
{
    effective_day_text(now.year, now.month, now.day, now.hour, 7)
}

/// One day's usage of one model, whatever the payment mode.
pub struct TokenRecord {
    pub date: String,
    pub model: String,
    pub total_token: i64,
    pub input_hit_token: i64,
    pub input_miss_token: i64,
    pub output_token: i64,
    pub request_count: i64,
    pub input_audio_duration: i64,
}

fn text_or_empty(s: &Option<String>) -> (r: String)
    ensures
        r@ == match s {
            Some(t) => t@,
            None => Seq::<char>::empty(),
        },
{
    match s {
        Some(t) => owned(t.as_str()),
        None => String::new(),
    }
}

fn number_or_zero(n: Option<i64>) -> (r: i64)
    ensures
        r == match n {
            Some(v) => v,
            None => 0,
        },
{
    match n {
        Some(v) => v,
        None => 0,
    }
}

pub open spec fn text_of(s: Option<String>) -> Seq<char> {
    match s {
        Some(t) => t@,
        None => Seq::empty(),
    }
}

pub open spec fn number_of(n: Option<i64>) -> i64 {
    match n {
        Some(v) => v,
        None => 0,
    }
}

/// `r` holds the figures of a usage item, with missing texts empty and missing numbers 0.
pub open spec fn record_of(
    r: TokenRecord,
    date: Option<String>,
    model: Option<String>,
    figures: (Option<i64>, Option<i64>, Option<i64>, Option<i64>, Option<i64>, Option<i64>),
) -> bool {
    &&& r.date@ == text_of(date)
    &&& r.model@ == text_of(model)
    &&& r.total_token == number_of(figures.0)
    &&& r.input_hit_token == number_of(figures.1)
    &&& r.input_miss_token == number_of(figures.2)
    &&& r.output_token == number_of(figures.3)
    &&& r.request_count == number_of(figures.4)
    &&& r.input_audio_duration == number_of(figures.5)
}

impl TokenRecord {
    /// The record of a token plan usage item.
    pub fn from_plan_item(item: &MimoTokenPlanItem) -> (r: TokenRecord)
        ensures
            record_of(
                r,
                item.date,
                item.model,
                (
                    item.total_token,
                    item.input_hit_token,
                    item.input_miss_token,
                    item.output_token,
                    item.request_count,
                    item.input_audio_duration,
                ),
            ),
    {
        TokenRecord {
            date: text_or_empty(&item.date),
            model: text_or_empty(&item.model),
            total_token: number_or_zero(item.total_token),
            input_hit_token: number_or_zero(item.input_hit_token),
            input_miss_token: number_or_zero(item.input_miss_token),
            output_token: number_or_zero(item.output_token),
            request_count: number_or_zero(item.request_count),
            input_audio_duration: number_or_zero(item.input_audio_duration),
        }
    }

    /// The record of a pay-per-token usage item (its cost is kept apart).
    pub fn from_detail_item(item: &MimoTokenDetailItem) -> (r: TokenRecord)
        ensures
            record_of(
                r,
                item.date,
                item.model,
                (
                    item.total_token,
                    item.input_hit_token,
                    item.input_miss_token,
                    item.output_token,
                    item.request_count,
                    item.input_audio_duration,
                ),
            ),
    {
        TokenRecord {
            date: text_or_empty(&item.date),
            model: text_or_empty(&item.model),
            total_token: number_or_zero(item.total_token),
            input_hit_token: number_or_zero(item.input_hit_token),
            input_miss_token: number_or_zero(item.input_miss_token),
            output_token: number_or_zero(item.output_token),
            request_count: number_or_zero(item.request_count),
            input_audio_duration: number_or_zero(item.input_audio_duration),
        }
    }
}

/// The family a record counts toward: `Some(true)` for Pro, `Some(false)` for Standard,
/// `None` for records without a model, of another model, or without a date.
pub open spec fn family_of(r: TokenRecord) -> Option<bool> {
    if r.model@.len() == 0 || !(is_standard_name(r.model@) || is_pro_name(r.model@)) || r.date@.len()
        == 0 {
        None
    } else {
        Some(is_pro_name(r.model@))
    }
}

/// The family a record counts toward.
pub fn record_family(r: &TokenRecord) -> (f: Option<bool>)
    ensures
        f == family_of(*r),
{
    if r.model.as_str().is_empty() {
        return None;
    }
    let is_standard = is_standard_model(r.model.as_str());
    let is_pro = is_pro_model(r.model.as_str());
    if !is_standard && !is_pro {
        return None;
    }
    if r.date.as_str().is_empty() {
        return None;
    }
    Some(is_pro)
}

/// The sums of a day's records of one family.
#[derive(Clone, Copy)]
pub struct Sums {
    pub total: i64,
    pub hit: i64,
    pub miss: i64,
    pub output: i64,
    pub requests: i64,
    pub audio: i64,
}

pub open spec fn zero_sums() -> Sums {
    Sums { total: 0, hit: 0, miss: 0, output: 0, requests: 0, audio: 0 }
}

/// `s` with a record's figures added (wrapping like release builds).
pub open spec fn add_record(s: Sums, r: TokenRecord) -> Sums {
    Sums {
        total: s.total.wrapping_add(r.total_token),
        hit: s.hit.wrapping_add(r.input_hit_token),
        miss: s.miss.wrapping_add(r.input_miss_token),
        output: s.output.wrapping_add(r.output_token),
        requests: s.requests.wrapping_add(r.request_count),
        audio: s.audio.wrapping_add(r.input_audio_duration),
    }
}

fn add_record_exec(s: Sums, r: &TokenRecord) -> (t: Sums)
    ensures
        t == add_record(s, *r),
{
    Sums {
        total: s.total.wrapping_add(r.total_token),
        hit: s.hit.wrapping_add(r.input_hit_token),
        miss: s.miss.wrapping_add(r.input_miss_token),
        output: s.output.wrapping_add(r.output_token),
        requests: s.requests.wrapping_add(r.request_count),
        audio: s.audio.wrapping_add(r.input_audio_duration),
    }
}

/// A record of family `pro` dated `date`.
pub open spec fn counted(r: TokenRecord, pro: bool, date: Seq<char>) -> bool {
    family_of(r) == Some(pro) && r.date@ == date
}

/// The sums of the records of family `pro` dated `date`, in order.
pub open spec fn date_sums(records: Seq<TokenRecord>, pro: bool, date: Seq<char>) -> Sums
    decreases records.len(),
{
    if records.len() == 0 {
        zero_sums()
    } else {
        let s = date_sums(records.drop_last(), pro, date);
        if counted(records.last(), pro, date) {
            add_record(s, records.last())
        } else {
            s
        }
    }
}

/// Some record of family `pro` is dated `date`.
pub open spec fn has_date(records: Seq<TokenRecord>, pro: bool, date: Seq<char>) -> bool {
    exists|j: int| 0 <= j < records.len() && counted(#[trigger] records[j], pro, date)
}

/// The label of a daily point: `MM-DD` of a date that parses, else the date itself.
pub open spec fn date_label(date: Seq<char>) -> Seq<char> {
    match parsed_ymd(date) {
        Some(t) => md_text(t.1 as int, t.2 as int),
        None => date,
    }
}

/// The label of a daily point.
pub fn label_of(date: &str) -> (r: String)
    ensures
        r@ == date_label(date@),
{
    match parse_ymd(date) {
        Some((y, m, d)) => format_md(y, m, d),
        None => owned(date),
    }
}

proof fn lemma_date_sums_absent(records: Seq<TokenRecord>, pro: bool, date: Seq<char>)
    requires
        !has_date(records, pro, date),
    ensures
        date_sums(records, pro, date) == zero_sums(),
    decreases records.len(),
{
    if records.len() > 0 {
        let rest = records.drop_last();
        assert(!has_date(rest, pro, date)) by {
            if has_date(rest, pro, date) {
                let j = choose|j: int| 0 <= j < rest.len() && counted(#[trigger] rest[j], pro, date);
                assert(records[j] == rest[j]);
            }
        }
        assert(!counted(records[records.len() - 1], pro, date));
        lemma_date_sums_absent(rest, pro, date);
    }
}

proof fn lemma_step(records: Seq<TokenRecord>, i: int, pro: bool, date: Seq<char>)
    requires
        0 <= i < records.len(),
    ensures
        date_sums(records.take(i + 1), pro, date) == if counted(records[i], pro, date) {
            add_record(date_sums(records.take(i), pro, date), records[i])
        } else {
            date_sums(records.take(i), pro, date)
        },
        has_date(records.take(i + 1), pro, date) == (has_date(records.take(i), pro, date) || counted(
            records[i],
            pro,
            date,
        )),
{
    let a = records.take(i);
    let b = records.take(i + 1);
    assert(b.drop_last() == a);
    assert(b.last() == records[i]);
    if has_date(b, pro, date) {
        let j = choose|j: int| 0 <= j < b.len() && counted(#[trigger] b[j], pro, date);
        if j < i {
            assert(a[j] == b[j]);
        }
    }
    if has_date(a, pro, date) {
        let j = choose|j: int| 0 <= j < a.len() && counted(#[trigger] a[j], pro, date);
        assert(b[j] == a[j]);
    }
    if counted(records[i], pro, date) {
        assert(b[i] == records[i]);
    }
}

/// Where a date goes among sorted dates: the position of the first date not before it,
/// and whether that date is the same.
fn find_slot(keys: &Vec<Vec<char>>, key: &Vec<char>) -> (r: (usize, bool))
    requires
        forall|a: int, b: int| 0 <= a < b < keys@.len() ==> text_lt(keys@[a]@, keys@[b]@),
    ensures
        r.0 <= keys@.len(),
        forall|j: int| 0 <= j < r.0 ==> text_lt(keys@[j]@, key@),
        r.1 ==> r.0 < keys@.len() && keys@[r.0 as int]@ == key@,
        !r.1 ==> r.0 == keys@.len() || text_lt(key@, keys@[r.0 as int]@),
{
    let mut p: usize = 0;
    while p < keys.len()
        invariant
            p <= keys@.len(),
            forall|j: int| 0 <= j < p ==> text_lt(keys@[j]@, key@),
        decreases keys.len() - p,
    {
        match text_order(&keys[p], key) {
            TextOrder::Before => {
                p += 1;
            },
            TextOrder::Same => {
                return (p, true);
            },
            TextOrder::After => {
                return (p, false);
            },
        }
    }
    (p, false)
}


/// The sums held by a daily point.
pub open spec fn point_sums(p: ModelDailyUsagePoint) -> Sums {
    Sums {
        total: p.total_tokens,
        hit: p.input_cache_hit_tokens,
        miss: p.input_cache_miss_tokens,
        output: p.output_tokens,
        requests: p.request_count,
        audio: p.input_audio_duration,
    }
}

/// Strictly increasing dates.
pub open spec fn dates_increasing(dates: Seq<Seq<char>>) -> bool {
    forall|a: int, b: int| 0 <= a < b < dates.len() ==> text_lt(dates[a], dates[b])
}

/// `points` are the daily points of family `pro` in `records`: one for each day that has a
/// record of that family, in increasing date order, each holding the sums of that day's
/// records, its label and no cost.
pub open spec fn daily_points_of(
    records: Seq<TokenRecord>,
    pro: bool,
    points: Seq<ModelDailyUsagePoint>,
) -> bool {
    &&& dates_increasing(points.map_values(|p: ModelDailyUsagePoint| p.date@))
    &&& forall|d: Seq<char>|
        has_date(records, pro, d) <==> exists|k: int|
            0 <= k < points.len() && (#[trigger] points[k]).date@ == d
    &&& forall|k: int|
        0 <= k < points.len() ==> {
            let p = #[trigger] points[k];
            &&& point_sums(p) == date_sums(records, pro, p.date@)
            &&& p.label@ == date_label(p.date@)
            &&& p.cost_in_cents == 0
        }
}

proof fn lemma_step_all(records: Seq<TokenRecord>, i: int, pro: bool)
    requires
        0 <= i < records.len(),
    ensures
        forall|d: Seq<char>|
            #[trigger] date_sums(records.take(i + 1), pro, d) == if counted(records[i], pro, d) {
                add_record(date_sums(records.take(i), pro, d), records[i])
            } else {
                date_sums(records.take(i), pro, d)
            },
        forall|d: Seq<char>|
            #[trigger] has_date(records.take(i + 1), pro, d) == (has_date(records.take(i), pro, d)
                || counted(records[i], pro, d)),
{
    assert forall|d: Seq<char>|
        #[trigger] date_sums(records.take(i + 1), pro, d) == if counted(records[i], pro, d) {
            add_record(date_sums(records.take(i), pro, d), records[i])
        } else {
            date_sums(records.take(i), pro, d)
        } by {
        lemma_step(records, i, pro, d);
    }
    assert forall|d: Seq<char>|
        #[trigger] has_date(records.take(i + 1), pro, d) == (has_date(records.take(i), pro, d)
            || counted(records[i], pro, d)) by {
        lemma_step(records, i, pro, d);
    }
}

/// The daily points of one model family (`pro` for Pro, else Standard), in date order.
pub fn daily_points(records: &Vec<TokenRecord>, pro: bool) -> (points: Vec<ModelDailyUsagePoint>)
    ensures
        daily_points_of(records@, pro, points@),
{
    let mut keys: Vec<Vec<char>> = Vec::new();
    let mut dates: Vec<String> = Vec::new();
    let mut sums: Vec<Sums> = Vec::new();
    let mut i: usize = 0;
    while i < records.len()
        invariant
            i <= records@.len(),
            keys@.len() == dates@.len(),
            keys@.len() == sums@.len(),
            forall|k: int| 0 <= k < keys@.len() ==> (#[trigger] keys@[k])@ == dates@[k]@,
            forall|a: int, b: int| 0 <= a < b < keys@.len() ==> text_lt(keys@[a]@, keys@[b]@),
            forall|d: Seq<char>|
                has_date(records@.take(i as int), pro, d) <==> exists|k: int|
                    0 <= k < keys@.len() && (#[trigger] keys@[k])@ == d,
            forall|k: int|
                0 <= k < keys@.len() ==> sums@[k] == date_sums(
                    records@.take(i as int),
                    pro,
                    (#[trigger] keys@[k])@,
                ),
        decreases records.len() - i,
    {
        let ghost before = records@.take(i as int);
        let ghost after = records@.take(i + 1);
        proof {
            lemma_step_all(records@, i as int, pro);
        }
        let family = record_family(&records[i]);
        let in_family = match family {
            Some(b) => b == pro,
            None => false,
        };
        if in_family {
            let key = chars_of(records[i].date.as_str());
            let (p, found) = find_slot(&keys, &key);
            if found {
                let updated = add_record_exec(sums[p], &records[i]);
                sums.set(p, updated);
                proof {
                    assert forall|k: int| 0 <= k < keys@.len() && k != p implies keys@[k]@
                        != key@ by {
                        if k < p {
                            lemma_text_lt_irreflexive(keys@[k]@);
                        } else {
                            lemma_text_lt_irreflexive(keys@[p as int]@);
                        }
                    }
                }
            } else {
                proof {
                    assert(!has_date(before, pro, key@)) by {
                        if has_date(before, pro, key@) {
                            let k = choose|k: int| 0 <= k < keys@.len() && (#[trigger] keys@[k])@
                                == key@;
                            if k < p {
                                lemma_text_lt_irreflexive(key@);
                            } else {
                                if k > p {
                                    lemma_text_lt_transitive(key@, keys@[p as int]@, keys@[k]@);
                                }
                                lemma_text_lt_irreflexive(key@);
                            }
                        }
                    }
                    lemma_date_sums_absent(before, pro, key@);
                }
                let ghost old_keys = keys@;
                let first = add_record_exec(
                    Sums { total: 0, hit: 0, miss: 0, output: 0, requests: 0, audio: 0 },
                    &records[i],
                );
                keys.insert(p, key);
                dates.insert(p, owned(records[i].date.as_str()));
                sums.insert(p, first);
                proof {
                    assert forall|a: int, b: int| 0 <= a < b < keys@.len() implies text_lt(
                        keys@[a]@,
                        keys@[b]@,
                    ) by {
                        if b < p {
                            assert(keys@[a] == old_keys[a] && keys@[b] == old_keys[b]);
                        } else if b == p {
                            assert(keys@[a] == old_keys[a]);
                        } else if a < p {
                            assert(keys@[a] == old_keys[a] && keys@[b] == old_keys[b - 1]);
                            lemma_text_lt_transitive(keys@[a]@, key@, old_keys[p as int]@);
                            if b - 1 > p {
                                lemma_text_lt_transitive(keys@[a]@, old_keys[p as int]@, keys@[b]@);
                            }
                        } else if a == p {
                            assert(keys@[b] == old_keys[b - 1]);
                            if b - 1 > p {
                                lemma_text_lt_transitive(key@, old_keys[p as int]@, keys@[b]@);
                            }
                        } else {
                            assert(keys@[a] == old_keys[a - 1] && keys@[b] == old_keys[b - 1]);
                        }
                    }
                    assert forall|k: int| 0 <= k < keys@.len() && k != p implies keys@[k]@
                        != key@ by {
                        if k < p {
                            assert(keys@[k] == old_keys[k]);
                            lemma_text_lt_irreflexive(key@);
                        } else {
                            assert(keys@[k] == old_keys[k - 1]);
                            if k - 1 > p {
                                lemma_text_lt_transitive(key@, old_keys[p as int]@, keys@[k]@);
                            }
                            lemma_text_lt_irreflexive(key@);
                        }
                    }
                    assert forall|k: int| 0 <= k < keys@.len() implies has_date(
                        after,
                        pro,
                        (#[trigger] keys@[k])@,
                    ) by {
                        if k < p {
                            assert(keys@[k] == old_keys[k]);
                        } else if k > p {
                            assert(keys@[k] == old_keys[k - 1]);
                        }
                    }
                    assert forall|d: Seq<char>|
                        has_date(after, pro, d) implies exists|k: int|
                            0 <= k < keys@.len() && (#[trigger] keys@[k])@ == d by {
                        if d == key@ {
                            assert(keys@[p as int]@ == d);
                        } else {
                            let k = choose|k: int| 0 <= k < old_keys.len() && (#[trigger] old_keys[k])@
                                == d;
                            if k < p {
                                assert(keys@[k] == old_keys[k]);
                            } else {
                                assert(keys@[k + 1] == old_keys[k]);
                            }
                        }
                    }
                }
            }
        }
        i += 1;
    }
    proof {
        assert(records@.take(records@.len() as int) == records@);
    }
    let mut points: Vec<ModelDailyUsagePoint> = Vec::new();
    let mut k: usize = 0;
    while k < dates.len()
        invariant
            k <= dates@.len(),
            points@.len() == k,
            keys@.len() == dates@.len(),
            keys@.len() == sums@.len(),
            forall|j: int| 0 <= j < keys@.len() ==> (#[trigger] keys@[j])@ == dates@[j]@,
            forall|j: int|
                0 <= j < k ==> {
                    let q = #[trigger] points@[j];
                    &&& q.date@ == dates@[j]@
                    &&& point_sums(q) == sums@[j]
                    &&& q.label@ == date_label(q.date@)
                    &&& q.cost_in_cents == 0
                },
        decreases dates.len() - k,
    {
        let s = sums[k];
        points.push(
            ModelDailyUsagePoint {
                date: owned(dates[k].as_str()),
                label: label_of(dates[k].as_str()),
                total_tokens: s.total,
                input_cache_hit_tokens: s.hit,
                input_cache_miss_tokens: s.miss,
                output_tokens: s.output,
                request_count: s.requests,
                cost_in_cents: 0,
                input_audio_duration: s.audio,
            },
        );
        k += 1;
    }
    proof {
        let pd = points@.map_values(|p: ModelDailyUsagePoint| p.date@);
        assert forall|a: int, b: int| 0 <= a < b < pd.len() implies text_lt(pd[a], pd[b]) by {
            assert(pd[a] == keys@[a]@ && pd[b] == keys@[b]@);
        }
        assert forall|d: Seq<char>|
            has_date(records@, pro, d) <==> exists|j: int|
                0 <= j < points@.len() && (#[trigger] points@[j]).date@ == d by {
            if has_date(records@, pro, d) {
                let j = choose|j: int| 0 <= j < keys@.len() && (#[trigger] keys@[j])@ == d;
                assert(points@[j].date@ == d);
            }
            if exists|j: int| 0 <= j < points@.len() && (#[trigger] points@[j]).date@ == d {
                let j = choose|j: int| 0 <= j < points@.len() && (#[trigger] points@[j]).date@ == d;
                assert(keys@[j]@ == d);
            }
        }
        assert forall|j: int| 0 <= j < points@.len() implies point_sums(#[trigger] points@[j])
            == date_sums(records@, pro, points@[j].date@) by {
            assert(keys@[j]@ == points@[j].date@);
        }
    }
    points
}


// ---------------------------------------------------------------------------
// Month totals and today's figures
// ---------------------------------------------------------------------------

/// The total tokens of family `pro` over all records (wrapping like release builds).
pub open spec fn family_total(records: Seq<TokenRecord>, pro: bool) -> i64
    decreases records.len(),
{
    if records.len() == 0 {
        0
    } else {
        let t = family_total(records.drop_last(), pro);
        if family_of(records.last()) == Some(pro) {
            t.wrapping_add(records.last().total_token)
        } else {
            t
        }
    }
}

/// Today's figures over both families.
#[derive(Clone, Copy)]
pub struct DayTotals {
    pub requests: i64,
    pub flash_tokens: i64,
    pub pro_tokens: i64,
    pub audio: i64,
}

/// Today's figures: requests, Standard tokens, Pro tokens and audio seconds of the
/// records of either family dated `today` (wrapping like release builds).
pub open spec fn day_totals(records: Seq<TokenRecord>, today: Seq<char>) -> DayTotals
    decreases records.len(),
{
    if records.len() == 0 {
        DayTotals { requests: 0, flash_tokens: 0, pro_tokens: 0, audio: 0 }
    } else {
        let t = day_totals(records.drop_last(), today);
        let r = records.last();
        match family_of(r) {
            Some(pro) => if r.date@ == today {
                DayTotals {
                    requests: t.requests.wrapping_add(r.request_count),
                    flash_tokens: if pro {
                        t.flash_tokens
                    } else {
                        t.flash_tokens.wrapping_add(r.total_token)
                    },
                    pro_tokens: if pro {
                        t.pro_tokens.wrapping_add(r.total_token)
                    } else {
                        t.pro_tokens
                    },
                    audio: t.audio.wrapping_add(r.input_audio_duration),
                }
            } else {
                t
            },
            None => t,
        }
    }
}

/// The month's Standard and Pro token totals and today's figures.
pub fn usage_totals(records: &Vec<TokenRecord>, today: &str) -> (r: (i64, i64, DayTotals))
    ensures
        r.0 == family_total(records@, false),
        r.1 == family_total(records@, true),
        r.2 == day_totals(records@, today@),
{
    let mut flash: i64 = 0;
    let mut pro: i64 = 0;
    let mut day = DayTotals { requests: 0, flash_tokens: 0, pro_tokens: 0, audio: 0 };
    let mut i: usize = 0;
    while i < records.len()
        invariant
            i <= records@.len(),
            flash == family_total(records@.take(i as int), false),
            pro == family_total(records@.take(i as int), true),
            day == day_totals(records@.take(i as int), today@),
        decreases records.len() - i,
    {
        proof {
            let next = records@.take(i + 1);
            assert(next.drop_last() == records@.take(i as int));
            assert(next.last() == records@[i as int]);
        }
        let r = &records[i];
        match record_family(r) {
            Some(is_pro) => {
                if is_pro {
                    pro = pro.wrapping_add(r.total_token);
                } else {
                    flash = flash.wrapping_add(r.total_token);
                }
                if str_eq(r.date.as_str(), today) {
                    day = DayTotals {
                        requests: day.requests.wrapping_add(r.request_count),
                        flash_tokens: if is_pro {
                            day.flash_tokens
                        } else {
                            day.flash_tokens.wrapping_add(r.total_token)
                        },
                        pro_tokens: if is_pro {
                            day.pro_tokens.wrapping_add(r.total_token)
                        } else {
                            day.pro_tokens
                        },
                        audio: day.audio.wrapping_add(r.input_audio_duration),
                    };
                }
            },
            None => {},
        }
        i += 1;
    }
    proof {
        assert(records@.take(records@.len() as int) == records@);
    }
    (flash, pro, day)
}

/// The cost label of a family's monthly usage under a token plan.
pub open spec fn plan_cost_label() -> Seq<char> {
    "套餐"@
}

/// The monthly summary of a family, present when it used any tokens. Under a token plan
/// the cost reads "套餐"; when paying per token it reads `token_cost_text`.
pub fn usage_summary(
    model: MimoModel,
    total_tokens: i64,
    cost_in_cents: i64,
    is_plan_mode: bool,
    token_cost_text: String,
) -> (r: Option<ModelUsageSummary>)
    ensures
        (total_tokens > 0) == r is Some,
        r matches Some(u) ==> {
            &&& u.model == model
            &&& u.total_tokens == total_tokens
            &&& u.cost_in_cents == cost_in_cents
            &&& u.total_tokens_formatted@ == grouped_number(total_tokens as int)
            &&& u.cost_formatted@ == if is_plan_mode {
                plan_cost_label()
            } else {
                token_cost_text@
            }
        },
{
    if total_tokens > 0 {
        Some(
            ModelUsageSummary {
                model,
                total_tokens,
                cost_in_cents,
                total_tokens_formatted: format_number(total_tokens),
                cost_formatted: if is_plan_mode {
                    owned("套餐")
                } else {
                    token_cost_text
                },
            },
        )
    } else {
        None
    }
}

// ---------------------------------------------------------------------------
// What a refresh fetches and which figures it reads
// ---------------------------------------------------------------------------

/// The payment mode: the saved one, `"plan"` when none is saved; paying per token only
/// for `"token"`.
pub open spec fn payment_mode_text(saved: Option<Seq<char>>) -> Seq<char> {
    match saved {
        Some(m) => m,
        None => "plan"@,
    }
}

/// The payment mode and whether it is a token plan.
pub fn payment_mode(saved: Option<String>) -> (r: (String, bool))
    ensures
        r.0@ == payment_mode_text(
            match saved {
                Some(m) => Some(m@),
                None => None,
            },
        ),
        r.1 == (r.0@ != "token"@),
{
    let mode = match saved {
        Some(m) => m,
        None => owned("plan"),
    };
    let plan = !str_eq(mode.as_str(), "token");
    (mode, plan)
}

/// In the first six days of a month the usage list of the month of the previous day is
/// fetched too.
pub open spec fn earlier_month(now: LocalDateTime) -> Option<(int, int)> {
    if now.day <= 6 {
        let p = day_before(now.year as int, now.month as int, now.day as int);
        Some((p.0, p.1))
    } else {
        None
    }
}

/// The year and month of the extra usage list to fetch, if any.
pub fn earlier_month_to_fetch(now: &LocalDateTime) -> (r: Option<(i32, u32)>)
    requires
        now.wf(),
    ensures
        match r {
            Some(ym) => earlier_month(*now) == Some((ym.0 as int, ym.1 as int)),
            None => earlier_month(*now) is None,
        },
{
    if now.day <= 6 {
        let (y, m, _d) = previous_day(now.year, now.month, now.day);
        Some((y, m))
    } else {
        None
    }
}

/// The position of the first bill of the month `year`/`month` (`report_month` is
/// `year * 100 + month`).
pub open spec fn is_current_bill(bills: Seq<MimoMonthBill>, year: int, month: int, k: int) -> bool {
    &&& 0 <= k < bills.len()
    &&& bills[k].report_month == Some((year * 100 + month) as i64)
    &&& forall|j: int|
        0 <= j < k ==> (#[trigger] bills[j]).report_month != Some((year * 100 + month) as i64)
}

/// The bill of the current month, found by its `report_month`.
pub fn current_bill(bills: &Vec<MimoMonthBill>, year: i32, month: u32) -> (r: Option<usize>)
    requires
        month <= 12,
    ensures
        match r {
            Some(k) => is_current_bill(bills@, year as int, month as int, k as int),
            None => forall|j: int|
                0 <= j < bills@.len() ==> (#[trigger] bills@[j]).report_month != Some(
                    (year * 100 + month) as i64,
                ),
        },
{
    let wanted: i64 = (year as i64) * 100 + (month as i64);
    let mut k: usize = 0;
    while k < bills.len()
        invariant
            k <= bills@.len(),
            wanted == year * 100 + month,
            forall|j: int|
                0 <= j < k ==> (#[trigger] bills@[j]).report_month != Some(wanted),
        decreases bills.len() - k,
    {
        match bills[k].report_month {
            Some(m) => {
                if m == wanted {
                    return Some(k);
                }
            },
            None => {},
        }
        k += 1;
    }
    None
}

/// The name of the compensation entry among a plan's usage items.
pub open spec fn compensation_name() -> Seq<char> {
    "compensation_total_token"@
}

/// The first usage item that is not the compensation entry (an item without a name
/// counts as named "").
pub open spec fn is_main_item(names: Seq<Option<String>>, k: int) -> bool {
    &&& 0 <= k < names.len()
    &&& text_of(names[k]) != compensation_name()
    &&& forall|j: int| 0 <= j < k ==> text_of(#[trigger] names[j]) == compensation_name()
}

/// The position of the plan's main usage item, given the items' names.
pub fn main_usage_item(names: &Vec<Option<String>>) -> (r: Option<usize>)
    ensures
        match r {
            Some(k) => is_main_item(names@, k as int),
            None => forall|j: int|
                0 <= j < names@.len() ==> text_of(#[trigger] names@[j]) == compensation_name(),
        },
{
    let mut k: usize = 0;
    while k < names.len()
        invariant
            k <= names@.len(),
            forall|j: int| 0 <= j < k ==> text_of(#[trigger] names@[j]) == compensation_name(),
        decreases names.len() - k,
    {
        proof {
            reveal_strlit("compensation_total_token");
        }
        let is_compensation = match &names[k] {
            Some(n) => str_eq(n.as_str(), "compensation_total_token"),
            None => {
                proof {
                    assert(compensation_name().len() > 0);
                }
                false
            },
        };
        if !is_compensation {
            return Some(k);
        }
        k += 1;
    }
    None
}

/// `YYYY-MM` as std writes `{:04}-{:02}`, the prefix of the dates of a month.
pub open spec fn month_prefix_text(year: int, month: int) -> Seq<char> {
    let y = if year >= 0 {
        zero_padded(year as nat, 4)
    } else {
        seq!['-'] + zero_padded((-year) as nat, 3)
    };
    y + seq!['-'] + zero_padded(month as nat, 2)
}

/// Whether a record's cost counts toward today's cost and toward the month's cost.
pub open spec fn cost_counts(r: TokenRecord, today: Seq<char>, month_prefix: Seq<char>) -> (bool, bool) {
    let known = is_pro_name(r.model@) || is_standard_name(r.model@);
    (known && r.date@ == today, known && starts_with_text(r.date@, month_prefix))
}

/// Whether a record's cost counts toward today's cost and toward the month's cost.
pub fn cost_counted(r: &TokenRecord, today: &str, month_prefix: &str) -> (c: (bool, bool))
    ensures
        c == cost_counts(*r, today@, month_prefix@),
{
    let known = is_pro_model(r.model.as_str()) || is_standard_model(r.model.as_str());
    let date = chars_of(r.date.as_str());
    let prefix = chars_of(month_prefix);
    (known && str_eq(r.date.as_str(), today), known && starts_with_chars(&date, &prefix))
}

/// The prefix `YYYY-MM` of the dates of a month.
pub fn month_prefix(year: i32, month: u32) -> (r: String)
    ensures
        r@ == month_prefix_text(year as int, month as int),
{
    let mut r = String::new();
    if year >= 0 {
        push_padded(&mut r, year as u64, 4);
    } else {
        push_char(&mut r, '-');
        push_padded(&mut r, (-(year as i64)) as u64, 3);
    }
    push_char(&mut r, '-');
    push_padded(&mut r, month as u64, 2);
    r
}

// ---------------------------------------------------------------------------
// What a refresh reports
// ---------------------------------------------------------------------------

/// The outcome of a request is an expired login.
pub open spec fn is_unauthorized(outcome: Option<ApiError>) -> bool {
    outcome matches Some(ApiError::PlatformUnauthorized)
}

/// Some request found the login expired.
pub open spec fn any_unauthorized(failures: Seq<Option<ApiError>>) -> bool {
    exists|k: int| 0 <= k < failures.len() && is_unauthorized(#[trigger] failures[k])
}

/// The message of an expired login.
pub open spec fn unauthorized_message() -> Seq<char> {
    error_message(ApiError::PlatformUnauthorized)
}

/// `log` after recording the messages of the failed requests in order; a message of the
/// request at `earlier` (the extra usage list) that mentions "skip" is left out.
pub open spec fn logged_failures(
    failures: Seq<Option<ApiError>>,
    earlier: int,
    log: Seq<Seq<char>>,
) -> Seq<Seq<char>>
    decreases failures.len(),
{
    if failures.len() == 0 {
        log
    } else {
        let l = logged_failures(failures.drop_last(), earlier, log);
        match failures.last() {
            Some(e) => if failures.len() - 1 == earlier && contains_text(error_message(e), "skip"@) {
                l
            } else {
                with_message(l, error_message(e))
            },
            None => l,
        }
    }
}

/// The messages a refresh collects. With a session: the expired-login message first when
/// a request found the login expired, then each failure's message; without one, the
/// expired-login message when cookies are still saved on disk.
pub open spec fn refresh_messages(
    has_session: bool,
    failures: Seq<Option<ApiError>>,
    earlier: int,
    cookies_saved: bool,
) -> Seq<Seq<char>> {
    if has_session {
        let start = if any_unauthorized(failures) {
            seq![unauthorized_message()]
        } else {
            Seq::empty()
        };
        logged_failures(failures, earlier, start)
    } else if cookies_saved {
        seq![unauthorized_message()]
    } else {
        Seq::empty()
    }
}

/// What a refresh reports besides the figures.
pub struct RefreshReport {
    /// The error text shown to the user.
    pub error_message: Option<String>,
    /// Whether the platform session survives the refresh (else it is dropped).
    pub session_kept: bool,
    /// Whether the account's balance is known.
    pub account_available: bool,
}

/// Decides what a refresh reports from its requests' outcomes: `failures` holds, in
/// order, `None` for each request that succeeded and the error of each that failed;
/// `earlier` is the position of the extra usage list of the previous month.
pub fn refresh_report(
    has_session: bool,
    balance_loaded: bool,
    failures: &Vec<Option<ApiError>>,
    earlier: usize,
    cookies_saved: bool,
) -> (r: RefreshReport)
    ensures
        r.session_kept == (has_session && !any_unauthorized(failures@)),
        r.account_available == (has_session && balance_loaded && !any_unauthorized(failures@)),
        ({
            let msgs = refresh_messages(has_session, failures@, earlier as int, cookies_saved);
            &&& r.error_message is Some == error_text(msgs, unauthorized_message()) is Some
            &&& r.error_message matches Some(t) ==> t@ == error_text(
                msgs,
                unauthorized_message(),
            )->0
        }),
{
    let mut log = ErrorLog::new();
    let unauth = ApiError::PlatformUnauthorized.to_string();
    let mut expired = false;
    if has_session {
        let mut k: usize = 0;
        while k < failures.len()
            invariant
                k <= failures@.len(),
                expired == exists|j: int| 0 <= j < k && is_unauthorized(#[trigger] failures@[j]),
            decreases failures.len() - k,
        {
            match &failures[k] {
                Some(e) => {
                    if e.is_auth_error() {
                        expired = true;
                    }
                },
                None => {},
            }
            k += 1;
        }
        if expired {
            log.record(ApiError::PlatformUnauthorized.to_string());
            proof {
                assert(with_message(Seq::<Seq<char>>::empty(), unauthorized_message()) == seq![
                    unauthorized_message(),
                ]);
            }
        }
        let ghost start = log@;
        let mut k: usize = 0;
        while k < failures.len()
            invariant
                k <= failures@.len(),
                log@ == logged_failures(failures@.take(k as int), earlier as int, start),
            decreases failures.len() - k,
        {
            proof {
                let next = failures@.take(k + 1);
                assert(next.drop_last() == failures@.take(k as int));
                assert(next.last() == failures@[k as int]);
            }
            match &failures[k] {
                Some(e) => {
                    let msg = e.to_string();
                    if !(k == earlier && contains_str(msg.as_str(), "skip")) {
                        log.record(msg);
                    }
                },
                None => {},
            }
            k += 1;
        }
        proof {
            assert(failures@.take(failures@.len() as int) == failures@);
        }
    } else if cookies_saved {
        log.record(ApiError::PlatformUnauthorized.to_string());
        proof {
            assert(with_message(Seq::<Seq<char>>::empty(), unauthorized_message()) == seq![
                unauthorized_message(),
            ]);
        }
    }
    RefreshReport {
        error_message: log.error_text(unauth.as_str()),
        session_kept: has_session && !expired,
        account_available: has_session && balance_loaded && !expired,
    }
}

// ---------------------------------------------------------------------------
// What each figure of a day adds up
// ---------------------------------------------------------------------------

/// A record of family `pro` dated `date` adds each of its own figures to the day's
/// sums: tokens, cache hits, cache misses, output tokens, requests and audio seconds, in
/// that order of fields (wrapping like release builds); any other record leaves them.
pub proof fn law_day_sums_add_record_figures(
    records: Seq<TokenRecord>,
    r: TokenRecord,
    pro: bool,
    date: Seq<char>,
)
    ensures
        ({
            let before = date_sums(records, pro, date);
            let after = date_sums(records.push(r), pro, date);
            if family_of(r) == Some(pro) && r.date@ == date {
                &&& after.total == before.total.wrapping_add(r.total_token)
                &&& after.hit == before.hit.wrapping_add(r.input_hit_token)
                &&& after.miss == before.miss.wrapping_add(r.input_miss_token)
                &&& after.output == before.output.wrapping_add(r.output_token)
                &&& after.requests == before.requests.wrapping_add(r.request_count)
                &&& after.audio == before.audio.wrapping_add(r.input_audio_duration)
            } else {
                after == before
            }
        }),
        date_sums(Seq::<TokenRecord>::empty(), pro, date) == zero_sums(),
{
    assert(records.push(r).drop_last() == records);
    assert(records.push(r).last() == r);
}

/// The daily points of a single record of the family: one point, on its date, holding
/// exactly that record's figures.
pub proof fn law_single_record_point(r: TokenRecord, pro: bool, points: Seq<ModelDailyUsagePoint>)
    requires
        family_of(r) == Some(pro),
        daily_points_of(seq![r], pro, points),
    ensures
        points.len() == 1,
        points[0].date@ == r.date@,
        points[0].total_tokens == r.total_token,
        points[0].input_cache_hit_tokens == r.input_hit_token,
        points[0].input_cache_miss_tokens == r.input_miss_token,
        points[0].output_tokens == r.output_token,
        points[0].request_count == r.request_count,
        points[0].input_audio_duration == r.input_audio_duration,
{
    let rs = seq![r];
    let d = r.date@;
    assert(counted(rs[0], pro, d));
    assert(has_date(rs, pro, d));
    let k = choose|k: int| 0 <= k < points.len() && (#[trigger] points[k]).date@ == d;
    assert forall|j: int| 0 <= j < points.len() implies (#[trigger] points[j]).date@ == d by {
        let pd = points[j].date@;
        assert(exists|i: int| 0 <= i < points.len() && (#[trigger] points[i]).date@ == pd);
        assert(has_date(rs, pro, pd));
        let i = choose|i: int| 0 <= i < rs.len() && counted(#[trigger] rs[i], pro, pd);
        assert(rs[i] == r);
    }
    let ds = points.map_values(|p: ModelDailyUsagePoint| p.date@);
    if points.len() > 1 {
        assert(ds[0] == d && ds[1] == d);
        assert(text_lt(ds[0], ds[1]));
        lemma_text_lt_irreflexive(d);
    }
    assert(k == 0);
    law_day_sums_add_record_figures(Seq::<TokenRecord>::empty(), r, pro, d);
    assert(Seq::<TokenRecord>::empty().push(r) == rs);
    let z: i64 = 0;
    assert(z.wrapping_add(r.total_token) == r.total_token);
    assert(z.wrapping_add(r.input_hit_token) == r.input_hit_token);
    assert(z.wrapping_add(r.input_miss_token) == r.input_miss_token);
    assert(z.wrapping_add(r.output_token) == r.output_token);
    assert(z.wrapping_add(r.request_count) == r.request_count);
    assert(z.wrapping_add(r.input_audio_duration) == r.input_audio_duration);
    assert(point_sums(points[0]) == date_sums(rs, pro, d));
}

/// Today's figures add up the records of either family dated today: such a record adds
/// its requests, its tokens to its own family's count, and its audio seconds (wrapping
/// like release builds); any other record leaves them. The month's total of a family adds
/// the tokens of each of its records, whatever their date.
pub proof fn law_totals_add_record_figures(records: Seq<TokenRecord>, r: TokenRecord, today: Seq<char>, pro: bool)
    ensures
        ({
            let before = day_totals(records, today);
            let after = day_totals(records.push(r), today);
            match family_of(r) {
                Some(is_pro) => if r.date@ == today {
                    &&& after.requests == before.requests.wrapping_add(r.request_count)
                    &&& after.audio == before.audio.wrapping_add(r.input_audio_duration)
                    &&& after.pro_tokens == if is_pro {
                        before.pro_tokens.wrapping_add(r.total_token)
                    } else {
                        before.pro_tokens
                    }
                    &&& after.flash_tokens == if is_pro {
                        before.flash_tokens
                    } else {
                        before.flash_tokens.wrapping_add(r.total_token)
                    }
                } else {
                    after == before
                },
                None => after == before,
            }
        }),
        family_total(records.push(r), pro) == if family_of(r) == Some(pro) {
            family_total(records, pro).wrapping_add(r.total_token)
        } else {
            family_total(records, pro)
        },
{
    assert(records.push(r).drop_last() == records);
    assert(records.push(r).last() == r);
}

// ---------------------------------------------------------------------------
// The daily points add up to the month's total
// ---------------------------------------------------------------------------

/// The tokens of the daily points, added up in order (wrapping like release builds).
pub open spec fn points_total(points: Seq<ModelDailyUsagePoint>) -> i64
    decreases points.len(),
{
    if points.len() == 0 {
        0
    } else {
        points_total(points.drop_last()).wrapping_add(points.last().total_tokens)
    }
}

/// An integer brought into the range of `i64` as two's complement arithmetic does.
pub open spec fn wrap64(x: int) -> int {
    (x - i64::MIN) % 0x1_0000_0000_0000_0000 + i64::MIN
}

proof fn lemma_wrap_small(v: int)
    requires
        i64::MIN <= v <= i64::MAX,
    ensures
        wrap64(v) == v,
{
    vstd::arithmetic::div_mod::lemma_small_mod((v - i64::MIN) as nat, 0x1_0000_0000_0000_0000nat);
}

proof fn lemma_wrapping_add(a: i64, b: i64)
    ensures
        a.wrapping_add(b) as int == wrap64(a + b),
{
    let m: int = 0x1_0000_0000_0000_0000;
    let x = a + b - i64::MIN;
    if a + b > i64::MAX {
        vstd::arithmetic::div_mod::lemma_mod_sub_multiples_vanish(x, m);
        vstd::arithmetic::div_mod::lemma_small_mod((x - m) as nat, m as nat);
        lemma_wrap_small(a + b - m);
    } else if a + b < i64::MIN {
        vstd::arithmetic::div_mod::lemma_mod_add_multiples_vanish(x, m);
        vstd::arithmetic::div_mod::lemma_small_mod((x + m) as nat, m as nat);
    } else {
        lemma_wrap_small(a + b);
    }
}

proof fn lemma_wrap_add(x: int, y: int)
    ensures
        wrap64(wrap64(x) + y) == wrap64(x + y),
{
    let m: int = 0x1_0000_0000_0000_0000;
    vstd::arithmetic::div_mod::lemma_add_mod_noop_right(y, x - i64::MIN, m);
    assert(wrap64(x) + y - i64::MIN == y + (x - i64::MIN) % m);
}

/// The tokens of family `pro` dated `date`, as a mathematical sum.
pub open spec fn date_tokens(records: Seq<TokenRecord>, pro: bool, date: Seq<char>) -> int
    decreases records.len(),
{
    if records.len() == 0 {
        0
    } else {
        date_tokens(records.drop_last(), pro, date) + if counted(records.last(), pro, date) {
            records.last().total_token as int
        } else {
            0
        }
    }
}

/// The tokens of family `pro`, as a mathematical sum.
pub open spec fn family_tokens(records: Seq<TokenRecord>, pro: bool) -> int
    decreases records.len(),
{
    if records.len() == 0 {
        0
    } else {
        family_tokens(records.drop_last(), pro) + if family_of(records.last()) == Some(pro) {
            records.last().total_token as int
        } else {
            0
        }
    }
}

/// The tokens of the given days, as a mathematical sum.
pub open spec fn days_tokens(records: Seq<TokenRecord>, pro: bool, dates: Seq<Seq<char>>) -> int
    decreases dates.len(),
{
    if dates.len() == 0 {
        0
    } else {
        days_tokens(records, pro, dates.drop_last()) + date_tokens(records, pro, dates.last())
    }
}

proof fn lemma_date_sums_wrap(records: Seq<TokenRecord>, pro: bool, date: Seq<char>)
    ensures
        date_sums(records, pro, date).total as int == wrap64(date_tokens(records, pro, date)),
    decreases records.len(),
{
    if records.len() == 0 {
        lemma_wrap_small(0);
    } else {
        let rest = records.drop_last();
        lemma_date_sums_wrap(rest, pro, date);
        if counted(records.last(), pro, date) {
            lemma_wrapping_add(date_sums(rest, pro, date).total, records.last().total_token);
            lemma_wrap_add(date_tokens(rest, pro, date), records.last().total_token as int);
        }
    }
}

proof fn lemma_family_total_wrap(records: Seq<TokenRecord>, pro: bool)
    ensures
        family_total(records, pro) as int == wrap64(family_tokens(records, pro)),
    decreases records.len(),
{
    if records.len() == 0 {
        lemma_wrap_small(0);
    } else {
        let rest = records.drop_last();
        lemma_family_total_wrap(rest, pro);
        if family_of(records.last()) == Some(pro) {
            lemma_wrapping_add(family_total(rest, pro), records.last().total_token);
            lemma_wrap_add(family_tokens(rest, pro), records.last().total_token as int);
        }
    }
}

/// Distinct days.
pub open spec fn distinct_days(dates: Seq<Seq<char>>) -> bool {
    forall|i: int, j: int| 0 <= i < j < dates.len() ==> dates[i] != dates[j]
}

/// Adding a record to the days' tokens adds it once, on its own day.
proof fn lemma_days_tokens_step(records: Seq<TokenRecord>, pro: bool, dates: Seq<Seq<char>>)
    requires
        records.len() > 0,
        distinct_days(dates),
    ensures
        days_tokens(records, pro, dates) == days_tokens(records.drop_last(), pro, dates) + if family_of(
            records.last(),
        ) == Some(pro) && dates.contains(records.last().date@) {
            records.last().total_token as int
        } else {
            0
        },
    decreases dates.len(),
{
    if dates.len() > 0 {
        let rest = dates.drop_last();
        assert(distinct_days(rest)) by {
            assert forall|i: int, j: int| 0 <= i < j < rest.len() implies rest[i] != rest[j] by {
                assert(rest[i] == dates[i] && rest[j] == dates[j]);
            }
        }
        lemma_days_tokens_step(records, pro, rest);
        let r = records.last();
        let d = dates.last();
        if r.date@ == d {
            assert(!rest.contains(d)) by {
                if rest.contains(d) {
                    let i = choose|i: int| 0 <= i < rest.len() && rest[i] == d;
                    assert(dates[i] == rest[i]);
                }
            }
        }
        assert(dates.contains(r.date@) == (rest.contains(r.date@) || d == r.date@)) by {
            if dates.contains(r.date@) {
                let i = choose|i: int| 0 <= i < dates.len() && dates[i] == r.date@;
                if i < rest.len() {
                    assert(rest[i] == dates[i]);
                }
            }
            if rest.contains(r.date@) {
                let i = choose|i: int| 0 <= i < rest.len() && rest[i] == r.date@;
                assert(dates[i] == rest[i]);
            }
            if d == r.date@ {
                assert(dates[dates.len() - 1] == d);
            }
        }
    }
}

/// The tokens of a family's days add up to its tokens, given every day of it once.
proof fn lemma_days_cover(records: Seq<TokenRecord>, pro: bool, dates: Seq<Seq<char>>)
    requires
        distinct_days(dates),
        forall|d: Seq<char>| has_date(records, pro, d) ==> dates.contains(d),
    ensures
        days_tokens(records, pro, dates) == family_tokens(records, pro),
    decreases records.len(),
{
    if records.len() == 0 {
        assert forall|k: int| 0 <= k <= dates.len() implies days_tokens(records, pro, dates.take(k)) == 0 by {
            lemma_days_empty(records, pro, dates, k);
        }
        assert(dates.take(dates.len() as int) == dates);
    } else {
        let rest = records.drop_last();
        assert forall|d: Seq<char>| has_date(rest, pro, d) implies dates.contains(d) by {
            let j = choose|j: int| 0 <= j < rest.len() && counted(#[trigger] rest[j], pro, d);
            assert(records[j] == rest[j]);
            assert(has_date(records, pro, d));
        }
        lemma_days_cover(rest, pro, dates);
        lemma_days_tokens_step(records, pro, dates);
        let r = records.last();
        if family_of(r) == Some(pro) {
            assert(counted(records[records.len() - 1], pro, r.date@));
            assert(has_date(records, pro, r.date@));
        }
    }
}

proof fn lemma_days_empty(records: Seq<TokenRecord>, pro: bool, dates: Seq<Seq<char>>, k: int)
    requires
        records.len() == 0,
        0 <= k <= dates.len(),
    ensures
        days_tokens(records, pro, dates.take(k)) == 0,
    decreases k,
{
    if k > 0 {
        assert(dates.take(k).drop_last() == dates.take(k - 1));
        lemma_days_empty(records, pro, dates, k - 1);
    }
}

proof fn lemma_points_total_wrap(records: Seq<TokenRecord>, pro: bool, points: Seq<ModelDailyUsagePoint>)
    requires
        forall|k: int|
            0 <= k < points.len() ==> point_sums(#[trigger] points[k]) == date_sums(
                records,
                pro,
                points[k].date@,
            ),
    ensures
        points_total(points) as int == wrap64(
            days_tokens(records, pro, points.map_values(|p: ModelDailyUsagePoint| p.date@)),
        ),
    decreases points.len(),
{
    let ds = points.map_values(|p: ModelDailyUsagePoint| p.date@);
    if points.len() == 0 {
        lemma_wrap_small(0);
    } else {
        let rest = points.drop_last();
        assert forall|k: int| 0 <= k < rest.len() implies point_sums(#[trigger] rest[k]) == date_sums(
            records,
            pro,
            rest[k].date@,
        ) by {
            assert(rest[k] == points[k]);
        }
        lemma_points_total_wrap(records, pro, rest);
        assert(ds.drop_last() == rest.map_values(|p: ModelDailyUsagePoint| p.date@));
        let q = points.last();
        assert(point_sums(points[points.len() - 1]) == date_sums(records, pro, q.date@));
        lemma_date_sums_wrap(records, pro, q.date@);
        let a = days_tokens(records, pro, ds.drop_last());
        let b = date_tokens(records, pro, q.date@);
        lemma_wrapping_add(points_total(rest), q.total_tokens);
        lemma_wrap_add(a, q.total_tokens as int);
        lemma_wrap_add(b, a);
        assert(a + wrap64(b) == wrap64(b) + a);
        assert(b + a == a + b);
    }
}

/// A family's daily points add up to its total for the month: the chart and the month's
/// summary count the same tokens.
pub proof fn law_daily_points_add_up(records: Seq<TokenRecord>, pro: bool, points: Seq<ModelDailyUsagePoint>)
    requires
        daily_points_of(records, pro, points),
    ensures
        points_total(points) == family_total(records, pro),
{
    let ds = points.map_values(|p: ModelDailyUsagePoint| p.date@);
    assert forall|k: int| 0 <= k < points.len() implies point_sums(#[trigger] points[k]) == date_sums(
        records,
        pro,
        points[k].date@,
    ) by {}
    lemma_points_total_wrap(records, pro, points);
    assert(distinct_days(ds)) by {
        assert forall|i: int, j: int| 0 <= i < j < ds.len() implies ds[i] != ds[j] by {
            lemma_text_lt_irreflexive(ds[i]);
        }
    }
    assert forall|d: Seq<char>| has_date(records, pro, d) implies ds.contains(d) by {
        let k = choose|k: int| 0 <= k < points.len() && (#[trigger] points[k]).date@ == d;
        assert(ds[k] == d);
    }
    lemma_days_cover(records, pro, ds);
    lemma_family_total_wrap(records, pro);
}

// ---------------------------------------------------------------------------
// Daily costs
// ---------------------------------------------------------------------------

/// The cost in cents recorded last for `date`, if any.
pub open spec fn cents_for(cents: Seq<(String, i64)>, date: Seq<char>) -> Option<i64>
    decreases cents.len(),
{
    if cents.len() == 0 {
        None
    } else if cents.last().0@ == date {
        Some(cents.last().1)
    } else {
        cents_for(cents.drop_last(), date)
    }
}

/// `p` is `q` with its cost taken from `cents` when `cents` has one for its date.
pub open spec fn with_cost(q: ModelDailyUsagePoint, p: ModelDailyUsagePoint, cents: Seq<(String, i64)>) -> bool {
    &&& p.date@ == q.date@
    &&& p.label@ == q.label@
    &&& point_sums(p) == point_sums(q)
    &&& p.cost_in_cents == match cents_for(cents, q.date@) {
        Some(c) => c,
        None => q.cost_in_cents,
    }
}

fn cents_of(cents: &Vec<(String, i64)>, date: &str) -> (r: Option<i64>)
    ensures
        r == cents_for(cents@, date@),
{
    let mut found: Option<i64> = None;
    let mut i: usize = 0;
    while i < cents.len()
        invariant
            i <= cents.len(),
            found == cents_for(cents@.take(i as int), date@),
        decreases cents.len() - i,
    {
        proof {
            assert(cents@.take(i + 1).drop_last() == cents@.take(i as int));
            assert(cents@.take(i + 1).last() == cents@[i as int]);
        }
        if str_eq(cents[i].0.as_str(), date) {
            found = Some(cents[i].1);
        }
        i += 1;
    }
    proof {
        assert(cents@.take(cents.len() as int) == cents@);
    }
    found
}

/// The daily points with the cost of each day, in cents, taken from `cents`.
pub fn with_daily_costs(points: &Vec<ModelDailyUsagePoint>, cents: &Vec<(String, i64)>) -> (r: Vec<
    ModelDailyUsagePoint,
>)
    ensures
        r@.len() == points@.len(),
        forall|k: int| 0 <= k < r@.len() ==> with_cost(points@[k], #[trigger] r@[k], cents@),
{
    let mut r: Vec<ModelDailyUsagePoint> = Vec::new();
    let mut k: usize = 0;
    while k < points.len()
        invariant
            k <= points.len(),
            r@.len() == k,
            forall|j: int| 0 <= j < k ==> with_cost(points@[j], #[trigger] r@[j], cents@),
        decreases points.len() - k,
    {
        let q = &points[k];
        let cost = match cents_of(cents, q.date.as_str()) {
            Some(c) => c,
            None => q.cost_in_cents,
        };
        r.push(
            ModelDailyUsagePoint {
                date: q.date.clone(),
                label: q.label.clone(),
                total_tokens: q.total_tokens,
                input_cache_hit_tokens: q.input_cache_hit_tokens,
                input_cache_miss_tokens: q.input_cache_miss_tokens,
                output_tokens: q.output_tokens,
                request_count: q.request_count,
                cost_in_cents: cost,
                input_audio_duration: q.input_audio_duration,
            },
        );
        k += 1;
    }
    r
}

// ---------------------------------------------------------------------------
// The mark of a refresh in progress
// ---------------------------------------------------------------------------

/// Holds the mark that a MiMo refresh is in progress; `finish` clears it.
pub struct RefreshGuard<'a> {
    flag: &'a AtomicBool,
}

impl<'a> RefreshGuard<'a> {
    /// The mark this guard clears.
    pub closed spec fn flag(&self) -> &'a AtomicBool {
        self.flag
    }

    /// A guard of the mark `flag`, which the caller has just set.
    pub fn new(flag: &'a AtomicBool) -> (r: Self)
        ensures
            r.flag() == flag,
    {
        RefreshGuard { flag }
    }

    /// Clears the mark: the refresh is over.
    pub fn finish(&self) {
        self.flag.store(false, std::sync::atomic::Ordering::Release);
    }
}

} // verus!
