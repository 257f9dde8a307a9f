use vstd::prelude::*;
use vstd::string::StringSliceAdditionalSpecFns;
use vstd::utf8::{decode_utf8, encode_utf8, is_char_boundary};
use crate::numbers::{grouped_number, grouped_number_string, push_decimal};
use crate::text::{
    chars_of, contains_str, contains_text, decimal_digits, lowercase_text, owned,
    push_str, split_bounds, split_pieces, starts_with_chars, starts_with_text, string_from_chars,
    to_lowercase, trim_bounds, trim_text,
};

verus! {

/// Failures of the MiMo platform requests.
pub enum ApiError {
    PlatformUnauthorized,
    RateLimited,
    Http(String),
}

/// The message shown to the user for an error.
pub open spec fn error_message(e: ApiError) -> Seq<char> {
    match e {
        ApiError::PlatformUnauthorized => "登录已过期，请重新登录"@,
        ApiError::RateLimited => "请求过于频繁"@,
        ApiError::Http(m) => "请求失败: "@ + m@,
    }
}

impl ApiError {
    /// The message shown to the user for this error.
    pub fn to_string(&self) -> (r: String)
        ensures
            r@ == error_message(*self),
    {
        let mut r = String::new();
        match self {
            ApiError::PlatformUnauthorized => push_str(&mut r, "登录已过期，请重新登录"),
            ApiError::RateLimited => push_str(&mut r, "请求过于频繁"),
            ApiError::Http(m) => {
                push_str(&mut r, "请求失败: ");
                push_str(&mut r, m.as_str());
            },
        }
        r
    }

    /// Whether the error means that the login expired.
    pub fn is_auth_error(&self) -> (r: bool)
        ensures
            r == (*self matches ApiError::PlatformUnauthorized),
    {
        match self {
            ApiError::PlatformUnauthorized => true,
            _ => false,
        }
    }
}

// ---------------------------------------------------------------------------
// Model families
// ---------------------------------------------------------------------------

/// A lowercased model name that names a Pro model.
pub open spec fn pro_marker(lower: Seq<char>) -> bool {
    contains_text(lower, "pro"@)
}

/// A lowercased model name that names a Standard model.
pub open spec fn standard_marker(lower: Seq<char>) -> bool {
    !contains_text(lower, "pro"@) && (contains_text(lower, "mimo"@) || contains_text(lower, "standard"@)
        || contains_text(lower, "v2"@))
}

pub open spec fn is_pro_name(name: Seq<char>) -> bool {
    pro_marker(lowercase_text(name))
}

pub open spec fn is_standard_name(name: Seq<char>) -> bool {
    standard_marker(lowercase_text(name))
}

/// Whether an already lowercased model name names a Pro model.
pub fn has_pro_marker(lower: &str) -> (r: bool)
    ensures
        r == pro_marker(lower@),
{
    contains_str(lower, "pro")
}

/// Whether an already lowercased model name names a Standard model.
pub fn has_standard_marker(lower: &str) -> (r: bool)
    ensures
        r == standard_marker(lower@),
{
    !contains_str(lower, "pro") && (contains_str(lower, "mimo") || contains_str(lower, "standard")
        || contains_str(lower, "v2"))
}

/// Whether a model name (in any case) names a Pro model.
pub fn is_pro_model(name: &str) -> (r: bool)
    ensures
        r == is_pro_name(name@),
{
    let lower = to_lowercase(name);
    has_pro_marker(lower.as_str())
}

/// Whether a model name (in any case) names a Standard model.
pub fn is_standard_model(name: &str) -> (r: bool)
    ensures
        r == is_standard_name(name@),
{
    let lower = to_lowercase(name);
    has_standard_marker(lower.as_str())
}

// ---------------------------------------------------------------------------
// Reply bodies
// ---------------------------------------------------------------------------

/// The largest character boundary of `bytes` that is at most `max`.
pub open spec fn boundary_at_most(bytes: Seq<u8>, max: int) -> int
    decreases max,
{
    if max <= 0 {
        0
    } else if is_char_boundary(bytes, max) {
        max
    } else {
        boundary_at_most(bytes, max - 1)
    }
}

/// At most `max` bytes of `s`, cut at a character boundary.
pub open spec fn truncated(s: Seq<char>, max: int) -> Seq<char> {
    let bytes = encode_utf8(s);
    if bytes.len() <= max {
        s
    } else {
        decode_utf8(bytes.subrange(0, boundary_at_most(bytes, max)))
    }
}

/// At most `max_bytes` bytes of `s`, never cutting a character in two.
pub fn safe_truncate(s: &str, max_bytes: usize) -> (r: &str)
    ensures
        r@ == truncated(s@, max_bytes as int),
{
    broadcast use vstd::utf8::group_utf8_lib;

    if s.as_bytes().len() <= max_bytes {
        return s;
    }
    let ghost bytes = s.spec_bytes();
    let mut end = max_bytes;
    while end > 0 && !s.is_char_boundary(end)
        invariant
            end <= max_bytes < bytes.len(),
            bytes == s.spec_bytes(),
            boundary_at_most(bytes, end as int) == boundary_at_most(bytes, max_bytes as int),
        decreases end,
    {
        end -= 1;
    }
    proof {
        vstd::utf8::encode_utf8_valid_utf8(s@);
        vstd::utf8::is_char_boundary_start_end_of_seq(bytes);
        assert(is_char_boundary(bytes, end as int));
    }
    let (head, _) = s.split_at(end);
    proof {
        assert(head.spec_bytes() == encode_utf8(head@));
        assert(decode_utf8(encode_utf8(head@)) == head@);
    }
    head
}

/// Strictly checked replies: `Ok` for a success status, else the error to report.
pub open spec fn status_outcome(status: u16, body: Seq<char>, r: Result<(), ApiError>) -> bool {
    if 200 <= status <= 299 {
        r is Ok
    } else if status == 401 || status == 403 {
        r matches Err(ApiError::PlatformUnauthorized)
    } else {
        r matches Err(ApiError::Http(m)) && m@ == "HTTP "@ + decimal_digits(status as nat) + ": "@
            + truncated(body, 500)
    }
}

/// Checks the status of a reply whose failure is reported.
pub fn check_status(status: u16, body: &str) -> (r: Result<(), ApiError>)
    ensures
        status_outcome(status, body@, r),
{
    if 200 <= status && status <= 299 {
        return Ok(());
    }
    let short = safe_truncate(body, 500);
    if status == 401 || status == 403 {
        return Err(ApiError::PlatformUnauthorized);
    }
    let mut m = String::new();
    push_str(&mut m, "HTTP ");
    push_decimal(&mut m, status as u64);
    push_str(&mut m, ": ");
    push_str(&mut m, short);
    Err(ApiError::Http(m))
}

/// A reply whose `code` is not 0 means that the login is no longer accepted.
pub fn check_code(code: i32) -> (r: Result<(), ApiError>)
    ensures
        code == 0 ==> r is Ok,
        code != 0 ==> r matches Err(ApiError::PlatformUnauthorized),
{
    if code != 0 {
        Err(ApiError::PlatformUnauthorized)
    } else {
        Ok(())
    }
}

/// The error of a reply body that does not parse.
pub fn parse_error(detail: &str) -> (r: ApiError)
    ensures
        r matches ApiError::Http(m) && m@ == "parse: "@ + detail@,
{
    let mut m = String::new();
    push_str(&mut m, "parse: ");
    push_str(&mut m, detail);
    ApiError::Http(m)
}

/// How a reply of the token plan endpoints is taken: these treat most failures as
/// "no plan data".
#[derive(PartialEq, Eq, Structural)]
pub enum PlanReply {
    /// Parse the body.
    Parse,
    /// Use an empty reply.
    Empty,
    /// Report an expired login.
    Unauthorized,
}

/// How a token plan reply with this status and body is taken.
pub fn plan_reply(status: u16, body: &str) -> (r: PlanReply)
    ensures
        r == if !(200 <= status <= 299) {
            if status == 401 || status == 403 {
                PlanReply::Unauthorized
            } else {
                PlanReply::Empty
            }
        } else if body@.len() == 0 {
            PlanReply::Empty
        } else {
            PlanReply::Parse
        },
{
    if !(200 <= status && status <= 299) {
        if status == 401 || status == 403 {
            PlanReply::Unauthorized
        } else {
            PlanReply::Empty
        }
    } else if body.is_empty() {
        PlanReply::Empty
    } else {
        PlanReply::Parse
    }
}

// ---------------------------------------------------------------------------
// The `api-platform_ph` parameter
// ---------------------------------------------------------------------------

/// The value of an `api-platform_ph=` cookie piece, without surrounding quotes.
pub open spec fn ph_of_piece(piece: Seq<char>) -> Option<Seq<char>> {
    let t = trim_text(piece, false);
    let prefix = "api-platform_ph="@;
    if starts_with_text(t, prefix) {
        Some(trim_text(t.subrange(prefix.len() as int, t.len() as int), true))
    } else {
        None
    }
}

/// The value of the first `api-platform_ph` cookie among `pieces[from..]`.
pub open spec fn first_ph(pieces: Seq<Seq<char>>, from: int) -> Option<Seq<char>>
    decreases pieces.len() - from,
{
    if from >= pieces.len() || from < 0 {
        None
    } else {
        match ph_of_piece(pieces[from]) {
            Some(v) => Some(v),
            None => first_ph(pieces, from + 1),
        }
    }
}

/// The value of the `api-platform_ph` cookie in a cookie header.
pub open spec fn ph_of_cookies(cookies: Seq<char>) -> Option<Seq<char>> {
    first_ph(split_pieces(cookies, ';'), 0)
}

/// The value of the `api-platform_ph` cookie in an optional cookie header.
pub open spec fn cookie_ph(cookies: Option<&str>) -> Option<Seq<char>> {
    match cookies {
        Some(c) => ph_of_cookies(c@),
        None => None,
    }
}

/// The `api-platform_ph` cookie of a cookie header, if any.
pub fn extract_ph_from_cookies(cookies: Option<&str>) -> (r: Option<String>)
    ensures
        r is Some == cookie_ph(cookies) is Some,
        r matches Some(v) ==> v@ == cookie_ph(cookies)->0,
{
    if cookies.is_none() {
        return None;
    }
    let c = cookies.unwrap();
    assert(cookies == Some(c));
    let v = chars_of(c);
    let pieces = split_bounds(&v, ';');
    let prefix = chars_of("api-platform_ph=");
    let ghost ps = split_pieces(v@, ';');
    let mut k: usize = 0;
    while k < pieces.len()
        invariant
            k <= pieces.len(),
            cookies == Some(c),
            v@ == c@,
            ps == split_pieces(v@, ';'),
            prefix@ == "api-platform_ph="@,
            pieces@.len() == ps.len(),
            forall|j: int|
                0 <= j < pieces@.len() ==> {
                    &&& (#[trigger] pieces@[j]).0 <= pieces@[j].1 <= v@.len()
                    &&& v@.subrange(pieces@[j].0 as int, pieces@[j].1 as int) == ps[j]
                },
            first_ph(ps, 0) == first_ph(ps, k as int),
        decreases pieces.len() - k,
    {
        let (s0, s1) = pieces[k];
        let (a, b) = trim_bounds(&v, s0, s1, false);
        let t = string_from_chars(&v, a, b);
        let tv = chars_of(t.as_str());
        let ghost piece = ps[k as int];
        if starts_with_chars(&tv, &prefix) {
            let (qa, qb) = trim_bounds(&tv, prefix.len(), tv.len(), true);
            let val = string_from_chars(&tv, qa, qb);
            proof {
                assert(ph_of_piece(piece) == Some(val@));
                assert(first_ph(ps, k as int) == Some(val@));
                assert(ph_of_cookies(c@) == Some(val@));
            }
            return Some(val);
        }
        proof {
            assert(first_ph(ps, k as int) == first_ph(ps, k + 1));
        }
        k += 1;
    }
    None
}

/// What `urlencoding::encode` leaves as it is: ASCII letters and digits, `-`, `.`, `_`, `~`.
pub open spec fn is_unreserved(b: u8) -> bool {
    (48 <= b <= 57) || (65 <= b <= 90) || (97 <= b <= 122) || b == 45 || b == 46 || b == 95 || b == 126
}

/// An upper-case hexadecimal digit.
pub open spec fn hex_digit(d: u8) -> char {
    if d < 10 {
        (48 + d) as char
    } else {
        (55 + d) as char
    }
}

/// `urlencoding::encode`: each byte that is not unreserved becomes `%XX`.
pub open spec fn percent_encoded(bytes: Seq<u8>) -> Seq<char>
    decreases bytes.len(),
{
    if bytes.len() == 0 {
        Seq::empty()
    } else {
        let b = bytes.last();
        percent_encoded(bytes.drop_last()) + if is_unreserved(b) {
            seq![b as char]
        } else {
            seq!['%', hex_digit(b / 16), hex_digit(b % 16)]
        }
    }
}

/// `urlencoding::encode`, which percent-encodes every byte of the UTF-8 text except
/// ASCII letters, digits and `-._~`.
#[verifier::external_body]
fn url_encode(s: &str) -> (r: String)
    ensures
        r@ == percent_encoded(s.spec_bytes()),
{
    urlencoding::encode(s).into_owned()
}

/// The request URL with the `api-platform_ph` cookie value appended as a query parameter.
pub open spec fn url_with_ph(url: Seq<char>, ph: Option<Seq<char>>) -> Seq<char> {
    match ph {
        Some(v) => url + (if contains_text(url, "?"@) {
            "&api-platform_ph="@
        } else {
            "?api-platform_ph="@
        }) + percent_encoded(encode_utf8(v)),
        None => url,
    }
}

/// Appends the `api-platform_ph` cookie value (if the cookies hold one) to a request URL.
pub fn append_ph(url: &str, cookies: Option<&str>) -> (r: String)
    ensures
        r@ == url_with_ph(url@, cookie_ph(cookies)),
{
    match extract_ph_from_cookies(cookies) {
        Some(ph) => {
            let encoded = url_encode(ph.as_str());
            let mut r = owned(url);
            if contains_str(url, "?") {
                push_str(&mut r, "&api-platform_ph=");
            } else {
                push_str(&mut r, "?api-platform_ph=");
            }
            push_str(&mut r, encoded.as_str());
            r
        },
        None => owned(url),
    }
}

/// An integer with thousands separators, e.g. `-1,234,567`.
pub fn format_number(n: i64) -> (r: String)
    ensures
        r@ == grouped_number(n as int),
{
    grouped_number_string(n)
}

} // verus!
