use vstd::prelude::*;
use vstd::utf8::encode_utf8;
use crate::calendar::{push_padded, zero_padded};
use crate::numbers::push_int;
use crate::text::{chars_of, decimal_text, owned, push_char, str_eq, string_from_chars, trim_bounds, trim_text};

verus! {

// ---------------------------------------------------------------------------
// Checks of the values the settings page saves
// ---------------------------------------------------------------------------

/// `s.trim()`, as an owned string.
fn trimmed(s: &str) -> (r: String)
    ensures
        r@ == trim_text(s@, false),
{
    let v = chars_of(s);
    let (a, b) = trim_bounds(&v, 0, v.len(), false);
    proof {
        assert(v@.subrange(0, v@.len() as int) == v@);
    }
    string_from_chars(&v, a, b)
}

/// The length in bytes (UTF-8) of a text.
pub open spec fn byte_len(s: Seq<char>) -> int {
    encode_utf8(s).len() as int
}

fn byte_length(s: &String) -> (n: usize)
    ensures
        n == byte_len(s@),
{
    broadcast use vstd::utf8::group_utf8_lib;

    s.as_str().as_bytes().len()
}

/// The outcome of saving an API key: the trimmed key, unless it is empty or longer than
/// 256 bytes.
pub open spec fn api_key_outcome(key: Seq<char>) -> Result<Seq<char>, Seq<char>> {
    let value = trim_text(key, false);
    if value.len() == 0 {
        Err("API Key 不能为空"@)
    } else if byte_len(value) > 256 {
        Err("API Key 长度超出限制"@)
    } else {
        Ok(value)
    }
}

/// Checks an API key before it is saved; gives the key to save.
pub fn validate_api_key(api_key: &str) -> (r: Result<String, String>)
    ensures
        match r {
            Ok(v) => api_key_outcome(api_key@) == Ok::<Seq<char>, Seq<char>>(v@),
            Err(e) => api_key_outcome(api_key@) == Err::<Seq<char>, Seq<char>>(e@),
        },
{
    let value = trimmed(api_key);
    if value.as_str().is_empty() {
        return Err(owned("API Key 不能为空"));
    }
    if byte_length(&value) > 256 {
        return Err(owned("API Key 长度超出限制"));
    }
    Ok(value)
}

/// The outcome of saving a usage token: it is refused when, trimmed, it is empty or
/// longer than 4096 bytes (the token itself is saved as given).
pub open spec fn usage_token_outcome(token: Seq<char>) -> Result<(), Seq<char>> {
    let value = trim_text(token, false);
    if value.len() == 0 {
        Err("用量 Token 不能为空"@)
    } else if byte_len(value) > 4096 {
        Err("用量 Token 长度超出限制"@)
    } else {
        Ok(())
    }
}

/// Checks a usage token before it is saved.
pub fn validate_usage_token(usage_token: &str) -> (r: Result<(), String>)
    ensures
        match r {
            Ok(_) => usage_token_outcome(usage_token@) is Ok,
            Err(e) => usage_token_outcome(usage_token@) == Err::<(), Seq<char>>(e@),
        },
{
    let value = trimmed(usage_token);
    if value.as_str().is_empty() {
        return Err(owned("用量 Token 不能为空"));
    }
    if byte_length(&value) > 4096 {
        return Err(owned("用量 Token 长度超出限制"));
    }
    Ok(())
}

/// The themes the settings page offers.
pub open spec fn is_theme(theme: Seq<char>) -> bool {
    theme == "light"@ || theme == "dark"@ || theme == "system"@
}

/// Checks a theme before it is saved.
pub fn validate_theme(theme: &str) -> (r: Result<(), String>)
    ensures
        r is Ok == is_theme(theme@),
        r matches Err(e) ==> e@ == "无效主题"@,
{
    if str_eq(theme, "light") || str_eq(theme, "dark") || str_eq(theme, "system") {
        Ok(())
    } else {
        Err(owned("无效主题"))
    }
}

/// The platforms whose usage is shown.
pub open spec fn is_provider(provider: Seq<char>) -> bool {
    provider == "deepseek"@ || provider == "mimo"@
}

/// Checks the platform shown first before it is saved.
pub fn validate_default_provider(provider: &str) -> (r: Result<(), String>)
    ensures
        r is Ok == is_provider(provider@),
        r matches Err(e) ==> e@ == "无效平台"@,
{
    if str_eq(provider, "deepseek") || str_eq(provider, "mimo") {
        Ok(())
    } else {
        Err(owned("无效平台"))
    }
}

/// Checks the platform chosen for the balance view before it is saved.
pub fn validate_provider(provider: &str) -> (r: Result<(), String>)
    ensures
        r is Ok == is_provider(provider@),
        r matches Err(e) ==> e@ == "无效的 provider，仅支持 deepseek 或 mimo"@,
{
    if str_eq(provider, "deepseek") || str_eq(provider, "mimo") {
        Ok(())
    } else {
        Err(owned("无效的 provider，仅支持 deepseek 或 mimo"))
    }
}

/// The setting whose change reaches the refresh timer at once.
pub open spec fn interval_key() -> Seq<char> {
    "refresh_interval"@
}

/// `s.parse::<u64>().ok()`.
pub open spec fn parsed_u64(s: Seq<char>) -> Option<u64> {
    crate::numbers::parsed_unsigned(s)
}

/// The new refresh interval a saved setting carries: the value of `refresh_interval`
/// when it parses as a whole number of seconds.
pub fn interval_change(key: &str, value: &str) -> (r: Option<u64>)
    ensures
        r == if key@ == interval_key() {
            parsed_u64(value@)
        } else {
            None
        },
{
    if str_eq(key, "refresh_interval") {
        crate::numbers::parse_u64(value)
    } else {
        None
    }
}

// ---------------------------------------------------------------------------
// Updates
// ---------------------------------------------------------------------------

/// The release date of an update as `{year}-{month:02}-{day:02}`.
pub open spec fn release_date_text(year: int, month: int, day: int) -> Seq<char> {
    decimal_text(year) + seq!['-'] + zero_padded(month as nat, 2) + seq!['-'] + zero_padded(
        day as nat,
        2,
    )
}

/// The release date of an update.
pub fn release_date(year: i32, month: u8, day: u8) -> (r: String)
    ensures
        r@ == release_date_text(year as int, month as int, day as int),
{
    let mut r = String::new();
    push_int(&mut r, year as i64);
    push_char(&mut r, '-');
    push_padded(&mut r, month as u64, 2);
    push_char(&mut r, '-');
    push_padded(&mut r, day as u64, 2);
    r
}

/// What the installer reports for a downloaded chunk.
#[derive(PartialEq, Eq, Structural)]
pub enum DownloadEvent {
    /// The download started; the total length when known.
    Started(Option<u64>),
    /// A chunk arrived; its length and the bytes downloaded so far.
    Progress(usize, u64),
}

/// The progress of an update's download.
pub struct DownloadProgress {
    pub started: bool,
    pub downloaded: u64,
}

impl DownloadProgress {
    /// Nothing downloaded yet.
    pub fn new() -> (r: DownloadProgress)
        ensures
            !r.started,
            r.downloaded == 0,
    {
        DownloadProgress { started: false, downloaded: 0 }
    }

    /// Takes a chunk: the first one reports the start, each one its progress (the count
    /// wraps like release builds).
    pub fn on_chunk(&mut self, chunk_len: usize, content_len: Option<u64>) -> (events: Vec<
        DownloadEvent,
    >)
        ensures
            final(self).started,
            final(self).downloaded == old(self).downloaded.wrapping_add(chunk_len as u64),
            events@ == if old(self).started {
                seq![DownloadEvent::Progress(chunk_len, final(self).downloaded)]
            } else {
                seq![
                    DownloadEvent::Started(content_len),
                    DownloadEvent::Progress(chunk_len, final(self).downloaded),
                ]
            },
    {
        let mut events: Vec<DownloadEvent> = Vec::new();
        if !self.started {
            events.push(DownloadEvent::Started(content_len));
            self.started = true;
        }
        self.downloaded = self.downloaded.wrapping_add(chunk_len as u64);
        events.push(DownloadEvent::Progress(chunk_len, self.downloaded));
        events
    }
}

} // verus!
