use vstd::prelude::*;
use crate::numbers::{lemma_parse_i32_decimal, parse_i32, push_int};
use crate::text::{decimal_text, owned, parsed_i32, push_char, push_str, str_eq};

verus! {

// ---------------------------------------------------------------------------
// The settings document
// ---------------------------------------------------------------------------

/// A value in the settings document, as far as the settings read it.
pub enum SettingValue {
    /// A JSON string.
    Text(String),
    /// A JSON boolean.
    Flag(bool),
    /// Any other JSON value, as JSON text (kept as it is).
    Other(String),
}

/// What the settings file holds.
pub enum SettingsFile {
    /// No settings file, one that cannot be read, or one that is not JSON.
    Unreadable,
    /// A JSON `null`.
    Null,
    /// A JSON object: its entries, where a later entry of a key replaces an earlier one.
    Object(Vec<(String, SettingValue)>),
    /// Another JSON value (an array, a number, a string or a boolean).
    OtherValue,
}

/// The value of `key` among `entries`: that of its last entry.
pub open spec fn entry_value(entries: Seq<(String, SettingValue)>, key: Seq<char>) -> Option<
    SettingValue,
>
    decreases entries.len(),
{
    if entries.len() == 0 {
        None
    } else if entries.last().0@ == key {
        Some(entries.last().1)
    } else {
        entry_value(entries.drop_last(), key)
    }
}

/// The value of a setting: only an object has settings.
pub open spec fn setting_value(file: SettingsFile, key: Seq<char>) -> Option<SettingValue> {
    match file {
        SettingsFile::Object(entries) => entry_value(entries@, key),
        _ => None,
    }
}

/// A setting read as text: present only when it is a JSON string.
pub open spec fn text_setting(file: SettingsFile, key: Seq<char>) -> Option<Seq<char>> {
    match setting_value(file, key) {
        Some(SettingValue::Text(s)) => Some(s@),
        _ => None,
    }
}

/// A setting read as a flag: true only for the JSON `true`.
pub open spec fn flag_setting(file: SettingsFile, key: Seq<char>) -> bool {
    setting_value(file, key) matches Some(SettingValue::Flag(true))
}

/// A setting can be written unless the file holds JSON that is neither an object nor
/// `null` (writing into such a value panics).
pub open spec fn writable(file: SettingsFile) -> bool {
    !(file is OtherValue)
}

/// The position of the last entry of `key`.
fn last_entry(entries: &Vec<(String, SettingValue)>, key: &str) -> (r: Option<usize>)
    ensures
        match r {
            Some(k) => {
                &&& k < entries@.len()
                &&& entries@[k as int].0@ == key@
                &&& forall|j: int| k < j < entries@.len() ==> (#[trigger] entries@[j]).0@ != key@
            },
            None => forall|j: int| 0 <= j < entries@.len() ==> (#[trigger] entries@[j]).0@ != key@,
        },
{
    let mut k: usize = entries.len();
    while k > 0
        invariant
            k <= entries@.len(),
            forall|j: int| k <= j < entries@.len() ==> (#[trigger] entries@[j]).0@ != key@,
        decreases k,
    {
        if str_eq(entries[k - 1].0.as_str(), key) {
            return Some(k - 1);
        }
        k -= 1;
    }
    None
}

proof fn lemma_entry_value_after(entries: Seq<(String, SettingValue)>, k: int, key: Seq<char>)
    requires
        0 <= k < entries.len(),
        entries[k].0@ == key,
        forall|j: int| k < j < entries.len() ==> (#[trigger] entries[j]).0@ != key,
    ensures
        entry_value(entries, key) == Some(entries[k].1),
    decreases entries.len(),
{
    if k < entries.len() - 1 {
        assert(entries.drop_last()[k] == entries[k]);
        assert forall|j: int| k < j < entries.drop_last().len() implies (
        #[trigger] entries.drop_last()[j]).0@ != key by {
            assert(entries.drop_last()[j] == entries[j]);
        }
        lemma_entry_value_after(entries.drop_last(), k, key);
    }
}

proof fn lemma_entry_value_absent(entries: Seq<(String, SettingValue)>, key: Seq<char>)
    requires
        forall|j: int| 0 <= j < entries.len() ==> (#[trigger] entries[j]).0@ != key,
    ensures
        entry_value(entries, key) is None,
    decreases entries.len(),
{
    if entries.len() > 0 {
        assert forall|j: int| 0 <= j < entries.drop_last().len() implies (
        #[trigger] entries.drop_last()[j]).0@ != key by {
            assert(entries.drop_last()[j] == entries[j]);
        }
        lemma_entry_value_absent(entries.drop_last(), key);
    }
}

proof fn lemma_entry_value_update(
    entries: Seq<(String, SettingValue)>,
    k: int,
    entry: (String, SettingValue),
    other: Seq<char>,
)
    requires
        0 <= k < entries.len(),
        entries[k].0@ == entry.0@,
        other != entry.0@,
    ensures
        entry_value(entries.update(k, entry), other) == entry_value(entries, other),
    decreases entries.len(),
{
    let u = entries.update(k, entry);
    if k < entries.len() - 1 {
        assert(u.drop_last() == entries.drop_last().update(k, entry));
        assert(u.last() == entries.last());
        lemma_entry_value_update(entries.drop_last(), k, entry, other);
    } else {
        assert(u.drop_last() == entries.drop_last());
    }
}

/// The value of a setting read back after it was written.
fn value_of<'a>(file: &'a SettingsFile, key: &str) -> (r: Option<&'a SettingValue>)
    ensures
        match r {
            Some(v) => setting_value(*file, key@) == Some(*v),
            None => setting_value(*file, key@) is None,
        },
{
    match file {
        SettingsFile::Object(entries) => match last_entry(entries, key) {
            Some(k) => {
                proof {
                    lemma_entry_value_after(entries@, k as int, key@);
                }
                Some(&entries[k].1)
            },
            None => {
                proof {
                    lemma_entry_value_absent(entries@, key@);
                }
                None
            },
        },
        _ => None,
    }
}

/// Sets `key` to `value` in the settings document.
fn set_value(file: SettingsFile, key: &str, value: SettingValue) -> (r: SettingsFile)
    requires
        writable(file),
    ensures
        r is Object,
        setting_value(r, key@) == Some(value),
        forall|other: Seq<char>|
            other != key@ ==> #[trigger] setting_value(r, other) == setting_value(file, other),
{
    let mut entries = match file {
        SettingsFile::Object(entries) => entries,
        _ => Vec::new(),
    };
    let ghost before = entries@;
    proof {
        assert forall|other: Seq<char>| #[trigger] entry_value(before, other) == setting_value(
            file,
            other,
        ) by {
            if !(file is Object) {
                lemma_entry_value_absent(before, other);
            }
        }
    }
    match last_entry(&entries, key) {
        Some(k) => {
            let entry = (owned(key), value);
            let ghost e = entry;
            entries.set(k, entry);
            proof {
                assert(entries@ == before.update(k as int, e));
                assert forall|j: int| k < j < entries@.len() implies (#[trigger] entries@[j]).0@
                    != key@ by {
                    assert(entries@[j] == before[j]);
                }
                lemma_entry_value_after(entries@, k as int, key@);
                assert forall|other: Seq<char>| other != key@ implies #[trigger] entry_value(
                    entries@,
                    other,
                ) == entry_value(before, other) by {
                    lemma_entry_value_update(before, k as int, e, other);
                }
            }
        },
        None => {
            entries.push((owned(key), value));
            proof {
                assert(entries@.drop_last() == before);
                assert forall|other: Seq<char>| other != key@ implies #[trigger] entry_value(
                    entries@,
                    other,
                ) == entry_value(before, other) by {}
            }
        },
    }
    SettingsFile::Object(entries)
}

// ---------------------------------------------------------------------------
// The storage of the application's settings and platform login
// ---------------------------------------------------------------------------

/// The application's stored state: the data directory, once set, the settings document
/// and whether platform cookies are saved.
pub struct Storage {
    /// The data directory, set once at start-up.
    pub data_dir: Option<String>,
    /// What the settings file holds.
    pub settings: SettingsFile,
    /// Whether a platform cookies file is saved.
    pub cookies_saved: bool,
}

/// An ASCII letter.
pub open spec fn is_ascii_letter(c: char) -> bool {
    ('a' <= c && c <= 'z') || ('A' <= c && c <= 'Z')
}

/// A Windows drive prefix and nothing more, such as `C:`.
pub open spec fn is_drive_only(dir: Seq<char>) -> bool {
    dir.len() == 2 && is_ascii_letter(dir[0]) && dir[1] == ':'
}

/// A Windows verbatim path (`\\?\...`).
pub open spec fn is_verbatim(dir: Seq<char>) -> bool {
    dir.len() >= 4 && dir[0] == '\\' && dir[1] == '\\' && dir[2] == '?' && dir[3] == '\\'
}

/// `name` (a plain relative name) in directory `dir`, joined as `Path::join` joins it
/// where the main separator is `sep`: with a separator unless `dir` is empty, already
/// ends with a separator, or (on Windows) is only a drive prefix such as `C:`.
pub open spec fn path_in(dir: Seq<char>, name: Seq<char>, sep: char) -> Seq<char> {
    if dir.len() == 0 {
        name
    } else if dir.last() == sep || dir.last() == '/' {
        dir + name
    } else if sep == '\\' && is_drive_only(dir) {
        dir + name
    } else {
        dir + seq![sep] + name
    }
}

/// std's `Path::join`, for a Windows verbatim directory: std rebuilds such a path from
/// its components when joining, and nothing is stated here of the result.
#[verifier::external_body]
fn verbatim_join(dir: &str, name: &str) -> (r: String) {
    std::path::Path::new(dir).join(name).to_string_lossy().into_owned()
}

/// std's `std::path::MAIN_SEPARATOR`: `\\` on Windows, `/` elsewhere.
#[verifier::external_body]
fn main_separator() -> (c: char)
    ensures
        c == '/' || c == '\\',
{
    std::path::MAIN_SEPARATOR
}

/// The key of a setting.
pub open spec fn edge_snap_key() -> Seq<char> {
    "edge_snap_enabled"@
}

pub open spec fn onboarding_key() -> Seq<char> {
    "onboarding_completed"@
}

/// The keys under which a window's position is saved.
pub open spec fn position_keys(window: Seq<char>) -> (Seq<char>, Seq<char>) {
    (window + "_x"@, window + "_y"@)
}

/// A window's saved position: both coordinates saved as texts that parse as `i32`.
pub open spec fn saved_position(file: SettingsFile, window: Seq<char>) -> Option<(i32, i32)> {
    let keys = position_keys(window);
    match (text_setting(file, keys.0), text_setting(file, keys.1)) {
        (Some(x), Some(y)) => match (parsed_i32(x), parsed_i32(y)) {
            (Some(a), Some(b)) => Some((a, b)),
            _ => None,
        },
        _ => None,
    }
}

fn position_key(window: &str, axis: char) -> (r: String)
    ensures
        r@ == window@ + seq!['_', axis],
{
    let mut r = owned(window);
    push_char(&mut r, '_');
    push_char(&mut r, axis);
    proof {
        assert(window@.push('_').push(axis) == window@ + seq!['_', axis]);
    }
    r
}

impl Storage {
    /// The data directory, once set.
    pub open spec fn dir(&self) -> Option<Seq<char>> {
        match self.data_dir {
            Some(d) => Some(d@),
            None => None,
        }
    }

    /// A storage without data directory, settings or saved cookies.
    pub fn new() -> (r: Storage)
        ensures
            r.dir() is None,
            r.settings is Unreadable,
            !r.cookies_saved,
    {
        Storage { data_dir: None, settings: SettingsFile::Unreadable, cookies_saved: false }
    }

    /// Sets the data directory; once set it stays.
    pub fn init(&mut self, data_dir: String)
        ensures
            final(self).dir() == match old(self).dir() {
                Some(d) => Some(d),
                None => Some(data_dir@),
            },
            final(self).settings == old(self).settings,
            final(self).cookies_saved == old(self).cookies_saved,
    {
        if self.data_dir.is_none() {
            self.data_dir = Some(data_dir);
        }
    }

    /// The data directory (it must have been set).
    pub fn data_dir(&self) -> (r: &String)
        requires
            self.dir() is Some,
        ensures
            r@ == self.dir()->0,
    {
        self.data_dir.as_ref().unwrap()
    }

    /// The path of the settings file, `settings.json` in the data directory.
    pub fn settings_path(&self) -> (r: String)
        requires
            self.dir() is Some,
        ensures
            r@ == path_in(self.dir()->0, "settings.json"@, '/') || r@ == path_in(
                self.dir()->0,
                "settings.json"@,
                '\\',
            ) || is_verbatim(self.dir()->0),
    {
        let dir = self.data_dir();
        let sep = main_separator();
        let chars = crate::text::chars_of(dir.as_str());
        let n = chars.len();
        if sep == '\\' && n >= 4 && chars[0] == '\\' && chars[1] == '\\' && chars[2] == '?' && chars[3]
            == '\\' {
            return verbatim_join(dir.as_str(), "settings.json");
        }
        let mut r = owned(dir.as_str());
        if n == 0 {
            push_str(&mut r, "settings.json");
        } else {
            let last = chars[n - 1];
            let drive_only = n == 2 && (('a' <= chars[0] && chars[0] <= 'z') || ('A' <= chars[0]
                && chars[0] <= 'Z')) && chars[1] == ':';
            if last == sep || last == '/' || (sep == '\\' && drive_only) {
                push_str(&mut r, "settings.json");
            } else {
                push_char(&mut r, sep);
                push_str(&mut r, "settings.json");
                proof {
                    assert(dir@.push(sep) + "settings.json"@ == dir@ + seq![sep] + "settings.json"@);
                }
            }
        }
        r
    }

    /// The text of a setting; `None` when it is missing or not a string.
    pub fn load_setting(&self, key: &str) -> (r: Option<String>)
        ensures
            match r {
                Some(s) => text_setting(self.settings, key@) == Some(s@),
                None => text_setting(self.settings, key@) is None,
            },
    {
        match value_of(&self.settings, key) {
            Some(SettingValue::Text(s)) => Some(owned(s.as_str())),
            _ => None,
        }
    }

    /// Writes the text of a setting, keeping the others.
    pub fn save_setting(&mut self, key: &str, value: &str)
        requires
            writable(old(self).settings),
        ensures
            final(self).dir() == old(self).dir(),
            final(self).cookies_saved == old(self).cookies_saved,
            writable(final(self).settings),
            text_setting(final(self).settings, key@) == Some(value@),
            forall|other: Seq<char>|
                other != key@ ==> #[trigger] setting_value(final(self).settings, other)
                    == setting_value(old(self).settings, other),
    {
        let mut file = SettingsFile::Unreadable;
        std::mem::swap(&mut file, &mut self.settings);
        self.settings = set_value(file, key, SettingValue::Text(owned(value)));
    }

    /// Whether sticking windows to the screen's top edge is enabled (off unless the
    /// setting reads "true").
    pub fn load_edge_snap_enabled(&self) -> (r: bool)
        ensures
            r == (text_setting(self.settings, edge_snap_key()) == Some("true"@)),
    {
        match self.load_setting("edge_snap_enabled") {
            Some(v) => str_eq(v.as_str(), "true"),
            None => false,
        }
    }

    /// Saves whether sticking to the screen's top edge is enabled.
    pub fn save_edge_snap_enabled(&mut self, enabled: bool)
        requires
            writable(old(self).settings),
        ensures
            final(self).dir() == old(self).dir(),
            final(self).cookies_saved == old(self).cookies_saved,
            writable(final(self).settings),
            text_setting(final(self).settings, edge_snap_key()) == Some(
                if enabled {
                    "true"@
                } else {
                    "false"@
                },
            ),
            forall|other: Seq<char>|
                other != edge_snap_key() ==> #[trigger] setting_value(final(self).settings, other)
                    == setting_value(old(self).settings, other),
    {
        self.save_setting("edge_snap_enabled", if enabled { "true" } else { "false" });
    }

    /// Whether the onboarding was completed: the setting is the JSON `true`.
    pub fn load_onboarding_completed(&self) -> (r: bool)
        ensures
            r == flag_setting(self.settings, onboarding_key()),
    {
        match value_of(&self.settings, "onboarding_completed") {
            Some(SettingValue::Flag(b)) => *b,
            _ => false,
        }
    }

    /// Records that the onboarding was completed.
    pub fn save_onboarding_completed(&mut self)
        requires
            writable(old(self).settings),
        ensures
            final(self).dir() == old(self).dir(),
            final(self).cookies_saved == old(self).cookies_saved,
            writable(final(self).settings),
            flag_setting(final(self).settings, onboarding_key()),
            forall|other: Seq<char>|
                other != onboarding_key() ==> #[trigger] setting_value(final(self).settings, other)
                    == setting_value(old(self).settings, other),
    {
        let mut file = SettingsFile::Unreadable;
        std::mem::swap(&mut file, &mut self.settings);
        self.settings = set_value(file, "onboarding_completed", SettingValue::Flag(true));
    }

    /// The first launch lasts until the onboarding is completed.
    pub fn is_first_launch(&self) -> (r: bool)
        ensures
            r == !flag_setting(self.settings, onboarding_key()),
    {
        !self.load_onboarding_completed()
    }

    /// Whether platform cookies are saved.
    pub fn has_saved_platform_cookies(&self) -> (r: bool)
        ensures
            r == self.cookies_saved,
    {
        self.cookies_saved
    }

    /// Notes that the platform cookies file was written: the cookies count as saved.
    pub fn note_platform_cookies_saved(&mut self)
        ensures
            final(self).cookies_saved,
            final(self).dir() == old(self).dir(),
            final(self).settings == old(self).settings,
    {
        self.cookies_saved = true;
    }

    /// Notes that the platform cookies file was removed.
    pub fn clear_platform_cookies(&mut self)
        ensures
            !final(self).cookies_saved,
            final(self).dir() == old(self).dir(),
            final(self).settings == old(self).settings,
    {
        self.cookies_saved = false;
    }

    /// Saves a window's position as two settings, `<window>_x` and `<window>_y`.
    pub fn save_window_position(&mut self, window: &str, x: i32, y: i32)
        requires
            writable(old(self).settings),
        ensures
            final(self).dir() == old(self).dir(),
            final(self).cookies_saved == old(self).cookies_saved,
            writable(final(self).settings),
            text_setting(final(self).settings, position_keys(window@).0) == Some(
                decimal_text(x as int),
            ),
            text_setting(final(self).settings, position_keys(window@).1) == Some(
                decimal_text(y as int),
            ),
            forall|other: Seq<char>|
                other != position_keys(window@).0 && other != position_keys(window@).1
                    ==> #[trigger] setting_value(final(self).settings, other) == setting_value(
                    old(self).settings,
                    other,
                ),
    {
        let kx = position_key(window, 'x');
        let ky = position_key(window, 'y');
        let mut vx = String::new();
        push_int(&mut vx, x as i64);
        let mut vy = String::new();
        push_int(&mut vy, y as i64);
        proof {
            reveal_strlit("_x");
            reveal_strlit("_y");
            assert(kx@ == position_keys(window@).0);
            assert(ky@ == position_keys(window@).1);
            assert(kx@ != ky@) by {
                assert(kx@[kx@.len() - 1] != ky@[ky@.len() - 1]);
            }
        }
        let ghost start = self.settings;
        self.save_setting(kx.as_str(), vx.as_str());
        let ghost mid = self.settings;
        self.save_setting(ky.as_str(), vy.as_str());
        proof {
            assert(setting_value(self.settings, kx@) == setting_value(mid, kx@));
        }
    }

    /// A window's saved position, when both coordinates are saved as integers.
    pub fn load_window_position(&self, window: &str) -> (r: Option<(i32, i32)>)
        ensures
            r == saved_position(self.settings, window@),
    {
        let kx = position_key(window, 'x');
        let ky = position_key(window, 'y');
        proof {
            reveal_strlit("_x");
            reveal_strlit("_y");
            assert(kx@ == position_keys(window@).0);
            assert(ky@ == position_keys(window@).1);
        }
        let x = match self.load_setting(kx.as_str()) {
            Some(v) => parse_i32(v.as_str()),
            None => None,
        };
        let y = match self.load_setting(ky.as_str()) {
            Some(v) => parse_i32(v.as_str()),
            None => None,
        };
        match (x, y) {
            (Some(a), Some(b)) => Some((a, b)),
            _ => None,
        }
    }
}

/// The saved platform cookies: kept only when the file holds the time they were saved
/// and, when that time could be read, it is at most seven days old.
pub open spec fn fresh_cookies(
    header: Option<Seq<char>>,
    has_saved_at: bool,
    age_days: Option<i64>,
) -> Option<Seq<char>> {
    if !has_saved_at {
        None
    } else if age_days matches Some(d) && d > 7 {
        None
    } else {
        header
    }
}

/// Decides whether the cookies read from the cookies file are still usable, given the
/// cookie header found there, whether the saving time is there and, when it could be
/// parsed, its age in whole days.
pub fn saved_cookies(header: Option<String>, has_saved_at: bool, age_days: Option<i64>) -> (r: Option<
    String,
>)
    ensures
        match r {
            Some(c) => fresh_cookies(
                match header {
                    Some(h) => Some(h@),
                    None => None,
                },
                has_saved_at,
                age_days,
            ) == Some(c@),
            None => fresh_cookies(
                match header {
                    Some(h) => Some(h@),
                    None => None,
                },
                has_saved_at,
                age_days,
            ) is None,
        },
{
    if !has_saved_at {
        return None;
    }
    match age_days {
        Some(d) => {
            if d > 7 {
                return None;
            }
        },
        None => {},
    }
    header
}

// ---------------------------------------------------------------------------
// Laws
// ---------------------------------------------------------------------------

/// A saved window position is read back unchanged.
pub proof fn law_window_position_round_trip(x: i32, y: i32, file: SettingsFile, window: Seq<char>)
    requires
        text_setting(file, position_keys(window).0) == Some(decimal_text(x as int)),
        text_setting(file, position_keys(window).1) == Some(decimal_text(y as int)),
    ensures
        saved_position(file, window) == Some((x, y)),
{
    lemma_parse_i32_decimal(x);
    lemma_parse_i32_decimal(y);
}

/// Reading the edge-snap setting back gives what was saved.
pub proof fn law_edge_snap_round_trip(file: SettingsFile, enabled: bool)
    requires
        text_setting(file, edge_snap_key()) == Some(
            if enabled {
                "true"@
            } else {
                "false"@
            },
        ),
    ensures
        (text_setting(file, edge_snap_key()) == Some("true"@)) == enabled,
{
    reveal_strlit("true");
    reveal_strlit("false");
    assert("true"@.len() != "false"@.len());
}

/// A completed onboarding ends the first launch, whatever other settings are saved
/// afterwards.
pub proof fn law_onboarding_ends_first_launch(before: SettingsFile, after: SettingsFile, key: Seq<char>)
    requires
        flag_setting(before, onboarding_key()),
        key != onboarding_key(),
        forall|other: Seq<char>|
            other != key ==> #[trigger] setting_value(after, other) == setting_value(before, other),
    ensures
        flag_setting(after, onboarding_key()),
{
    assert(setting_value(after, onboarding_key()) == setting_value(before, onboarding_key()));
}

} // verus!
