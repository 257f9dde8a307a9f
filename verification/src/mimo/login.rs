use vstd::prelude::*;
use crate::errors::{join_texts, joined};
use crate::mimo::api::ApiError;
use crate::text::{chars_of, owned, push_char, push_str};

verus! {

// ---------------------------------------------------------------------------
// The cookie header built from the login window's cookies
// ---------------------------------------------------------------------------

/// A value that must be quoted in a cookie header.
pub open spec fn needs_quoting(v: Seq<char>) -> bool {
    v.contains('=') || v.contains(',') || v.contains(';') || v.contains(' ') || v.contains('"')
}

/// `v` with each `"` written as `\\"`.
pub open spec fn escaped_quotes(v: Seq<char>) -> Seq<char>
    decreases v.len(),
{
    if v.len() == 0 {
        v
    } else if v.last() == '"' {
        escaped_quotes(v.drop_last()) + seq!['\\', '"']
    } else {
        escaped_quotes(v.drop_last()).push(v.last())
    }
}

/// A cookie's value as written in the header: quoted (with its quotes escaped) when it
/// needs quoting and neither starts nor ends with a quote.
pub open spec fn header_value(v: Seq<char>) -> Seq<char> {
    if needs_quoting(v) && !(v.len() > 0 && v[0] == '"') && !(v.len() > 0 && v.last() == '"') {
        seq!['"'] + escaped_quotes(v) + seq!['"']
    } else {
        v
    }
}

/// The `name=value` pieces of the cookies with a name, in order.
pub open spec fn cookie_pieces(cookies: Seq<(Seq<char>, Seq<char>)>) -> Seq<Seq<char>>
    decreases cookies.len(),
{
    if cookies.len() == 0 {
        Seq::empty()
    } else {
        let rest = cookie_pieces(cookies.drop_last());
        let c = cookies.last();
        if c.0.len() == 0 {
            rest
        } else {
            rest.push(c.0 + seq!['='] + header_value(c.1))
        }
    }
}

/// The cookie header: the pieces joined by `"; "`.
pub open spec fn cookie_header_text(cookies: Seq<(Seq<char>, Seq<char>)>) -> Seq<char> {
    joined(cookie_pieces(cookies), "; "@)
}

fn value_needs_quoting(v: &Vec<char>) -> (r: bool)
    ensures
        r == needs_quoting(v@),
{
    let mut k: usize = 0;
    while k < v.len()
        invariant
            k <= v@.len(),
            forall|j: int|
                0 <= j < k ==> v@[j] != '=' && v@[j] != ',' && v@[j] != ';' && v@[j] != ' ' && v@[j]
                    != '"',
        decreases v.len() - k,
    {
        let c = v[k];
        if c == '=' || c == ',' || c == ';' || c == ' ' || c == '"' {
            return true;
        }
        k += 1;
    }
    proof {
        assert(!v@.contains('=') && !v@.contains(',') && !v@.contains(';') && !v@.contains(' ')
            && !v@.contains('"')) by {
            if v@.contains('=') {
                let j = choose|j: int| 0 <= j < v@.len() && v@[j] == '=';
            }
            if v@.contains(',') {
                let j = choose|j: int| 0 <= j < v@.len() && v@[j] == ',';
            }
            if v@.contains(';') {
                let j = choose|j: int| 0 <= j < v@.len() && v@[j] == ';';
            }
            if v@.contains(' ') {
                let j = choose|j: int| 0 <= j < v@.len() && v@[j] == ' ';
            }
            if v@.contains('"') {
                let j = choose|j: int| 0 <= j < v@.len() && v@[j] == '"';
            }
        }
    }
    false
}

/// A cookie's value as written in the header.
pub fn format_cookie_value(value: &str) -> (r: String)
    ensures
        r@ == header_value(value@),
{
    let v = chars_of(value);
    let quote = value_needs_quoting(&v) && !(v.len() > 0 && v[0] == '"') && !(v.len() > 0 && v[v.len()
        - 1] == '"');
    if !quote {
        return owned(value);
    }
    let mut r = String::new();
    push_char(&mut r, '"');
    let mut k: usize = 0;
    while k < v.len()
        invariant
            k <= v@.len(),
            r@ == seq!['"'] + escaped_quotes(v@.take(k as int)),
        decreases v.len() - k,
    {
        proof {
            assert(v@.take(k + 1).drop_last() == v@.take(k as int));
            assert(v@.take(k + 1).last() == v@[k as int]);
        }
        if v[k] == '"' {
            push_char(&mut r, '\\');
            push_char(&mut r, '"');
        } else {
            push_char(&mut r, v[k]);
        }
        k += 1;
    }
    push_char(&mut r, '"');
    proof {
        assert(v@.take(v@.len() as int) == v@);
    }
    r
}

/// The cookie header of the login window's cookies, each a name and a value.
pub fn cookie_header(cookies: &Vec<(String, String)>) -> (r: String)
    ensures
        r@ == cookie_header_text(cookies@.map_values(|c: (String, String)| (c.0@, c.1@))),
{
    let ghost cs = cookies@.map_values(|c: (String, String)| (c.0@, c.1@));
    let mut parts: Vec<String> = Vec::new();
    let mut k: usize = 0;
    while k < cookies.len()
        invariant
            k <= cookies@.len(),
            cs == cookies@.map_values(|c: (String, String)| (c.0@, c.1@)),
            parts@.map_values(|s: String| s@) == cookie_pieces(cs.take(k as int)),
        decreases cookies.len() - k,
    {
        proof {
            assert(cs.take(k + 1).drop_last() == cs.take(k as int));
            assert(cs.take(k + 1).last() == cs[k as int]);
        }
        let name = &cookies[k].0;
        if !name.as_str().is_empty() {
            let mut piece = owned(name.as_str());
            push_char(&mut piece, '=');
            let value = format_cookie_value(cookies[k].1.as_str());
            push_str(&mut piece, value.as_str());
            let ghost before = parts@.map_values(|s: String| s@);
            proof {
                assert(cs[k as int] == (cookies@[k as int].0@, cookies@[k as int].1@));
                assert(piece@ == name@.push('=') + value@);
                assert(name@.push('=') + value@ == name@ + seq!['='] + value@);
            }
            parts.push(piece);
            proof {
                assert(parts@.map_values(|s: String| s@) =~= before.push(
                    cs[k as int].0 + seq!['='] + header_value(cs[k as int].1),
                ));
            }
        }
        k += 1;
    }
    proof {
        assert(cs.take(cs.len() as int) == cs);
    }
    join_texts(&parts, "; ")
}

// ---------------------------------------------------------------------------
// Waiting for the login to complete
// ---------------------------------------------------------------------------

/// The number of checks before the wait for a login gives up (one every 3 seconds).
pub open spec fn login_checks() -> nat {
    120
}

/// What the login window shows at a check.
pub enum LoginWindow {
    /// The window was closed.
    Closed,
    /// The window is hidden.
    Hidden,
    /// The window is open; the cookies it holds, when they could be read and are not
    /// empty.
    Open(Option<String>),
}

/// What the wait for a login does next.
pub enum LoginStep {
    /// Stop waiting.
    Stop,
    /// Check again later.
    Retry,
    /// Use these cookies as the session and check them by fetching the balance.
    TryCookies(String),
}

/// The outcome of the balance check of captured cookies.
#[derive(PartialEq, Eq, Structural)]
pub enum LoginCheck {
    /// The login worked: save the cookies, complete the onboarding, close the window.
    Done,
    /// The cookies are not (yet) logged in: drop the session and check again later.
    DropAndRetry,
    /// Check again later.
    Retry,
}

/// The wait for a login in the MiMo platform window.
pub struct LoginWait {
    checks: u32,
}

impl LoginWait {
    /// The number of checks made so far.
    pub closed spec fn made(&self) -> nat {
        self.checks as nat
    }

    /// A wait that has made no check yet.
    pub fn new() -> (r: LoginWait)
        ensures
            r.made() == 0,
    {
        LoginWait { checks: 0 }
    }

    /// Starts the next check, when any is left.
    pub fn begin_check(&mut self) -> (more: bool)
        ensures
            more == (old(self).made() < login_checks()),
            final(self).made() == if more {
                old(self).made() + 1
            } else {
                old(self).made() + 0
            },
            final(self).made() <= login_checks() || final(self).made() == old(self).made(),
    {
        if self.checks < 120 {
            self.checks = self.checks + 1;
            true
        } else {
            false
        }
    }

    /// Decides what a check does with the login window's state.
    pub fn on_window(&self, window: LoginWindow) -> (r: LoginStep)
        ensures
            match window {
                LoginWindow::Closed => r is Stop,
                LoginWindow::Hidden => r is Stop,
                LoginWindow::Open(None) => r is Retry,
                LoginWindow::Open(Some(c)) => if c@.len() == 0 {
                    r is Retry
                } else {
                    r matches LoginStep::TryCookies(k) && k@ == c@
                },
            },
    {
        match window {
            LoginWindow::Closed => LoginStep::Stop,
            LoginWindow::Hidden => LoginStep::Stop,
            LoginWindow::Open(None) => LoginStep::Retry,
            LoginWindow::Open(Some(c)) => {
                if c.as_str().is_empty() {
                    LoginStep::Retry
                } else {
                    LoginStep::TryCookies(c)
                }
            },
        }
    }

    /// Decides what the balance check of captured cookies means (`None` for success).
    pub fn on_balance(&self, failure: Option<&ApiError>) -> (r: LoginCheck)
        ensures
            r == match failure {
                None => LoginCheck::Done,
                Some(e) => if (*e matches ApiError::PlatformUnauthorized) {
                    LoginCheck::DropAndRetry
                } else {
                    LoginCheck::Retry
                },
            },
    {
        match failure {
            None => LoginCheck::Done,
            Some(e) => {
                if e.is_auth_error() {
                    LoginCheck::DropAndRetry
                } else {
                    LoginCheck::Retry
                }
            },
        }
    }
}

/// However the checks go, the wait makes at most `login_checks()` of them.
pub proof fn law_login_wait_is_bounded(before: LoginWait, after: LoginWait, more: bool)
    requires
        before.made() <= login_checks(),
        more == (before.made() < login_checks()),
        after.made() == if more {
            before.made() + 1
        } else {
            before.made() + 0
        },
    ensures
        after.made() <= login_checks(),
{
}

} // verus!
