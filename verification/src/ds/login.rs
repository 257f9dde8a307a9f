use vstd::prelude::*;
use vstd::utf8::{decode_utf8, encode_utf8, valid_utf8};
use crate::text::{chars_of, split_bounds, split_pieces, starts_with_chars, starts_with_text, str_eq, string_from_chars};

verus! {

// ---------------------------------------------------------------------------
// Percent-decoding (the `urlencoding` crate's `decode`)
// ---------------------------------------------------------------------------

/// The value of an ASCII hexadecimal digit.
pub open spec fn hex_value(b: u8) -> Option<u8> {
    if 48 <= b <= 57 {
        Some((b - 48) as u8)
    } else if 65 <= b <= 70 {
        Some((b - 55) as u8)
    } else if 97 <= b <= 102 {
        Some((b - 87) as u8)
    } else {
        None
    }
}

/// Bytes with each `%XX` (two hexadecimal digits) replaced by the byte it denotes; any
/// other `%` stays, and `+` is not changed.
pub open spec fn percent_decoded(b: Seq<u8>) -> Seq<u8>
    decreases b.len(),
{
    if b.len() == 0 {
        b
    } else if b[0] != 37 {
        seq![b[0]] + percent_decoded(b.drop_first())
    } else if b.len() < 3 {
        b
    } else {
        match (hex_value(b[1]), hex_value(b[2])) {
            (Some(h), Some(l)) => seq![(h * 16 + l) as u8] + percent_decoded(b.subrange(3, b.len() as int)),
            (Some(_), None) => seq![b[0], b[1]] + percent_decoded(b.subrange(2, b.len() as int)),
            _ => seq![b[0]] + percent_decoded(b.drop_first()),
        }
    }
}

/// `urlencoding::decode`: the percent-decoded text, when its bytes are valid UTF-8.
pub open spec fn url_decoded(s: Seq<char>) -> Option<Seq<char>> {
    let d = percent_decoded(encode_utf8(s));
    if valid_utf8(d) {
        Some(decode_utf8(d))
    } else {
        None
    }
}

/// `urlencoding::decode`, its failure (decoded bytes that are not UTF-8) mapped to `None`.
#[verifier::external_body]
fn url_decode(s: &str) -> (r: Option<String>)
    ensures
        match r {
            Some(t) => url_decoded(s@) == Some(t@),
            None => url_decoded(s@) is None,
        },
{
    match urlencoding::decode(s) {
        Ok(text) => Some(text.into_owned()),
        Err(_) => None,
    }
}

// ---------------------------------------------------------------------------
// The redirect that carries the captured login
// ---------------------------------------------------------------------------

/// The address the login page is sent to once the token is read.
pub open spec fn capture_prefix() -> Seq<char> {
    "https://dsm.local/token"@
}

/// The position of the first `=` of a query pair, or its length.
pub open spec fn eq_pos(p: Seq<char>) -> int
    decreases p.len(),
{
    if p.len() == 0 || p[0] == '=' {
        0
    } else {
        1 + eq_pos(p.drop_first())
    }
}

/// The key of a query pair: the text before its first `=`.
pub open spec fn pair_key(p: Seq<char>) -> Seq<char> {
    p.take(eq_pos(p))
}

/// The value of a query pair: the text after its first `=`, or empty.
pub open spec fn pair_value(p: Seq<char>) -> Seq<char> {
    if eq_pos(p) < p.len() {
        p.subrange(eq_pos(p) + 1, p.len() as int)
    } else {
        Seq::empty()
    }
}

/// A decoded value, or empty when it does not decode.
pub open spec fn decoded_or_empty(v: Seq<char>) -> Seq<char> {
    match url_decoded(v) {
        Some(t) => t,
        None => Seq::empty(),
    }
}

/// The token (`t`) and cookies (`c`) of the query pairs; a later pair of a key wins.
pub open spec fn login_fields(pairs: Seq<Seq<char>>) -> (Seq<char>, Seq<char>)
    decreases pairs.len(),
{
    if pairs.len() == 0 {
        (Seq::empty(), Seq::empty())
    } else {
        let f = login_fields(pairs.drop_last());
        let p = pairs.last();
        if pair_key(p) == "t"@ {
            (decoded_or_empty(pair_value(p)), f.1)
        } else if pair_key(p) == "c"@ {
            (f.0, decoded_or_empty(pair_value(p)))
        } else {
            f
        }
    }
}

/// The token and cookies that a redirect carries: its query is the text between the
/// first and second `?`, made of pairs joined by `&`.
pub open spec fn redirect_fields(url: Seq<char>) -> (Seq<char>, Seq<char>) {
    let parts = split_pieces(url, '?');
    if parts.len() > 1 {
        login_fields(split_pieces(parts[1], '&'))
    } else {
        (Seq::empty(), Seq::empty())
    }
}

proof fn lemma_eq_pos(p: Seq<char>, k: int)
    requires
        0 <= k <= p.len(),
        forall|j: int| 0 <= j < k ==> p[j] != '=',
        k == p.len() || p[k] == '=',
    ensures
        eq_pos(p) == k,
    decreases p.len(),
{
    if p.len() > 0 && p[0] != '=' {
        assert forall|j: int| 0 <= j < k - 1 implies p.drop_first()[j] != '=' by {
            assert(p.drop_first()[j] == p[j + 1]);
        }
        if k < p.len() {
            assert(p.drop_first()[k - 1] == p[k]);
        }
        lemma_eq_pos(p.drop_first(), k - 1);
    }
}

/// The key and value of the pair `q[from..to]`.
fn pair_parts(q: &Vec<char>, from: usize, to: usize) -> (r: (String, String))
    requires
        from <= to <= q@.len(),
    ensures
        r.0@ == pair_key(q@.subrange(from as int, to as int)),
        r.1@ == pair_value(q@.subrange(from as int, to as int)),
{
    let ghost p = q@.subrange(from as int, to as int);
    let mut k = from;
    while k < to && q[k] != '='
        invariant
            from <= k <= to <= q@.len(),
            p == q@.subrange(from as int, to as int),
            forall|j: int| 0 <= j < k - from ==> p[j] != '=',
        decreases to - k,
    {
        proof {
            assert(p[k - from] == q@[k as int]);
        }
        k += 1;
    }
    proof {
        if k < to {
            assert(p[k - from] == q@[k as int]);
        }
        lemma_eq_pos(p, k - from);
        assert(p.take(k - from) == q@.subrange(from as int, k as int));
    }
    let key = string_from_chars(q, from, k);
    let value = if k < to {
        proof {
            assert(p.subrange(k - from + 1, p.len() as int) == q@.subrange(k + 1, to as int));
        }
        string_from_chars(q, k + 1, to)
    } else {
        String::new()
    };
    (key, value)
}

/// The decoded value, or empty.
fn decode_or_empty(v: &str) -> (r: String)
    ensures
        r@ == decoded_or_empty(v@),
{
    match url_decode(v) {
        Some(t) => t,
        None => String::new(),
    }
}

/// The token and cookies carried by the login redirect `url`.
pub fn redirect_login(url: &str) -> (r: (String, String))
    ensures
        r.0@ == redirect_fields(url@).0,
        r.1@ == redirect_fields(url@).1,
{
    let v = chars_of(url);
    let parts = split_bounds(&v, '?');
    if parts.len() <= 1 {
        return (String::new(), String::new());
    }
    let (qa, qb) = parts[1];
    let query = chars_of(string_from_chars(&v, qa, qb).as_str());
    let pairs = split_bounds(&query, '&');
    let ghost ps = split_pieces(query@, '&');
    let mut token = String::new();
    let mut cookies = String::new();
    let mut i: usize = 0;
    while i < pairs.len()
        invariant
            i <= pairs@.len(),
            pairs@.len() == ps.len(),
            ps == split_pieces(query@, '&'),
            forall|k: int|
                0 <= k < pairs@.len() ==> {
                    &&& (#[trigger] pairs@[k]).0 <= pairs@[k].1 <= query@.len()
                    &&& query@.subrange(pairs@[k].0 as int, pairs@[k].1 as int) == ps[k]
                },
            token@ == login_fields(ps.take(i as int)).0,
            cookies@ == login_fields(ps.take(i as int)).1,
        decreases pairs.len() - i,
    {
        proof {
            assert(ps.take(i + 1).drop_last() == ps.take(i as int));
            assert(ps.take(i + 1).last() == ps[i as int]);
            reveal_strlit("t");
            reveal_strlit("c");
        }
        let (a, b) = pairs[i];
        let (key, value) = pair_parts(&query, a, b);
        if str_eq(key.as_str(), "t") {
            token = decode_or_empty(value.as_str());
        } else if str_eq(key.as_str(), "c") {
            cookies = decode_or_empty(value.as_str());
        }
        i += 1;
    }
    proof {
        assert(ps.take(ps.len() as int) == ps);
    }
    (token, cookies)
}

/// What the login window does with a navigation.
pub struct LoginNavigation {
    /// Whether the navigation goes on (it is stopped for the capture redirect).
    pub allow: bool,
    /// The captured token and, when present, cookies: saved, after which the login
    /// counts as completed and the window closes.
    pub captured: Option<(String, Option<String>)>,
}

/// Decides what happens to a navigation of the login window.
pub fn on_login_navigation(url: &str) -> (r: LoginNavigation)
    ensures
        r.allow == !starts_with_text(url@, capture_prefix()),
        match r.captured {
            Some(c) => {
                &&& starts_with_text(url@, capture_prefix())
                &&& c.0@ == redirect_fields(url@).0
                &&& c.0@.len() > 0
                &&& match c.1 {
                    Some(k) => k@ == redirect_fields(url@).1 && k@.len() > 0,
                    None => redirect_fields(url@).1.len() == 0,
                }
            },
            None => !starts_with_text(url@, capture_prefix()) || redirect_fields(url@).0.len() == 0,
        },
{
    let v = chars_of(url);
    let prefix = chars_of("https://dsm.local/token");
    if !starts_with_chars(&v, &prefix) {
        return LoginNavigation { allow: true, captured: None };
    }
    let (token, cookies) = redirect_login(url);
    if token.as_str().is_empty() {
        return LoginNavigation { allow: false, captured: None };
    }
    let cookies = if cookies.as_str().is_empty() {
        None
    } else {
        Some(cookies)
    };
    LoginNavigation { allow: false, captured: Some((token, cookies)) }
}

} // verus!
