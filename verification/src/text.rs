use vstd::prelude::*;

verus! {

// ---------------------------------------------------------------------------
// Specifications of the text notions used throughout the crate
// ---------------------------------------------------------------------------

pub open spec fn is_ascii_digit(c: char) -> bool {
    '0' <= c && c <= '9'
}

pub open spec fn digit_value(c: char) -> int {
    (c as int) - ('0' as int)
}

pub open spec fn all_ascii_digits(s: Seq<char>) -> bool {
    forall|i: int| 0 <= i < s.len() ==> is_ascii_digit(#[trigger] s[i])
}

/// The number that a sequence of decimal digits denotes.
pub open spec fn digits_value(s: Seq<char>) -> nat
    decreases s.len(),
{
    if s.len() == 0 {
        0
    } else {
        (digits_value(s.drop_last()) * 10 + digit_value(s.last())) as nat
    }
}

/// What Rust's `str::parse` gives for a signed integer, before the range check:
/// an optional `+` or `-`, then one or more ASCII digits.
pub open spec fn signed_decimal_value(s: Seq<char>) -> Option<int> {
    if s.len() == 0 {
        None
    } else if s[0] == '+' || s[0] == '-' {
        let rest = s.drop_first();
        if rest.len() > 0 && all_ascii_digits(rest) {
            if s[0] == '-' {
                Some(-(digits_value(rest) as int))
            } else {
                Some(digits_value(rest) as int)
            }
        } else {
            None
        }
    } else if all_ascii_digits(s) {
        Some(digits_value(s) as int)
    } else {
        None
    }
}

/// `s.parse::<i64>().ok()`.
pub open spec fn parsed_i64(s: Seq<char>) -> Option<i64> {
    match signed_decimal_value(s) {
        Some(v) => if i64::MIN <= v <= i64::MAX { Some(v as i64) } else { None },
        None => None,
    }
}

/// `s.parse::<i32>().ok()`.
pub open spec fn parsed_i32(s: Seq<char>) -> Option<i32> {
    match signed_decimal_value(s) {
        Some(v) => if i32::MIN <= v <= i32::MAX { Some(v as i32) } else { None },
        None => None,
    }
}

pub open spec fn digit_char(d: nat) -> char
    recommends
        d < 10,
{
    (('0' as nat) + d) as char
}

/// The decimal representation of a natural number, without leading zeros.
pub open spec fn decimal_digits(n: nat) -> Seq<char>
    decreases n,
{
    if n < 10 {
        seq![digit_char(n)]
    } else {
        decimal_digits(n / 10).push(digit_char(n % 10))
    }
}

/// The decimal representation of an integer, as `to_string` writes it.
pub open spec fn decimal_text(i: int) -> Seq<char> {
    if i < 0 {
        seq!['-'] + decimal_digits((-i) as nat)
    } else {
        decimal_digits(i as nat)
    }
}

/// `needle` occurs in `hay` at position `i`.
pub open spec fn occurs_at(hay: Seq<char>, needle: Seq<char>, i: int) -> bool {
    0 <= i && i + needle.len() <= hay.len() && hay.subrange(i, i + needle.len()) == needle
}

/// `hay.contains(needle)` for string slices.
pub open spec fn contains_text(hay: Seq<char>, needle: Seq<char>) -> bool {
    exists|i: int| occurs_at(hay, needle, i)
}

pub open spec fn starts_with_text(s: Seq<char>, prefix: Seq<char>) -> bool {
    prefix.len() <= s.len() && s.subrange(0, prefix.len() as int) == prefix
}

/// What `str::to_lowercase` returns: the Unicode lowercase mapping of each character.
pub uninterp spec fn lowercase_text(s: Seq<char>) -> Seq<char>;

// ---------------------------------------------------------------------------
// Trusted calls into std
// ---------------------------------------------------------------------------

/// Appends one character to a string (std's `String::push`).
#[verifier::external_body]
pub(crate) fn push_char(s: &mut String, c: char)
    ensures
        final(s)@ == old(s)@.push(c),
{
    s.push(c);
}

/// std's `str::to_lowercase`; its result is named `lowercase_text`.
#[verifier::external_body]
pub(crate) fn to_lowercase(s: &str) -> (r: String)
    ensures
        r@ == lowercase_text(s@),
{
    s.to_lowercase()
}

// ---------------------------------------------------------------------------
// Verified text utilities
// ---------------------------------------------------------------------------

/// The characters of a string slice, in order.
pub fn chars_of(s: &str) -> (v: Vec<char>)
    ensures
        v@ == s@,
{
    let mut v: Vec<char> = Vec::new();
    for c in it: s.chars()
        invariant
            v@ == it.seq().take(it.index() as int),
    {
        v.push(c);
    }
    v
}

/// Appends the characters `v[from..to]` to `s`.
pub fn push_chars(s: &mut String, v: &Vec<char>, from: usize, to: usize)
    requires
        from <= to <= v.len(),
    ensures
        final(s)@ == old(s)@ + v@.subrange(from as int, to as int),
{
    let mut i = from;
    while i < to
        invariant
            from <= i <= to <= v.len(),
            s@ == old(s)@ + v@.subrange(from as int, i as int),
        decreases to - i,
    {
        push_char(s, v[i]);
        assert(v@.subrange(from as int, i + 1) == v@.subrange(from as int, i as int).push(v@[i as int]));
        i += 1;
    }
}

/// A string holding the characters `v[from..to]`.
pub fn string_from_chars(v: &Vec<char>, from: usize, to: usize) -> (s: String)
    requires
        from <= to <= v.len(),
    ensures
        s@ == v@.subrange(from as int, to as int),
{
    let mut s = String::new();
    push_chars(&mut s, v, from, to);
    s
}

/// Appends a string slice to `s`.
pub fn push_str(s: &mut String, t: &str)
    ensures
        final(s)@ == old(s)@ + t@,
{
    let v = chars_of(t);
    push_chars(s, &v, 0, v.len());
    assert(v@.subrange(0, v@.len() as int) == v@);
}

/// An owned copy of a string slice.
pub fn owned(t: &str) -> (s: String)
    ensures
        s@ == t@,
{
    let mut s = String::new();
    push_str(&mut s, t);
    s
}

/// Whether `needle` occurs at position `i` of `hay`.
pub fn occurs_at_exec(hay: &Vec<char>, needle: &Vec<char>, i: usize) -> (r: bool)
    ensures
        r == occurs_at(hay@, needle@, i as int),
{
    if i > hay.len() || needle.len() > hay.len() - i {
        return false;
    }
    let mut k: usize = 0;
    while k < needle.len()
        invariant
            i + needle.len() <= hay.len(),
            k <= needle.len(),
            forall|j: int| 0 <= j < k ==> hay@[i + j] == needle@[j],
        decreases needle.len() - k,
    {
        if hay[i + k] != needle[k] {
            assert(hay@.subrange(i as int, i + needle.len())[k as int] != needle@[k as int]);
            return false;
        }
        k += 1;
    }
    assert(hay@.subrange(i as int, i + needle.len()) =~= needle@);
    true
}

/// `hay.contains(needle)`.
pub fn contains_chars(hay: &Vec<char>, needle: &Vec<char>) -> (r: bool)
    ensures
        r == contains_text(hay@, needle@),
{
    if needle.len() > hay.len() {
        assert forall|i: int| !occurs_at(hay@, needle@, i) by {}
        return false;
    }
    let last = hay.len() - needle.len();
    let mut i: usize = 0;
    while i < last
        invariant
            last == hay.len() - needle.len(),
            i <= last,
            forall|j: int| 0 <= j < i ==> !occurs_at(hay@, needle@, j),
        decreases last - i,
    {
        if occurs_at_exec(hay, needle, i) {
            return true;
        }
        i += 1;
    }
    if occurs_at_exec(hay, needle, last) {
        return true;
    }
    assert forall|j: int| !occurs_at(hay@, needle@, j) by {
        if 0 <= j < last {
        }
    }
    false
}

/// `hay.contains(needle)` for string slices.
pub fn contains_str(hay: &str, needle: &str) -> (r: bool)
    ensures
        r == contains_text(hay@, needle@),
{
    let h = chars_of(hay);
    let n = chars_of(needle);
    contains_chars(&h, &n)
}

/// `s.starts_with(prefix)`.
pub fn starts_with_chars(s: &Vec<char>, prefix: &Vec<char>) -> (r: bool)
    ensures
        r == starts_with_text(s@, prefix@),
{
    if prefix.len() > s.len() {
        return false;
    }
    let r = occurs_at_exec(s, prefix, 0);
    r
}

} // verus!

verus! {

/// Whether two string slices hold the same characters.
pub fn str_eq(a: &str, b: &str) -> (r: bool)
    ensures
        r == (a@ == b@),
{
    let x = chars_of(a);
    let y = chars_of(b);
    if x.len() != y.len() {
        return false;
    }
    let mut i: usize = 0;
    while i < x.len()
        invariant
            x@ == a@,
            y@ == b@,
            x.len() == y.len(),
            i <= x.len(),
            forall|j: int| 0 <= j < i ==> x@[j] == y@[j],
        decreases x.len() - i,
    {
        if x[i] != y[i] {
            assert(a@[i as int] != b@[i as int]);
            return false;
        }
        i += 1;
    }
    assert(x@ =~= y@);
    true
}

} // verus!

verus! {

// ---------------------------------------------------------------------------
// Trimming and splitting
// ---------------------------------------------------------------------------

/// `char::is_whitespace`: the characters with the Unicode `White_Space` property.
pub open spec fn is_whitespace_char(c: char) -> bool {
    ||| ('\u{9}' <= c && c <= '\u{d}')
    ||| c == ' '
    ||| c == '\u{85}'
    ||| c == '\u{a0}'
    ||| c == '\u{1680}'
    ||| ('\u{2000}' <= c && c <= '\u{200a}')
    ||| c == '\u{2028}'
    ||| c == '\u{2029}'
    ||| c == '\u{202f}'
    ||| c == '\u{205f}'
    ||| c == '\u{3000}'
}

/// The characters removed by a trim: whitespace, or double quotes.
pub open spec fn trimmed_char(quotes: bool, c: char) -> bool {
    if quotes {
        c == '"'
    } else {
        is_whitespace_char(c)
    }
}

pub open spec fn trim_start(s: Seq<char>, quotes: bool) -> Seq<char>
    decreases s.len(),
{
    if s.len() > 0 && trimmed_char(quotes, s[0]) {
        trim_start(s.drop_first(), quotes)
    } else {
        s
    }
}

pub open spec fn trim_end(s: Seq<char>, quotes: bool) -> Seq<char>
    decreases s.len(),
{
    if s.len() > 0 && trimmed_char(quotes, s.last()) {
        trim_end(s.drop_last(), quotes)
    } else {
        s
    }
}

/// `str::trim` (whitespace) or `str::trim_matches('"')` (quotes).
pub open spec fn trim_text(s: Seq<char>, quotes: bool) -> Seq<char> {
    trim_end(trim_start(s, quotes), quotes)
}

/// The pieces of `str::split(sep)`, in order; the empty text has one empty piece.
pub open spec fn split_pieces(s: Seq<char>, sep: char) -> Seq<Seq<char>>
    decreases s.len(),
{
    if s.len() == 0 {
        seq![Seq::<char>::empty()]
    } else {
        let p = split_pieces(s.drop_last(), sep);
        if s.last() == sep {
            p.push(Seq::<char>::empty())
        } else {
            p.update(p.len() - 1, p.last().push(s.last()))
        }
    }
}

/// Whether `c` is removed by the trim.
pub fn is_trimmed_char(quotes: bool, c: char) -> (r: bool)
    ensures
        r == trimmed_char(quotes, c),
{
    if quotes {
        c == '"'
    } else {
        ('\u{9}' <= c && c <= '\u{d}') || c == ' ' || c == '\u{85}' || c == '\u{a0}' || c == '\u{1680}'
            || ('\u{2000}' <= c && c <= '\u{200a}') || c == '\u{2028}' || c == '\u{2029}' || c
            == '\u{202f}' || c == '\u{205f}' || c == '\u{3000}'
    }
}

/// The bounds of the trimmed part of `v[from..to]`.
pub fn trim_bounds(v: &Vec<char>, from: usize, to: usize, quotes: bool) -> (r: (usize, usize))
    requires
        from <= to <= v.len(),
    ensures
        from <= r.0 <= r.1 <= to,
        v@.subrange(r.0 as int, r.1 as int) == trim_text(v@.subrange(from as int, to as int), quotes),
{
    let mut a = from;
    while a < to && is_trimmed_char(quotes, v[a])
        invariant
            from <= a <= to <= v.len(),
            trim_start(v@.subrange(from as int, to as int), quotes) == trim_start(
                v@.subrange(a as int, to as int),
                quotes,
            ),
        decreases to - a,
    {
        proof {
            assert(v@.subrange(a as int, to as int).drop_first() == v@.subrange(a + 1, to as int));
        }
        a += 1;
    }
    proof {
        assert(trim_start(v@.subrange(a as int, to as int), quotes) == v@.subrange(a as int, to as int));
    }
    let mut b = to;
    while b > a && is_trimmed_char(quotes, v[b - 1])
        invariant
            from <= a <= b <= to <= v.len(),
            trim_end(v@.subrange(a as int, to as int), quotes) == trim_end(v@.subrange(a as int, b as int), quotes),
        decreases b - a,
    {
        proof {
            assert(v@.subrange(a as int, b as int).drop_last() == v@.subrange(a as int, b - 1));
            assert(v@.subrange(a as int, b as int).last() == v@[b - 1]);
        }
        b -= 1;
    }
    proof {
        if b > a {
            assert(v@.subrange(a as int, b as int).last() == v@[b - 1]);
        }
    }
    (a, b)
}

/// The bounds of the pieces of `str::split(sep)`.
pub fn split_bounds(v: &Vec<char>, sep: char) -> (r: Vec<(usize, usize)>)
    ensures
        r@.len() == split_pieces(v@, sep).len(),
        forall|k: int|
            0 <= k < r@.len() ==> {
                &&& (#[trigger] r@[k]).0 <= r@[k].1 <= v@.len()
                &&& v@.subrange(r@[k].0 as int, r@[k].1 as int) == split_pieces(v@, sep)[k]
            },
{
    let mut r: Vec<(usize, usize)> = Vec::new();
    r.push((0, 0));
    let mut i: usize = 0;
    proof {
        assert(v@.take(0) == Seq::<char>::empty());
        assert(v@.subrange(0, 0) == Seq::<char>::empty());
    }
    while i < v.len()
        invariant
            i <= v.len(),
            r@.len() == split_pieces(v@.take(i as int), sep).len(),
            r@.len() >= 1,
            r@.last().1 == i,
            forall|k: int|
                0 <= k < r@.len() ==> {
                    &&& (#[trigger] r@[k]).0 <= r@[k].1 <= i
                    &&& v@.subrange(r@[k].0 as int, r@[k].1 as int) == split_pieces(
                        v@.take(i as int),
                        sep,
                    )[k]
                },
        decreases v.len() - i,
    {
        let ghost p = split_pieces(v@.take(i as int), sep);
        proof {
            assert(v@.take(i + 1).drop_last() == v@.take(i as int));
            assert(v@.take(i + 1).last() == v@[i as int]);
        }
        if v[i] == sep {
            r.push((i + 1, i + 1));
            proof {
                assert(v@.subrange(i + 1, i + 1) == Seq::<char>::empty());
                assert forall|k: int| 0 <= k < r@.len() implies {
                    &&& (#[trigger] r@[k]).0 <= r@[k].1 <= i + 1
                    &&& v@.subrange(r@[k].0 as int, r@[k].1 as int) == split_pieces(
                        v@.take(i + 1),
                        sep,
                    )[k]
                } by {
                    if k < r@.len() - 1 {
                        assert(split_pieces(v@.take(i + 1), sep)[k] == p[k]);
                    }
                }
            }
        } else {
            let last = r.len() - 1;
            let (s0, _) = r[last];
            r.set(last, (s0, i + 1));
            proof {
                let q = split_pieces(v@.take(i + 1), sep);
                assert(q == p.update(p.len() - 1, p.last().push(v@[i as int])));
                assert(v@.subrange(s0 as int, i + 1) == v@.subrange(s0 as int, i as int).push(v@[i as int]));
                assert forall|k: int| 0 <= k < r@.len() implies {
                    &&& (#[trigger] r@[k]).0 <= r@[k].1 <= i + 1
                    &&& v@.subrange(r@[k].0 as int, r@[k].1 as int) == q[k]
                } by {
                    if k < r@.len() - 1 {
                        assert(q[k] == p[k]);
                    }
                }
            }
        }
        i += 1;
    }
    proof {
        assert(v@.take(v.len() as int) == v@);
    }
    r
}

} // verus!

verus! {

// ---------------------------------------------------------------------------
// The order of texts (that of `String`'s `Ord`: character by character)
// ---------------------------------------------------------------------------

/// `a` comes before `b`, and they first differ at position `k`.
pub open spec fn less_at(a: Seq<char>, b: Seq<char>, k: int) -> bool {
    &&& 0 <= k <= a.len()
    &&& k <= b.len()
    &&& forall|j: int| 0 <= j < k ==> a[j] == b[j]
    &&& ((k == a.len() && k < b.len()) || (k < a.len() && k < b.len() && a[k] < b[k]))
}

/// `a < b` for strings.
pub open spec fn text_lt(a: Seq<char>, b: Seq<char>) -> bool {
    exists|k: int| less_at(a, b, k)
}

pub proof fn lemma_text_lt_irreflexive(a: Seq<char>)
    ensures
        !text_lt(a, a),
{
}

pub proof fn lemma_text_lt_transitive(a: Seq<char>, b: Seq<char>, c: Seq<char>)
    requires
        text_lt(a, b),
        text_lt(b, c),
    ensures
        text_lt(a, c),
{
    let k1 = choose|k: int| less_at(a, b, k);
    let k2 = choose|k: int| less_at(b, c, k);
    if k1 < k2 {
        assert(b[k1] == c[k1]);
        assert(less_at(a, c, k1));
    } else if k2 < k1 {
        assert(a[k2] == b[k2]);
        assert(less_at(a, c, k2));
    } else {
        assert(less_at(a, c, k1));
    }
}

proof fn lemma_text_total_from(a: Seq<char>, b: Seq<char>, i: int)
    requires
        0 <= i <= a.len(),
        i <= b.len(),
        forall|j: int| 0 <= j < i ==> a[j] == b[j],
        a != b,
    ensures
        text_lt(a, b) || text_lt(b, a),
    decreases a.len() - i,
{
    if i == a.len() || i == b.len() {
        if a.len() == b.len() {
            assert(a =~= b);
        } else if i == a.len() {
            assert(less_at(a, b, i));
        } else {
            assert(less_at(b, a, i));
        }
    } else if a[i] != b[i] {
        if a[i] < b[i] {
            assert(less_at(a, b, i));
        } else {
            assert(less_at(b, a, i));
        }
    } else {
        lemma_text_total_from(a, b, i + 1);
    }
}

pub proof fn lemma_text_lt_total(a: Seq<char>, b: Seq<char>)
    requires
        a != b,
    ensures
        text_lt(a, b) || text_lt(b, a),
{
    lemma_text_total_from(a, b, 0);
}

pub proof fn lemma_text_lt_asymmetric(a: Seq<char>, b: Seq<char>)
    requires
        text_lt(a, b),
    ensures
        !text_lt(b, a),
{
    if text_lt(b, a) {
        lemma_text_lt_transitive(a, b, a);
    }
}

/// How two texts compare.
#[derive(PartialEq, Eq, Structural)]
pub enum TextOrder {
    Before,
    Same,
    After,
}

/// Compares two texts character by character.
pub fn text_order(a: &Vec<char>, b: &Vec<char>) -> (r: TextOrder)
    ensures
        r == TextOrder::Before <==> text_lt(a@, b@),
        r == TextOrder::Same <==> a@ == b@,
        r == TextOrder::After <==> text_lt(b@, a@),
{
    let mut i: usize = 0;
    while i < a.len() && i < b.len() && a[i] == b[i]
        invariant
            i <= a.len(),
            i <= b.len(),
            forall|j: int| 0 <= j < i ==> a@[j] == b@[j],
        decreases a.len() - i,
    {
        i += 1;
    }
    proof {
        lemma_text_lt_irreflexive(a@);
    }
    if i == a.len() && i == b.len() {
        assert(a@ =~= b@);
        TextOrder::Same
    } else if i == a.len() || (i < b.len() && a[i] < b[i]) {
        assert(less_at(a@, b@, i as int));
        proof {
            lemma_text_lt_asymmetric(a@, b@);
        }
        TextOrder::Before
    } else {
        assert(less_at(b@, a@, i as int));
        proof {
            lemma_text_lt_asymmetric(b@, a@);
        }
        TextOrder::After
    }
}

} // verus!
