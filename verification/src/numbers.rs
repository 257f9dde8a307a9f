use vstd::prelude::*;
use crate::text::{signed_decimal_value, all_ascii_digits, chars_of, decimal_digits, decimal_text, digit_char, digit_value, digits_value, is_ascii_digit, parsed_i32, parsed_i64, push_char, push_chars, split_pieces};

verus! {

/// Groups the digits of `d` in threes from the right, separated by commas.
pub open spec fn grouped_digits(d: Seq<char>) -> Seq<char>
    decreases d.len(),
{
    if d.len() <= 3 {
        d
    } else {
        grouped_digits(d.subrange(0, d.len() - 3)) + seq![','] + d.subrange(d.len() - 3, d.len() as int)
    }
}

/// An integer written with thousands separators, e.g. `-1,234,567`.
pub open spec fn grouped_number(n: int) -> Seq<char> {
    if n < 0 {
        seq!['-'] + grouped_digits(decimal_digits((-n) as nat))
    } else {
        grouped_digits(decimal_digits(n as nat))
    }
}

proof fn lemma_digits_value_prefix(s: Seq<char>, k: int)
    requires
        all_ascii_digits(s),
        0 <= k <= s.len(),
    ensures
        digits_value(s.take(k)) <= digits_value(s),
    decreases s.len(),
{
    if k < s.len() {
        let t = s.drop_last();
        assert(t.take(k) == s.take(k));
        assert(all_ascii_digits(t)) by {
            assert forall|i: int| 0 <= i < t.len() implies is_ascii_digit(#[trigger] t[i]) by {
                assert(t[i] == s[i]);
            }
        }
        lemma_digits_value_prefix(t, k);
        assert(is_ascii_digit(s[s.len() - 1]));
    } else {
        assert(s.take(k) == s);
    }
}

fn digit_of(c: char) -> (r: u64)
    requires
        is_ascii_digit(c),
    ensures
        r == digit_value(c),
        r < 10,
{
    (c as u32 - '0' as u32) as u64
}

/// The magnitude written by the ASCII digits `v[start..]`, or `None` when a character
/// is not a digit or the magnitude exceeds `limit`.
fn digits_magnitude(v: &Vec<char>, start: usize, limit: u128) -> (r: Option<u128>)
    requires
        start <= v.len(),
        limit <= 1000000000000000000000000000000u128,
    ensures
        r matches Some(m) ==> all_ascii_digits(v@.subrange(start as int, v.len() as int)) && m
            == digits_value(v@.subrange(start as int, v.len() as int)) && m <= limit,
        r is None ==> !all_ascii_digits(v@.subrange(start as int, v.len() as int)) || digits_value(
            v@.subrange(start as int, v.len() as int),
        ) > limit,
{
    let ghost full = v@.subrange(start as int, v.len() as int);
    let mut acc: u128 = 0;
    let mut i = start;
    while i < v.len()
        invariant
            start <= i <= v.len(),
            full == v@.subrange(start as int, v.len() as int),
            all_ascii_digits(v@.subrange(start as int, i as int)),
            acc == digits_value(v@.subrange(start as int, i as int)),
            acc <= limit,
            limit <= 1000000000000000000000000000000u128,
        decreases v.len() - i,
    {
        let c = v[i];
        if !('0' <= c && c <= '9') {
            proof {
                assert(full[i - start] == c);
            }
            return None;
        }
        let d = digit_of(c);
        let ghost pre = v@.subrange(start as int, i as int);
        let ghost next = v@.subrange(start as int, i + 1);
        proof {
            assert(next.drop_last() == pre);
            assert(next.last() == c);
            assert(all_ascii_digits(next)) by {
                assert forall|j: int| 0 <= j < next.len() implies is_ascii_digit(#[trigger] next[j]) by {
                    if j < pre.len() {
                        assert(next[j] == pre[j]);
                    }
                }
            }
        }
        acc = acc * 10 + d as u128;
        if acc > limit {
            proof {
                if all_ascii_digits(full) {
                    assert(full.take(i + 1 - start) == next);
                    lemma_digits_value_prefix(full, i + 1 - start);
                }
            }
            return None;
        }
        i += 1;
    }
    Some(acc)
}

/// `s.parse::<i64>().ok()`: an optional sign followed by ASCII digits, within range.
pub fn parse_i64(s: &str) -> (r: Option<i64>)
    ensures
        r == parsed_i64(s@),
{
    let v = chars_of(s);
    if v.len() == 0 {
        return None;
    }
    let first = v[0];
    let signed = first == '+' || first == '-';
    let start: usize = if signed { 1 } else { 0 };
    if signed && v.len() == 1 {
        return None;
    }
    let neg = first == '-';
    let ghost rest = v@.subrange(start as int, v.len() as int);
    proof {
        if signed {
            assert(rest == s@.drop_first());
        } else {
            assert(rest == s@);
        }
    }
    match digits_magnitude(&v, start, 9223372036854775808u128) {
        Some(m) => {
            if neg {
                if m == 9223372036854775808u128 {
                    Some(i64::MIN)
                } else {
                    Some(-(m as i64))
                }
            } else if m <= 9223372036854775807u128 {
                Some(m as i64)
            } else {
                None
            }
        },
        None => None,
    }
}

/// `s.parse::<i32>().ok()`.
pub fn parse_i32(s: &str) -> (r: Option<i32>)
    ensures
        r == parsed_i32(s@),
{
    match parse_i64(s) {
        Some(v) => if -2147483648 <= v && v <= 2147483647 {
            Some(v as i32)
        } else {
            None
        },
        None => None,
    }
}

/// `s.parse::<u64>().ok()`: an optional `+` followed by ASCII digits, within range (a
/// `-` is not a digit of an unsigned number).
pub open spec fn parsed_unsigned(s: Seq<char>) -> Option<u64> {
    if s.len() > 0 && s[0] == '-' {
        None
    } else {
        match signed_decimal_value(s) {
            Some(v) => if v <= u64::MAX {
                Some(v as u64)
            } else {
                None
            },
            None => None,
        }
    }
}

/// `s.parse::<u64>().ok()`.
pub fn parse_u64(s: &str) -> (r: Option<u64>)
    ensures
        r == parsed_unsigned(s@),
{
    let v = chars_of(s);
    if v.len() == 0 {
        return None;
    }
    let first = v[0];
    if first == '-' {
        return None;
    }
    let start: usize = if first == '+' { 1 } else { 0 };
    if start == 1 && v.len() == 1 {
        return None;
    }
    let ghost rest = v@.subrange(start as int, v.len() as int);
    proof {
        if start == 1 {
            assert(rest == s@.drop_first());
        } else {
            assert(rest == s@);
        }
    }
    match digits_magnitude(&v, start, 18446744073709551615u128) {
        Some(m) => Some(m as u64),
        None => None,
    }
}

fn digit_to_char(d: u64) -> (c: char)
    requires
        d < 10,
    ensures
        c == digit_char(d as nat),
{
    let b: u8 = (d as u8) + 48u8;
    b as char
}

/// Appends the decimal digits of `n`.
pub fn push_decimal(s: &mut String, n: u64)
    ensures
        final(s)@ == old(s)@ + decimal_digits(n as nat),
    decreases n,
{
    if n >= 10 {
        push_decimal(s, n / 10);
    }
    push_char(s, digit_to_char(n % 10));
    proof {
        if n >= 10 {
            assert(decimal_digits(n as nat) == decimal_digits((n / 10) as nat).push(digit_char((n % 10) as nat)));
        }
    }
}

/// The magnitude of `n` as an unsigned number.
pub fn magnitude(n: i64) -> (m: u64)
    ensures
        m == if n < 0 { -n } else { n as int },
{
    if n < 0 {
        if n == i64::MIN {
            9223372036854775808u64
        } else {
            (-n) as u64
        }
    } else {
        n as u64
    }
}

/// Appends `n` as `to_string` writes it.
pub fn push_int(s: &mut String, n: i64)
    ensures
        final(s)@ == old(s)@ + decimal_text(n as int),
{
    if n < 0 {
        push_char(s, '-');
    }
    push_decimal(s, magnitude(n));
    proof {
        if n < 0 {
            assert(old(s)@.push('-') + decimal_digits((-n) as nat) == old(s)@ + (seq!['-'] + decimal_digits((-n) as nat)));
        }
    }
}

/// Appends the digits `d[0..end]` grouped by commas.
fn push_grouped(s: &mut String, d: &Vec<char>, end: usize)
    requires
        end <= d.len(),
    ensures
        final(s)@ == old(s)@ + grouped_digits(d@.subrange(0, end as int)),
    decreases end,
{
    let ghost part = d@.subrange(0, end as int);
    if end <= 3 {
        push_chars(s, d, 0, end);
    } else {
        push_grouped(s, d, end - 3);
        push_char(s, ',');
        push_chars(s, d, end - 3, end);
        proof {
            assert(part.subrange(0, part.len() - 3) == d@.subrange(0, end - 3));
            assert(part.subrange(part.len() - 3, part.len() as int) == d@.subrange(end - 3, end as int));
        }
    }
}

/// An integer written with commas between groups of three digits.
pub fn grouped_number_string(n: i64) -> (r: String)
    ensures
        r@ == grouped_number(n as int),
{
    let mut digits = String::new();
    push_decimal(&mut digits, magnitude(n));
    let d = chars_of(digits.as_str());
    let mut r = String::new();
    if n < 0 {
        push_char(&mut r, '-');
    }
    push_grouped(&mut r, &d, d.len());
    proof {
        assert(d@.subrange(0, d.len() as int) == d@);
        if n < 0 {
            assert(seq!['-'] + grouped_digits(d@) == Seq::<char>::empty().push('-') + grouped_digits(d@));
        } else {
            assert(Seq::<char>::empty() + grouped_digits(d@) == grouped_digits(d@));
        }
    }
    r
}

/// The decimal digits of `n` are ASCII digits that denote `n`.
pub proof fn lemma_decimal_digits_value(n: nat)
    ensures
        decimal_digits(n).len() > 0,
        all_ascii_digits(decimal_digits(n)),
        digits_value(decimal_digits(n)) == n,
    decreases n,
{
    let d = decimal_digits(n);
    let k = n % 10;
    assert(digit_value(digit_char(k)) == k);
    if n < 10 {
        assert(d == seq![digit_char(n)]);
        assert(d.drop_last() == Seq::<char>::empty());
        assert(d.last() == digit_char(n));
        assert(digits_value(Seq::<char>::empty()) == 0);
    } else {
        assert((n / 10) * 10 + n % 10 == n) by (nonlinear_arith);
        lemma_decimal_digits_value(n / 10);
        let e = decimal_digits(n / 10);
        assert(d.drop_last() == e);
        assert(d.last() == digit_char(n % 10));
        assert forall|i: int| 0 <= i < d.len() implies is_ascii_digit(#[trigger] d[i]) by {
            if i < e.len() {
                assert(d[i] == e[i]);
            }
        }
    }
}

/// Parsing what `to_string` writes of an `i32` gives the number back.
pub proof fn lemma_parse_i32_decimal(x: i32)
    ensures
        parsed_i32(decimal_text(x as int)) == Some(x),
{
    if x < 0 {
        let m = (-x) as nat;
        lemma_decimal_digits_value(m);
        let t = decimal_text(x as int);
        assert(t.drop_first() == decimal_digits(m));
    } else {
        lemma_decimal_digits_value(x as nat);
        let d = decimal_digits(x as nat);
        assert(is_ascii_digit(d[0]));
    }
}

// ---------------------------------------------------------------------------
// The shape of a grouped number
// ---------------------------------------------------------------------------

/// A text without its commas.
pub open spec fn strip_commas(s: Seq<char>) -> Seq<char>
    decreases s.len(),
{
    if s.len() == 0 {
        s
    } else if s.last() == ',' {
        strip_commas(s.drop_last())
    } else {
        strip_commas(s.drop_last()).push(s.last())
    }
}

/// Digit groups as thousands are written: a first group of one to three digits, then
/// groups of exactly three.
pub open spec fn well_grouped(groups: Seq<Seq<char>>) -> bool {
    &&& groups.len() >= 1
    &&& 1 <= groups[0].len() <= 3
    &&& forall|k: int| 1 <= k < groups.len() ==> (#[trigger] groups[k]).len() == 3
    &&& forall|k: int| 0 <= k < groups.len() ==> all_ascii_digits(#[trigger] groups[k])
}

/// The digits of a grouped number: without its sign.
pub open spec fn grouped_digits_part(g: Seq<char>, n: int) -> Seq<char> {
    if n < 0 {
        g.drop_first()
    } else {
        g
    }
}

proof fn lemma_strip_append(a: Seq<char>, b: Seq<char>)
    ensures
        strip_commas(a + b) == strip_commas(a) + strip_commas(b),
    decreases b.len(),
{
    if b.len() == 0 {
        assert(a + b == a);
        assert(strip_commas(a) + strip_commas(b) == strip_commas(a));
    } else {
        lemma_strip_append(a, b.drop_last());
        assert((a + b).drop_last() == a + b.drop_last());
        assert((a + b).last() == b.last());
    }
}

proof fn lemma_strip_digits(d: Seq<char>)
    requires
        all_ascii_digits(d),
    ensures
        strip_commas(d) == d,
    decreases d.len(),
{
    if d.len() > 0 {
        let e = d.drop_last();
        assert(all_ascii_digits(e)) by {
            assert forall|i: int| 0 <= i < e.len() implies is_ascii_digit(#[trigger] e[i]) by {
                assert(e[i] == d[i]);
            }
        }
        lemma_strip_digits(e);
        assert(is_ascii_digit(d[d.len() - 1]));
        assert(e.push(d.last()) == d);
    }
}

proof fn lemma_digits_parts(d: Seq<char>, k: int)
    requires
        all_ascii_digits(d),
        0 <= k <= d.len(),
    ensures
        all_ascii_digits(d.subrange(0, k)),
        all_ascii_digits(d.subrange(k, d.len() as int)),
{
    assert forall|i: int| 0 <= i < k implies is_ascii_digit(#[trigger] d.subrange(0, k)[i]) by {
        assert(d.subrange(0, k)[i] == d[i]);
    }
    assert forall|i: int| 0 <= i < d.len() - k implies is_ascii_digit(
        #[trigger] d.subrange(k, d.len() as int)[i],
    ) by {
        assert(d.subrange(k, d.len() as int)[i] == d[k + i]);
    }
}

proof fn lemma_strip_grouped(d: Seq<char>)
    requires
        all_ascii_digits(d),
    ensures
        strip_commas(grouped_digits(d)) == d,
    decreases d.len(),
{
    if d.len() <= 3 {
        lemma_strip_digits(d);
    } else {
        let a = d.subrange(0, d.len() - 3);
        let b = d.subrange(d.len() - 3, d.len() as int);
        lemma_digits_parts(d, d.len() - 3);
        lemma_strip_grouped(a);
        lemma_strip_digits(b);
        lemma_strip_append(grouped_digits(a) + seq![','], b);
        lemma_strip_append(grouped_digits(a), seq![',']);
        assert(seq![','].drop_last() == Seq::<char>::empty());
        assert(seq![','].last() == ',');
        assert(strip_commas(Seq::<char>::empty()) == Seq::<char>::empty());
        assert(strip_commas(seq![',']) == Seq::<char>::empty());
        assert(a + b == d);
    }
}

proof fn lemma_split_nonempty(s: Seq<char>, sep: char)
    ensures
        split_pieces(s, sep).len() >= 1,
    decreases s.len(),
{
    if s.len() > 0 {
        lemma_split_nonempty(s.drop_last(), sep);
    }
}

/// Appending text without the separator extends the last piece.
proof fn lemma_split_extend(a: Seq<char>, b: Seq<char>, sep: char)
    requires
        !b.contains(sep),
    ensures
        split_pieces(a + b, sep) == split_pieces(a, sep).update(
            split_pieces(a, sep).len() - 1,
            split_pieces(a, sep).last() + b,
        ),
    decreases b.len(),
{
    lemma_split_nonempty(a, sep);
    let p = split_pieces(a, sep);
    if b.len() == 0 {
        assert(a + b == a);
        assert(p.last() + b == p.last());
        assert(p.update(p.len() - 1, p.last()) == p);
    } else {
        let c = b.drop_last();
        assert(!c.contains(sep)) by {
            if c.contains(sep) {
                let i = choose|i: int| 0 <= i < c.len() && c[i] == sep;
                assert(b[i] == c[i]);
            }
        }
        lemma_split_extend(a, c, sep);
        assert((a + b).drop_last() == a + c);
        assert((a + b).last() == b.last());
        assert(b.last() != sep) by {
            assert(b[b.len() - 1] == b.last());
        }
        assert((p.last() + c).push(b.last()) == p.last() + b);
        let q = p.update(p.len() - 1, p.last() + c);
        assert(q.last() == p.last() + c);
        assert(q.update(q.len() - 1, q.last().push(b.last())) == p.update(p.len() - 1, p.last() + b));
    }
}

proof fn lemma_no_commas(d: Seq<char>)
    requires
        all_ascii_digits(d),
    ensures
        !d.contains(','),
{
    if d.contains(',') {
        let i = choose|i: int| 0 <= i < d.len() && d[i] == ',';
        assert(is_ascii_digit(d[i]));
    }
}

proof fn lemma_grouped_shape(d: Seq<char>)
    requires
        all_ascii_digits(d),
        d.len() >= 1,
    ensures
        well_grouped(split_pieces(grouped_digits(d), ',')),
        grouped_digits(d).len() >= 1,
        grouped_digits(d)[0] == d[0],
    decreases d.len(),
{
    lemma_no_commas(d);
    if d.len() <= 3 {
        lemma_split_extend(Seq::<char>::empty(), d, ',');
        assert(Seq::<char>::empty() + d == d);
        let p = split_pieces(Seq::<char>::empty(), ',');
        assert(p == seq![Seq::<char>::empty()]);
        assert(Seq::<char>::empty() + d == d);
    } else {
        let a = d.subrange(0, d.len() - 3);
        let b = d.subrange(d.len() - 3, d.len() as int);
        lemma_digits_parts(d, d.len() - 3);
        lemma_grouped_shape(a);
        lemma_no_commas(b);
        let g = grouped_digits(a);
        let ga = g + seq![','];
        lemma_split_extend(ga, b, ',');
        assert(ga.drop_last() == g);
        assert(ga.last() == ',');
        let pa = split_pieces(g, ',');
        let pb = split_pieces(ga, ',');
        assert(pb == pa.push(Seq::<char>::empty()));
        assert(Seq::<char>::empty() + b == b);
        let r = pb.update(pb.len() - 1, pb.last() + b);
        assert(r == pa.push(b));
        assert(ga + b == grouped_digits(d));
        assert forall|k: int| 1 <= k < r.len() implies (#[trigger] r[k]).len() == 3 by {
            if k < pa.len() {
                assert(r[k] == pa[k]);
            }
        }
        assert forall|k: int| 0 <= k < r.len() implies all_ascii_digits(#[trigger] r[k]) by {
            if k < pa.len() {
                assert(r[k] == pa[k]);
            }
        }
        assert(r[0] == pa[0]);
        assert((ga + b)[0] == g[0]);
        assert(a[0] == d[0]);
    }
}

/// A grouped number is the number's decimal text with commas put in: removing them gives
/// the decimal text back, it starts with `-` exactly when the number is negative, and its
/// digits come in a first group of one to three and then groups of three.
pub proof fn law_grouped_number_shape(n: int)
    ensures
        strip_commas(grouped_number(n)) == decimal_text(n),
        grouped_number(n).len() >= 1,
        (grouped_number(n)[0] == '-') == (n < 0),
        well_grouped(split_pieces(grouped_digits_part(grouped_number(n), n), ',')),
{
    let m: nat = if n < 0 { (-n) as nat } else { n as nat };
    let d = decimal_digits(m);
    lemma_decimal_digits_value(m);
    lemma_strip_grouped(d);
    lemma_grouped_shape(d);
    assert(is_ascii_digit(d[0]));
    if n < 0 {
        let g = grouped_digits(d);
        lemma_strip_append(seq!['-'], g);
        assert(seq!['-'].drop_last() == Seq::<char>::empty());
        assert(seq!['-'].last() == '-');
        assert(strip_commas(Seq::<char>::empty()) == Seq::<char>::empty());
        assert(Seq::<char>::empty().push('-') == seq!['-']);
        assert(strip_commas(seq!['-']) == seq!['-']);
        assert((seq!['-'] + g).drop_first() == g);
    }
}

} // verus!
