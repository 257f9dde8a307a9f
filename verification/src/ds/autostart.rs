use vstd::prelude::*;
use crate::text::{chars_of, owned, push_str, str_eq};

verus! {

// ---------------------------------------------------------------------------
// The registry value that starts the application at log-in
// ---------------------------------------------------------------------------

/// The UTF-16 code units of a character.
pub open spec fn utf16_of_char(c: char) -> Seq<u16> {
    let v = c as u32;
    if v < 0x10000 {
        seq![v as u16]
    } else {
        let w = v - 0x10000;
        seq![(0xD800 + w / 1024) as u16, (0xDC00 + w % 1024) as u16]
    }
}

/// The UTF-16 code units of a text (`str::encode_utf16`).
pub open spec fn utf16_units(s: Seq<char>) -> Seq<u16>
    decreases s.len(),
{
    if s.len() == 0 {
        Seq::empty()
    } else {
        utf16_units(s.drop_last()) + utf16_of_char(s.last())
    }
}

/// Code units as little-endian bytes.
pub open spec fn le_bytes(units: Seq<u16>) -> Seq<u8>
    decreases units.len(),
{
    if units.len() == 0 {
        Seq::empty()
    } else {
        le_bytes(units.drop_last()) + seq![(units.last() % 256) as u8, (units.last() / 256) as u8]
    }
}

/// The bytes of a `REG_SZ` value holding `path`: its UTF-16 units and a terminating zero,
/// little-endian.
pub open spec fn reg_sz_of(path: Seq<char>) -> Seq<u8> {
    le_bytes(utf16_units(path).push(0))
}

fn push_unit(bytes: &mut Vec<u8>, u: u16)
    ensures
        final(bytes)@ == old(bytes)@ + seq![(u % 256) as u8, (u / 256) as u8],
{
    bytes.push((u % 256) as u8);
    bytes.push((u / 256) as u8);
    proof {
        assert(final(bytes)@ =~= old(bytes)@ + seq![(u % 256) as u8, (u / 256) as u8]);
    }
}

proof fn lemma_le_bytes_append(a: Seq<u16>, b: Seq<u16>)
    ensures
        le_bytes(a + b) == le_bytes(a) + le_bytes(b),
    decreases b.len(),
{
    if b.len() == 0 {
        assert(a + b == a);
    } else {
        lemma_le_bytes_append(a, b.drop_last());
        assert((a + b).drop_last() == a + b.drop_last());
        assert((a + b).last() == b.last());
    }
}

/// The bytes of the `REG_SZ` value that holds the program's path.
pub fn reg_sz_bytes(path: &str) -> (r: Vec<u8>)
    ensures
        r@ == reg_sz_of(path@),
{
    let v = chars_of(path);
    let mut bytes: Vec<u8> = Vec::new();
    let mut k: usize = 0;
    while k < v.len()
        invariant
            k <= v@.len(),
            v@ == path@,
            bytes@ == le_bytes(utf16_units(v@.take(k as int))),
        decreases v.len() - k,
    {
        let ghost before = v@.take(k as int);
        let c = v[k];
        let code = c as u32;
        proof {
            vstd::utf8::char_is_scalar(c);
            assert(code == c as u32);
            assert(v@.take(k + 1).drop_last() == before);
            assert(v@.take(k + 1).last() == c);
            lemma_le_bytes_append(utf16_units(before), utf16_of_char(c));
        }
        if code < 0x10000 {
            push_unit(&mut bytes, code as u16);
            proof {
                assert(utf16_of_char(c) == seq![code as u16]);
                let one = seq![code as u16];
                assert(one.drop_last() == Seq::<u16>::empty());
                assert(one.last() == code as u16);
                assert(le_bytes(Seq::<u16>::empty()) == Seq::<u8>::empty());
                assert(le_bytes(one) =~= seq![((code as u16) % 256) as u8, ((code as u16) / 256) as u8]);
            }
        } else {
            let w = code - 0x10000;
            let hi = (0xD800 + w / 1024) as u16;
            let lo = (0xDC00 + w % 1024) as u16;
            push_unit(&mut bytes, hi);
            push_unit(&mut bytes, lo);
            proof {
                let pair = seq![hi, lo];
                assert(utf16_of_char(c) == pair);
                assert(pair.drop_last() == seq![hi]);
                assert(seq![hi].drop_last() == Seq::<u16>::empty());
                assert(le_bytes(Seq::<u16>::empty()) == Seq::<u8>::empty());
                assert(le_bytes(seq![hi]) =~= seq![(hi % 256) as u8, (hi / 256) as u8]);
                assert(le_bytes(pair) =~= seq![(hi % 256) as u8, (hi / 256) as u8, (lo % 256) as u8, (lo / 256) as u8]);
                assert(bytes@ =~= le_bytes(utf16_units(before)) + le_bytes(pair));
            }
        }
        k += 1;
    }
    proof {
        assert(v@.take(v@.len() as int) == v@);
        lemma_le_bytes_append(utf16_units(v@), seq![0u16]);
        assert(utf16_units(v@).push(0) == utf16_units(v@) + seq![0u16]);
        assert(seq![0u16].drop_last() == Seq::<u16>::empty());
        assert(le_bytes(Seq::<u16>::empty()) == Seq::<u8>::empty());
        assert(le_bytes(seq![0u16]) =~= seq![0u8, 0u8]);
    }
    push_unit(&mut bytes, 0);
    bytes
}

// ---------------------------------------------------------------------------
// Checking that the value was written
// ---------------------------------------------------------------------------

/// How often the written value is read back (every half second).
pub open spec fn read_backs() -> nat {
    120
}

/// What a read-back of the registry value means.
pub enum ReadBack {
    /// The value holds the program's path: done.
    Verified,
    /// Read again after half a second.
    Retry,
    /// Give up with this message.
    Failed(String),
}

pub open spec fn mismatch_message() -> Seq<char> {
    "注册表值已写入但内容不匹配，可能被安全软件拦截"@
}

pub open spec fn timeout_message() -> Seq<char> {
    "注册表写入超时（60秒），值未被验证，可能被安全软件拦截"@
}

/// Decides what the read-back number `attempt` means (`read_backs()` is the last one,
/// made after the others failed): a value equal to the path verifies the write until
/// then; the last read fails with a message that says whether a value was there.
pub fn read_back(attempt: u32, read: Option<&str>, expected: &str) -> (r: ReadBack)
    requires
        attempt <= read_backs(),
    ensures
        attempt < read_backs() ==> match read {
            Some(v) => if v@ == expected@ {
                r == ReadBack::Verified
            } else {
                r == ReadBack::Retry
            },
            None => r == ReadBack::Retry,
        },
        attempt == read_backs() ==> match r {
            ReadBack::Failed(m) => m@ == if read is Some {
                mismatch_message()
            } else {
                timeout_message()
            },
            _ => false,
        },
{
    if attempt < 120 {
        match read {
            Some(v) => {
                if str_eq(v, expected) {
                    ReadBack::Verified
                } else {
                    ReadBack::Retry
                }
            },
            None => ReadBack::Retry,
        }
    } else {
        match read {
            Some(_) => ReadBack::Failed(owned("注册表值已写入但内容不匹配，可能被安全软件拦截")),
            None => ReadBack::Failed(owned("注册表写入超时（60秒），值未被验证，可能被安全软件拦截")),
        }
    }
}

/// The program's registered path: the current value, else the one under the old name.
pub fn registered_path(current: Option<String>, legacy: Option<String>) -> (r: Option<String>)
    ensures
        r == match current {
            Some(c) => Some(c),
            None => legacy,
        },
{
    match current {
        Some(c) => Some(c),
        None => legacy,
    }
}

/// The outcome of deleting one registry value.
pub enum Deletion {
    Deleted,
    /// There was no such value.
    Missing,
    /// The deletion failed with this message.
    Failed(String),
}

/// The first failure among the deletions, if any.
pub open spec fn first_failure(results: Seq<Deletion>) -> Option<Seq<char>>
    decreases results.len(),
{
    if results.len() == 0 {
        None
    } else {
        match results[0] {
            Deletion::Failed(m) => Some(m@),
            _ => first_failure(results.drop_first()),
        }
    }
}

/// Turning the start at log-in off deletes both values; a missing value is fine, and
/// the first other failure is reported.
pub fn deletion_outcome(results: &Vec<Deletion>) -> (r: Result<(), String>)
    ensures
        match r {
            Ok(_) => first_failure(results@) is None,
            Err(e) => first_failure(results@) matches Some(m) && e@ == "删除注册表失败: "@ + m,
        },
{
    let mut k: usize = 0;
    proof {
        assert(results@.skip(0) == results@);
    }
    while k < results.len()
        invariant
            k <= results@.len(),
            first_failure(results@) == first_failure(results@.skip(k as int)),
        decreases results.len() - k,
    {
        proof {
            assert(results@.skip(k as int)[0] == results@[k as int]);
            assert(results@.skip(k as int).drop_first() == results@.skip(k + 1));
        }
        match &results[k] {
            Deletion::Failed(m) => {
                let mut e = owned("删除注册表失败: ");
                push_str(&mut e, m.as_str());
                return Err(e);
            },
            _ => {},
        }
        k += 1;
    }
    proof {
        assert(results@.skip(k as int).len() == 0);
    }
    Ok(())
}

} // verus!
