use vstd::prelude::*;
use crate::text::{owned, push_str, str_eq};

verus! {

/// Texts joined with a separator between neighbours.
pub open spec fn joined(texts: Seq<Seq<char>>, sep: Seq<char>) -> Seq<char>
    decreases texts.len(),
{
    if texts.len() == 0 {
        Seq::empty()
    } else if texts.len() == 1 {
        texts[0]
    } else {
        joined(texts.drop_last(), sep) + sep + texts.last()
    }
}

/// No text occurs twice.
pub open spec fn distinct_texts(texts: Seq<Seq<char>>) -> bool {
    forall|i: int, j: int| 0 <= i < j < texts.len() ==> texts[i] != texts[j]
}

/// The list after recording `msg`: appended unless it is already there.
pub open spec fn with_message(texts: Seq<Seq<char>>, msg: Seq<char>) -> Seq<Seq<char>> {
    if texts.contains(msg) {
        texts
    } else {
        texts.push(msg)
    }
}

/// The messages that are reported: only the expired-login message when it is among
/// them, else all of them.
pub open spec fn reported_messages(texts: Seq<Seq<char>>, unauth: Seq<char>) -> Seq<Seq<char>> {
    if texts.contains(unauth) {
        texts.filter(|t: Seq<char>| t == unauth)
    } else {
        texts
    }
}

/// The error text of a refresh: the reported messages, one per line, or none.
pub open spec fn error_text(texts: Seq<Seq<char>>, unauth: Seq<char>) -> Option<Seq<char>> {
    let kept = reported_messages(texts, unauth);
    if kept.len() == 0 {
        None
    } else {
        Some(joined(kept, "\n"@))
    }
}

/// The error messages collected while a refresh runs, each once, in order.
pub struct ErrorLog {
    messages: Vec<String>,
}

impl View for ErrorLog {
    type V = Seq<Seq<char>>;

    closed spec fn view(&self) -> Seq<Seq<char>> {
        self.messages@.map_values(|s: String| s@)
    }
}

impl ErrorLog {
    pub fn new() -> (r: ErrorLog)
        ensures
            r@ == Seq::<Seq<char>>::empty(),
    {
        let r = ErrorLog { messages: Vec::new() };
        assert(r@ =~= Seq::<Seq<char>>::empty());
        r
    }

    /// Whether `msg` was recorded.
    pub fn contains(&self, msg: &str) -> (r: bool)
        ensures
            r == self@.contains(msg@),
    {
        let mut i: usize = 0;
        while i < self.messages.len()
            invariant
                i <= self.messages.len(),
                self@.len() == self.messages@.len(),
                forall|j: int| 0 <= j < i ==> self@[j] != msg@,
            decreases self.messages.len() - i,
        {
            proof {
                assert(self@[i as int] == self.messages@[i as int]@);
            }
            if str_eq(self.messages[i].as_str(), msg) {
                assert(self@[i as int] == msg@);
                return true;
            }
            i += 1;
        }
        false
    }

    /// Records `msg` unless it is already there.
    pub fn record(&mut self, msg: String)
        ensures
            final(self)@ == with_message(old(self)@, msg@),
    {
        if !self.contains(msg.as_str()) {
            let ghost before = self.messages@;
            self.messages.push(msg);
            proof {
                assert(self.messages@.map_values(|s: String| s@) =~= before.map_values(|s: String| s@).push(
                    msg@,
                ));
            }
        }
    }

    /// The error text of the refresh, given the expired-login message.
    pub fn error_text(&self, unauth: &str) -> (r: Option<String>)
        ensures
            r is Some == error_text(self@, unauth@) is Some,
            r matches Some(t) ==> t@ == error_text(self@, unauth@)->0,
    {
        let has_unauth = self.contains(unauth);
        let mut kept: Vec<String> = Vec::new();
        let ghost texts = self@;
        let ghost target = reported_messages(texts, unauth@);
        let mut i: usize = 0;
        while i < self.messages.len()
            invariant
                i <= self.messages.len(),
                texts == self@,
                texts.len() == self.messages@.len(),
                has_unauth == texts.contains(unauth@),
                target == reported_messages(texts, unauth@),
                kept@.map_values(|s: String| s@) == if has_unauth {
                    texts.take(i as int).filter(|t: Seq<char>| t == unauth@)
                } else {
                    texts.take(i as int)
                },
            decreases self.messages.len() - i,
        {
            let ghost before = kept@;
            proof {
                assert(texts[i as int] == self.messages@[i as int]@);
                assert(texts.take(i + 1).drop_last() == texts.take(i as int));
                assert(texts.take(i + 1).last() == texts[i as int]);
                reveal_with_fuel(Seq::<_>::filter, 1);
            }
            if !has_unauth || str_eq(self.messages[i].as_str(), unauth) {
                kept.push(owned(self.messages[i].as_str()));
                proof {
                    assert(kept@.map_values(|s: String| s@) =~= before.map_values(|s: String| s@).push(
                        texts[i as int],
                    ));
                }
            }
            i += 1;
        }
        proof {
            assert(texts.take(texts.len() as int) == texts);
        }
        if kept.len() == 0 {
            return None;
        }
        let mut out = String::new();
        let mut k: usize = 0;
        while k < kept.len()
            invariant
                1 <= kept.len(),
                k <= kept.len(),
                kept@.map_values(|s: String| s@) == target,
                k > 0 ==> out@ == joined(target.take(k as int), "\n"@),
                k == 0 ==> out@ == Seq::<char>::empty(),
            decreases kept.len() - k,
        {
            proof {
                assert(target[k as int] == kept@[k as int]@);
                assert(target.take(k + 1).drop_last() == target.take(k as int));
                assert(target.take(k + 1).last() == target[k as int]);
            }
            if k > 0 {
                push_str(&mut out, "\n");
            }
            push_str(&mut out, kept[k].as_str());
            proof {
                if k == 0 {
                    assert(target.take(1).len() == 1);
                    assert(out@ == Seq::<char>::empty() + target[0]);
                }
            }
            k += 1;
        }
        proof {
            assert(target.take(kept.len() as int) == target);
        }
        Some(out)
    }
}

/// Recording keeps every message once.
pub proof fn law_record_keeps_messages_distinct(texts: Seq<Seq<char>>, msg: Seq<char>)
    requires
        distinct_texts(texts),
    ensures
        distinct_texts(with_message(texts, msg)),
        with_message(texts, msg).contains(msg),
{
    if !texts.contains(msg) {
        let n = texts.push(msg);
        assert forall|i: int, j: int| 0 <= i < j < n.len() implies n[i] != n[j] by {
            if j == texts.len() {
                assert(n[i] == texts[i]);
            }
        }
        assert(n[texts.len() as int] == msg);
    }
}

/// Texts joined with a separator between neighbours.
pub fn join_texts(texts: &Vec<String>, sep: &str) -> (r: String)
    ensures
        r@ == joined(texts@.map_values(|s: String| s@), sep@),
{
    let ghost t = texts@.map_values(|s: String| s@);
    let mut out = String::new();
    let mut k: usize = 0;
    while k < texts.len()
        invariant
            k <= texts@.len(),
            t == texts@.map_values(|s: String| s@),
            out@ == joined(t.take(k as int), sep@),
        decreases texts.len() - k,
    {
        proof {
            assert(t[k as int] == texts@[k as int]@);
            assert(t.take(k + 1).drop_last() == t.take(k as int));
            assert(t.take(k + 1).last() == t[k as int]);
            if k == 0 {
                assert(t.take(0).len() == 0);
                assert(t.take(1).len() == 1);
            }
        }
        if k > 0 {
            push_str(&mut out, sep);
        }
        push_str(&mut out, texts[k].as_str());
        proof {
            if k == 0 {
                assert(out@ =~= t[0]);
                assert(joined(t.take(1), sep@) == t.take(1)[0]);
            }
        }
        k += 1;
    }
    proof {
        assert(t.take(t.len() as int) == t);
    }
    out
}

} // verus!
