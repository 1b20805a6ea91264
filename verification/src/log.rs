//! Destinations for the app's diagnostic log messages.
use vstd::prelude::*;
use vstd::string::StringExecFns;

verus! {

/// Something that accepts log messages.
pub trait AppLog {
    fn log(&mut self, message: String);
}

/// A log that discards every message.
pub struct NullLog {}

impl Default for NullLog {
    fn default() -> (l: NullLog) {
        NullLog {  }
    }
}

impl AppLog for NullLog {
    fn log(&mut self, _message: String) {
    }
}

/// A log that keeps every message, each followed by a space.
pub struct StringLog {
    messages: String,
}

impl StringLog {
    /// Everything logged so far.
    pub closed spec fn logged(&self) -> Seq<char> {
        self.messages@
    }

    /// Everything logged so far.
    pub fn _get_all(&self) -> (all: String)
        ensures
            all@ == self.logged(),
    {
        self.messages.clone()
    }
}

impl Default for StringLog {
    fn default() -> (l: StringLog)
        ensures
            l.logged() == Seq::<char>::empty(),
    {
        StringLog { messages: String::new() }
    }
}

impl AppLog for StringLog {
    fn log(&mut self, message: String)
        ensures
            final(self).logged() == old(self).logged() + message@ + seq![' '],
    {
        proof {
            reveal_strlit(" ");
        }
        self.messages.append(message.as_str());
        self.messages.append(" ");
    }
}

/// What a `StringLog` holds after `msgs` were logged one by one into an
/// empty log: each message followed by a space.
pub open spec fn log_text(msgs: Seq<Seq<char>>) -> Seq<char>
    decreases msgs.len(),
{
    if msgs.len() == 0 {
        Seq::empty()
    } else {
        log_text(msgs.drop_last()) + msgs.last() + seq![' ']
    }
}

/// A new `StringLog` holds `log_text` of no messages, and logging one more
/// message `m` into a log that holds `log_text(msgs)` makes it hold
/// `log_text(msgs.push(m))`; so after logging `m1, ..., mk` into a new log,
/// `_get_all` returns `m1 + " " + ... + mk + " "`.
pub proof fn lemma_log_text_grows(msgs: Seq<Seq<char>>, m: Seq<char>)
    ensures
        log_text(Seq::empty()) == Seq::<char>::empty(),
        log_text(msgs.push(m)) == log_text(msgs) + m + seq![' '],
{
    assert(msgs.push(m).drop_last() =~= msgs);
}

} // verus!
