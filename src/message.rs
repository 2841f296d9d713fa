use vstd::prelude::*;

use std::collections::hash_map::DefaultHasher;
use std::hash::Hasher;
use vstd::std_specs::hash::DefaultHasherAdditionalSpecFns;
use vstd::utf8::encode_utf8;

use crate::loglevel::{level_tag, LogLevel};
use crate::time::Timestamp;

verus! {

/// What a message holds, as plain values.
pub struct MessageView {
    pub timestamp: Timestamp,
    pub level: LogLevel,
    pub text: Seq<char>,
}

/// The identity of a message: the default hasher fed its level tag, the UTF-8
/// bytes of its text and a terminating `0xff`. The timestamp takes no part.
pub open spec fn id_of(level: LogLevel, text: Seq<char>) -> u64 {
    DefaultHasher::spec_finish(seq![seq![level_tag(level)], encode_utf8(text), seq![0xffu8]])
}

/// One log record: when it was made, its level and its text.
pub struct Message {
    pub timestamp: Timestamp,
    pub level: LogLevel,
    pub message: String,
}

impl View for Message {
    type V = MessageView;

    open spec fn view(&self) -> MessageView {
        MessageView { timestamp: self.timestamp, level: self.level, text: self.message@ }
    }
}

impl Clone for Message {
    fn clone(&self) -> (r: Self)
        ensures
            r@ == self@,
    {
        Message {
            timestamp: self.timestamp,
            level: self.level,
            message: self.message.clone(),
        }
    }
}

impl Message {
    pub open spec fn wf(&self) -> bool {
        self.timestamp.wf()
    }

    pub open spec fn spec_id(self) -> u64 {
        id_of(self.level, self.message@)
    }

    /// A message stamped with the current time.
    pub fn new(level: LogLevel, message: &str) -> (r: Message)
        ensures
            r.wf(),
            r.level == level,
            r.message@ == message@,
    {
        Message::with_timestamp(Timestamp::now(), level, message)
    }

    /// A message stamped with the given time.
    pub fn with_timestamp(timestamp: Timestamp, level: LogLevel, message: &str) -> (r: Message)
        ensures
            r@ == (MessageView { timestamp, level, text: message@ }),
    {
        Message { timestamp, level, message: message.to_owned() }
    }

    /// The deduplication key: a hash of the level and the text alone.
    pub fn message_id(&self) -> (r: u64)
        ensures
            r == id_of(self.level, self.message@),
    {
        let mut hasher = DefaultHasher::new();
        let mut tag: Vec<u8> = Vec::new();
        tag.push(self.level.tag());
        assert(tag@ =~= seq![level_tag(self.level)]);
        hasher.write(tag.as_slice());
        hasher.write(self.message.as_str().as_bytes());
        let mut end: Vec<u8> = Vec::new();
        end.push(0xffu8);
        assert(end@ =~= seq![0xffu8]);
        hasher.write(end.as_slice());
        proof {
            assert(hasher@ =~= seq![seq![level_tag(self.level)], encode_utf8(self.message@), seq![0xffu8]]);
        }
        hasher.finish()
    }
}

/// What an aggregate holds: how many messages were folded in, the latest of
/// them, and the earliest and latest timestamps seen.
pub struct DupView {
    pub count: nat,
    pub message: MessageView,
    pub start: Timestamp,
    pub end: Timestamp,
}

/// The aggregate of one message.
pub open spec fn dup_first(m: MessageView) -> DupView {
    DupView { count: 1, message: m, start: m.timestamp, end: m.timestamp }
}

/// An aggregate with one more message folded in.
pub open spec fn dup_fold(d: DupView, m: MessageView) -> DupView {
    DupView {
        count: d.count + 1,
        message: m,
        start: if m.timestamp.before(d.start) { m.timestamp } else { d.start },
        end: if d.end.before(m.timestamp) { m.timestamp } else { d.end },
    }
}

/// A run of repeats of one message, collapsed into a count and a time span.
pub struct DuplicatedMessages {
    dup_count: u64,
    dup_msg: Message,
    dup_start: Timestamp,
    dup_end: Timestamp,
}

impl View for DuplicatedMessages {
    type V = DupView;

    closed spec fn view(&self) -> DupView {
        DupView {
            count: self.dup_count as nat,
            message: self.dup_msg@,
            start: self.dup_start,
            end: self.dup_end,
        }
    }
}

/// An aggregate of at least one message whose span runs forward.
pub open spec fn dup_wf(d: DupView) -> bool {
    &&& d.count >= 1
    &&& !d.end.before(d.start)
    &&& d.start.wf()
    &&& d.end.wf()
}

impl DuplicatedMessages {
    pub open spec fn wf(&self) -> bool {
        dup_wf(self@) && self@.count <= u64::MAX
    }

    pub fn new(msg: &Message) -> (r: DuplicatedMessages)
        requires
            msg.wf(),
        ensures
            r@ == dup_first(msg@),
            r.wf(),
    {
        DuplicatedMessages {
            dup_count: 1,
            dup_msg: msg.clone(),
            dup_start: msg.timestamp,
            dup_end: msg.timestamp,
        }
    }

    pub fn add(&mut self, msg: &Message)
        requires
            old(self).wf(),
            old(self)@.count < u64::MAX,
            msg.wf(),
        ensures
            final(self)@ == dup_fold(old(self)@, msg@),
            final(self).wf(),
    {
        self.dup_count = self.dup_count + 1;
        self.dup_msg = msg.clone();
        if self.dup_end.is_before(&msg.timestamp) {
            self.dup_end = msg.timestamp;
        }
        if msg.timestamp.is_before(&self.dup_start) {
            self.dup_start = msg.timestamp;
        }
    }

    /// The latest message folded in.
    pub fn message(&self) -> (r: Message)
        ensures
            r@ == self@.message,
    {
        self.dup_msg.clone()
    }

    pub fn count(&self) -> (r: u64)
        ensures
            r == self@.count,
    {
        self.dup_count
    }

    /// The earliest and the latest timestamp folded in.
    pub fn time_range(&self) -> (r: (Timestamp, Timestamp))
        ensures
            r.0 == self@.start,
            r.1 == self@.end,
    {
        (self.dup_start, self.dup_end)
    }
}

} // verus!
