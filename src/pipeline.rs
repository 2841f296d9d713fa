use vstd::prelude::*;

use std::collections::VecDeque;

use crate::loglevel::LogLevel;
use crate::message::{dup_first, dup_fold, dup_wf, id_of, DupView, DuplicatedMessages, Message, MessageView};

verus! {

/// What the pipeline asks of its sink.
pub enum Action {
    /// Write one message.
    Write(Message),
    /// Write an aggregate of duplicates.
    WriteDup(DuplicatedMessages),
}

/// A sink call as plain values.
pub enum SinkCall {
    Single(MessageView),
    Aggregate(DupView),
}

impl View for Action {
    type V = SinkCall;

    open spec fn view(&self) -> SinkCall {
        match self {
            Action::Write(m) => SinkCall::Single(m@),
            Action::WriteDup(d) => SinkCall::Aggregate(d@),
        }
    }
}

pub open spec fn calls_of(actions: Seq<Action>) -> Seq<SinkCall> {
    actions.map_values(|a: Action| a@)
}

/// The state of the pipeline: the window capacity, the recently emitted ids
/// (most recent first), the aggregates waiting to be flushed with their ids,
/// how many messages were taken in, and whether shutdown was seen.
pub struct PipelineView {
    pub scope: nat,
    pub window: Seq<u64>,
    pub pending: Seq<(u64, DupView)>,
    pub seen: nat,
    pub finished: bool,
}

pub open spec fn has_key(p: Seq<(u64, DupView)>, id: u64) -> bool {
    exists|i: int| 0 <= i < p.len() && p[i].0 == id
}

pub open spec fn key_index(p: Seq<(u64, DupView)>, id: u64) -> int {
    choose|i: int| 0 <= i < p.len() && p[i].0 == id
}

pub open spec fn keys_unique(p: Seq<(u64, DupView)>) -> bool {
    forall|i: int, j: int| 0 <= i < p.len() && 0 <= j < p.len() && i != j ==> p[i].0 != p[j].0
}

/// The invariant of every reachable state: among others, an aggregate is
/// pending only for an id still in the window.
pub open spec fn pipeline_inv(s: PipelineView) -> bool {
    &&& s.scope >= 1
    &&& s.window.len() <= s.scope
    &&& keys_unique(s.pending)
    &&& forall|i: int| 0 <= i < s.pending.len() ==> dup_wf(#[trigger] s.pending[i].1)
    &&& forall|i: int| 0 <= i < s.pending.len() ==> #[trigger] s.pending[i].1.count <= s.seen
    &&& forall|i: int| 0 <= i < s.pending.len() ==> s.window.contains(#[trigger] s.pending[i].0)
    &&& s.finished ==> s.pending.len() == 0
}

/// Folds a duplicate into the aggregate for its id, starting one if none is pending.
pub open spec fn upsert(p: Seq<(u64, DupView)>, id: u64, m: MessageView) -> Seq<(u64, DupView)> {
    if has_key(p, id) {
        let i = key_index(p, id);
        p.update(i, (id, dup_fold(p[i].1, m)))
    } else {
        p.push((id, dup_first(m)))
    }
}

/// Takes out the aggregate pending for `id`, if any, with the flush it calls for.
pub open spec fn evict(p: Seq<(u64, DupView)>, id: u64) -> (Seq<(u64, DupView)>, Seq<SinkCall>) {
    if has_key(p, id) {
        let i = key_index(p, id);
        (p.remove(i), seq![SinkCall::Aggregate(p[i].1)])
    } else {
        (p, Seq::empty())
    }
}

/// One flush per pending aggregate, in table order.
pub open spec fn drain_calls(p: Seq<(u64, DupView)>) -> Seq<SinkCall> {
    p.map_values(|e: (u64, DupView)| SinkCall::Aggregate(e.1))
}

/// One step of the pipeline on one message: the next state and the sink calls.
pub open spec fn step(s: PipelineView, m: MessageView) -> (PipelineView, Seq<SinkCall>) {
    if s.finished {
        (s, Seq::empty())
    } else if m.level == LogLevel::Shutdown {
        (
            PipelineView { scope: s.scope, window: s.window, pending: Seq::empty(), seen: s.seen, finished: true },
            drain_calls(s.pending),
        )
    } else {
        let id = id_of(m.level, m.text);
        if s.window.contains(id) {
            (
                PipelineView { scope: s.scope, window: s.window, pending: upsert(s.pending, id, m), seen: s.seen + 1, finished: false },
                Seq::empty(),
            )
        } else {
            let w = seq![id] + s.window;
            if w.len() >= s.scope {
                let (p, flushed) = evict(s.pending, w.last());
                (
                    PipelineView { scope: s.scope, window: w.take(s.scope as int), pending: p, seen: s.seen + 1, finished: false },
                    seq![SinkCall::Single(m)] + flushed,
                )
            } else {
                (
                    PipelineView { scope: s.scope, window: w, pending: s.pending, seen: s.seen + 1, finished: false },
                    seq![SinkCall::Single(m)],
                )
            }
        }
    }
}

/// The pipeline's state before any message, with a capacity of zero taken as one.
pub open spec fn initial(scope: nat) -> PipelineView {
    PipelineView {
        scope: if scope == 0 { 1 } else { scope },
        window: Seq::empty(),
        pending: Seq::empty(),
        seen: 0,
        finished: false,
    }
}

/// One step keeps the pipeline's invariant.
pub proof fn lemma_step_inv(s: PipelineView, m: MessageView)
    requires
        pipeline_inv(s),
        m.timestamp.wf(),
    ensures
        pipeline_inv(step(s, m).0),
{
    if !s.finished && m.level != LogLevel::Shutdown {
        let id = id_of(m.level, m.text);
        if s.window.contains(id) {
            let p = upsert(s.pending, id, m);
            if has_key(s.pending, id) {
                let i = key_index(s.pending, id);
                assert(forall|j: int| 0 <= j < p.len() && j != i ==> p[j] == s.pending[j]);
            } else {
                assert(forall|j: int| 0 <= j < s.pending.len() ==> p[j] == s.pending[j]);
            }
        } else {
            let w = seq![id] + s.window;
            if w.len() >= s.scope {
                let p = evict(s.pending, w.last()).0;
                let nw = w.take(s.scope as int);
                if has_key(s.pending, w.last()) {
                    let i = key_index(s.pending, w.last());
                    assert forall|j: int| 0 <= j < p.len() implies p[j] == s.pending[if j < i { j } else { j + 1 }] by {}
                    assert(keys_unique(p));
                }
                assert forall|j: int| 0 <= j < p.len() implies nw.contains(#[trigger] p[j].0) by {
                    let k = p[j].0;
                    assert(has_key(s.pending, k));
                    assert(k != w.last());
                    let idx = choose|idx: int| 0 <= idx < s.window.len() && s.window[idx] == k;
                    assert(w[idx + 1] == k);
                    assert(nw[idx + 1] == k);
                }
            } else {
                let p = s.pending;
                assert forall|j: int| 0 <= j < p.len() implies w.contains(#[trigger] p[j].0) by {
                    let idx = choose|idx: int| 0 <= idx < s.window.len() && s.window[idx] == p[j].0;
                    assert(w[idx + 1] == p[j].0);
                }
            }
        }
    }
}

/// The deduplicating consumer: decides, message by message, what the sink is to
/// write.
pub struct Pipeline {
    scope: usize,
    window: VecDeque<u64>,
    pending: Vec<(u64, DuplicatedMessages)>,
    seen: u64,
    finished: bool,
}

impl View for Pipeline {
    type V = PipelineView;

    closed spec fn view(&self) -> PipelineView {
        PipelineView {
            scope: self.scope as nat,
            window: self.window@,
            pending: self.pending@.map_values(|e: (u64, DuplicatedMessages)| (e.0, e.1@)),
            seen: self.seen as nat,
            finished: self.finished,
        }
    }
}

impl Pipeline {
    pub closed spec fn wf(&self) -> bool {
        &&& pipeline_inv(self@)
        &&& forall|i: int| 0 <= i < self.pending@.len() ==> (#[trigger] self.pending@[i]).1.wf()
    }

    /// A pipeline whose window remembers `scope` emitted ids; a scope of zero is
    /// taken as one, so that the window can never hold nothing.
    pub fn new(scope: usize) -> (r: Pipeline)
        ensures
            r.wf(),
            r@ == initial(scope as nat),
    {
        let scope = if scope == 0 { 1 } else { scope };
        let r = Pipeline { scope, window: VecDeque::new(), pending: Vec::new(), seen: 0, finished: false };
        assert(r@.pending =~= Seq::empty());
        r
    }

    /// How many messages, the shutdown signal aside, were taken in.
    pub fn seen(&self) -> (r: u64)
        ensures
            r == self@.seen,
    {
        self.seen
    }

    /// Whether the shutdown signal has been taken in.
    pub fn is_finished(&self) -> (r: bool)
        ensures
            r == self@.finished,
    {
        self.finished
    }

    /// The ids in the window, most recent first.
    pub fn window(&self) -> (r: Vec<u64>)
        ensures
            r@ == self@.window,
    {
        let mut r: Vec<u64> = Vec::new();
        let mut i: usize = 0;
        while i < self.window.len()
            invariant
                i <= self.window@.len(),
                r@ == self.window@.take(i as int),
            decreases self.window@.len() - i,
        {
            r.push(self.window[i]);
            i = i + 1;
            assert(r@ =~= self.window@.take(i as int));
        }
        assert(r@ =~= self.window@);
        r
    }

    fn window_contains(&self, id: u64) -> (r: bool)
        ensures
            r == self@.window.contains(id),
    {
        let mut i: usize = 0;
        while i < self.window.len()
            invariant
                i <= self.window@.len(),
                forall|j: int| 0 <= j < i ==> self.window@[j] != id,
            decreases self.window@.len() - i,
        {
            if self.window[i] == id {
                return true;
            }
            i = i + 1;
        }
        false
    }

    fn find_pending(&self, id: u64) -> (r: Option<usize>)
        requires
            keys_unique(self@.pending),
        ensures
            r is None <==> !has_key(self@.pending, id),
            r matches Some(i) ==> i < self.pending@.len() && i as int == key_index(self@.pending, id),
    {
        let ghost p = self@.pending;
        let mut i: usize = 0;
        while i < self.pending.len()
            invariant
                i <= self.pending@.len(),
                p == self@.pending,
                keys_unique(p),
                p.len() == self.pending@.len(),
                forall|j: int| 0 <= j < i ==> p[j].0 != id,
            decreases self.pending@.len() - i,
        {
            if self.pending[i].0 == id {
                proof {
                    assert(p[i as int].0 == id);
                    let k = key_index(p, id);
                    assert(0 <= k < p.len() && p[k].0 == id);
                    assert(k == i as int);
                }
                return Some(i);
            }
            i = i + 1;
        }
        None
    }

    /// Hands every pending aggregate to the sink, in table order, and empties
    /// the table.
    fn drain(&mut self, actions: &mut Vec<Action>)
        requires
            old(actions)@.len() == 0,
        ensures
            calls_of(final(actions)@) == drain_calls(old(self)@.pending),
            final(self)@.pending.len() == 0,
            final(self).scope == old(self).scope,
            final(self).window == old(self).window,
            final(self).seen == old(self).seen,
            final(self).finished == old(self).finished,
    {
        let mut rest: Vec<(u64, DuplicatedMessages)> = Vec::new();
        std::mem::swap(&mut rest, &mut self.pending);
        let ghost e0 = rest@;
        while rest.len() > 0
            invariant
                actions@.len() + rest@.len() == e0.len(),
                rest@ == e0.subrange(actions@.len() as int, e0.len() as int),
                forall|j: int| 0 <= j < actions@.len() ==> (#[trigger] actions@[j])@ == SinkCall::Aggregate(e0[j].1@),
                self.pending@.len() == 0,
            decreases rest@.len(),
        {
            let (_, d) = rest.remove(0);
            actions.push(Action::WriteDup(d));
        }
        assert(calls_of(actions@) =~= drain_calls(old(self)@.pending));
    }

    /// Takes in one message and returns, in order, what the sink is to write.
    pub fn receive(&mut self, msg: Message) -> (r: Vec<Action>)
        requires
            old(self).wf(),
            msg.wf(),
            old(self)@.seen < u64::MAX,
        ensures
            final(self).wf(),
            (final(self)@, calls_of(r@)) == step(old(self)@, msg@),
    {
        let mut actions: Vec<Action> = Vec::new();
        if self.finished {
            assert(calls_of(actions@) =~= Seq::empty());
            return actions;
        }
        if msg.level.is_shutdown() {
            self.drain(&mut actions);
            self.finished = true;
            assert(self@.pending =~= Seq::empty());
            return actions;
        }
        let ghost s0 = self@;
        let ghost e0 = self.pending@;
        let id = msg.message_id();
        self.seen = self.seen + 1;
        if self.window_contains(id) {
            match self.find_pending(id) {
                Some(i) => {
                    let (k, mut d) = self.pending.remove(i);
                    assert(d == e0[i as int].1);
                    assert(s0.pending[i as int].1 == d@);
                    assert(s0.pending[i as int].1.count <= s0.seen);
                    assert(e0[i as int].1.wf());
                    d.add(&msg);
                    self.pending.insert(i, (k, d));
                    assert(self@.pending =~= upsert(s0.pending, id, msg@));
                }
                None => {
                    let d = DuplicatedMessages::new(&msg);
                    self.pending.push((id, d));
                    assert(self@.pending =~= upsert(s0.pending, id, msg@));
                }
            }
            assert(calls_of(actions@) =~= Seq::empty());
        } else {
            self.window.push_front(id);
            let ghost mv = msg@;
            actions.push(Action::Write(msg));
            if self.scope <= self.window.len() {
                let back = self.window[self.window.len() - 1];
                assert(back == self.window@.last());
                match self.find_pending(back) {
                    Some(i) => {
                        let (_, d) = self.pending.remove(i);
                        assert(d == e0[i as int].1);
                        actions.push(Action::WriteDup(d));
                        assert(self@.pending =~= evict(s0.pending, back).0);
                        assert(calls_of(actions@) =~= seq![SinkCall::Single(mv)] + evict(s0.pending, back).1);
                    }
                    None => {
                        assert(calls_of(actions@) =~= seq![SinkCall::Single(mv)] + evict(s0.pending, back).1);
                    }
                }
                self.window.truncate(self.scope);
            } else {
                assert(calls_of(actions@) =~= seq![SinkCall::Single(mv)]);
            }
        }
        proof {
            lemma_step_inv(s0, msg@);
        }
        actions
    }
}


} // verus!
