use vstd::prelude::*;

use crate::loglevel::LogLevel;
use crate::message::{dup_first, dup_fold, id_of, DupView, MessageView};
use crate::pipeline::{
    drain_calls, evict, has_key, initial, key_index, lemma_step_inv, pipeline_inv, step, upsert,
    PipelineView, SinkCall,
};

verus! {

/// The state after each message of `ms` in turn, and every sink call made.
pub open spec fn run(s: PipelineView, ms: Seq<MessageView>) -> (PipelineView, Seq<SinkCall>)
    decreases ms.len(),
{
    if ms.len() == 0 {
        (s, Seq::empty())
    } else {
        let (s1, c1) = run(s, ms.drop_last());
        let (s2, c2) = step(s1, ms.last());
        (s2, c1 + c2)
    }
}

/// A message's identity depends on its level and text alone: two messages that
/// agree on both collide, whatever their timestamps.
pub proof fn lemma_identity_ignores_time(a: MessageView, b: MessageView)
    requires
        a.level == b.level,
        a.text == b.text,
    ensures
        id_of(a.level, a.text) == id_of(b.level, b.text),
{
}

/// Whatever the messages, the window never holds more ids than its capacity:
/// the invariant, which bounds it, holds after every step.
pub proof fn lemma_window_bound(s: PipelineView, ms: Seq<MessageView>)
    requires
        pipeline_inv(s),
        forall|i: int| 0 <= i < ms.len() ==> (#[trigger] ms[i]).timestamp.wf(),
    ensures
        pipeline_inv(run(s, ms).0),
        run(s, ms).0.window.len() <= s.scope,
        run(s, ms).0.scope == s.scope,
    decreases ms.len(),
{
    if ms.len() > 0 {
        lemma_window_bound(s, ms.drop_last());
        lemma_step_inv(run(s, ms.drop_last()).0, ms.last());
    }
}

/// How many logged messages a sink call stands for.
pub open spec fn call_weight(c: SinkCall) -> nat {
    match c {
        SinkCall::Single(_) => 1,
        SinkCall::Aggregate(d) => d.count,
    }
}

/// How many logged messages a run of sink calls stands for.
pub open spec fn total_weight(cs: Seq<SinkCall>) -> nat
    decreases cs.len(),
{
    if cs.len() == 0 {
        0
    } else {
        total_weight(cs.drop_last()) + call_weight(cs.last())
    }
}

/// How many logged messages the pending aggregates stand for.
pub open spec fn pending_weight(p: Seq<(u64, DupView)>) -> nat {
    total_weight(drain_calls(p))
}

proof fn lemma_weight_concat(a: Seq<SinkCall>, b: Seq<SinkCall>)
    ensures
        total_weight(a + b) == total_weight(a) + total_weight(b),
    decreases b.len(),
{
    if b.len() == 0 {
        assert(a + b =~= a);
    } else {
        lemma_weight_concat(a, b.drop_last());
        assert((a + b).drop_last() =~= a + b.drop_last());
    }
}

proof fn lemma_weight_single(c: SinkCall)
    ensures
        total_weight(seq![c]) == call_weight(c),
{
    assert(seq![c].drop_last() =~= Seq::<SinkCall>::empty());
    assert(total_weight(Seq::<SinkCall>::empty()) == 0);
    assert(seq![c].last() == c);
}

proof fn lemma_weight_split(cs: Seq<SinkCall>, i: int)
    requires
        0 <= i < cs.len(),
    ensures
        total_weight(cs) == total_weight(cs.take(i)) + call_weight(cs[i]) + total_weight(cs.skip(i + 1)),
{
    assert(cs =~= cs.take(i) + seq![cs[i]] + cs.skip(i + 1));
    lemma_weight_concat(cs.take(i) + seq![cs[i]], cs.skip(i + 1));
    lemma_weight_concat(cs.take(i), seq![cs[i]]);
    lemma_weight_single(cs[i]);
}

/// One message, the shutdown signal aside, reaches the sink or a pending
/// aggregate exactly once.
proof fn lemma_step_weight(s: PipelineView, m: MessageView)
    requires
        pipeline_inv(s),
        !s.finished,
        m.level != LogLevel::Shutdown,
    ensures
        total_weight(step(s, m).1) + pending_weight(step(s, m).0.pending) == pending_weight(s.pending) + 1,
        !step(s, m).0.finished,
{
    let id = id_of(m.level, m.text);
    let p = s.pending;
    let dc = drain_calls(p);
    if s.window.contains(id) {
        let q = upsert(p, id, m);
        if has_key(p, id) {
            let i = key_index(p, id);
            let dq = drain_calls(q);
            assert(dq.take(i) =~= dc.take(i));
            assert(dq.skip(i + 1) =~= dc.skip(i + 1));
            lemma_weight_split(dc, i);
            lemma_weight_split(dq, i);
        } else {
            assert(drain_calls(q) =~= dc.push(SinkCall::Aggregate(dup_first(m))));
            assert(drain_calls(q).drop_last() =~= dc);
        }
        assert(step(s, m).1 =~= Seq::<SinkCall>::empty());
    } else {
        let w = seq![id] + s.window;
        if w.len() >= s.scope {
            let (q, flushed) = evict(p, w.last());
            lemma_weight_concat(seq![SinkCall::Single(m)], flushed);
            lemma_weight_single(SinkCall::Single(m));
            if has_key(p, w.last()) {
                let i = key_index(p, w.last());
                assert(drain_calls(q) =~= dc.take(i) + dc.skip(i + 1));
                lemma_weight_concat(dc.take(i), dc.skip(i + 1));
                lemma_weight_split(dc, i);
                lemma_weight_single(SinkCall::Aggregate(p[i].1));
            } else {
                assert(flushed =~= Seq::<SinkCall>::empty());
            }
        } else {
            lemma_weight_single(SinkCall::Single(m));
        }
    }
}

proof fn lemma_run_weight(s: PipelineView, ms: Seq<MessageView>)
    requires
        pipeline_inv(s),
        !s.finished,
        forall|i: int| 0 <= i < ms.len() ==> (#[trigger] ms[i]).level != LogLevel::Shutdown,
        forall|i: int| 0 <= i < ms.len() ==> (#[trigger] ms[i]).timestamp.wf(),
    ensures
        total_weight(run(s, ms).1) + pending_weight(run(s, ms).0.pending) == pending_weight(s.pending) + ms.len(),
        !run(s, ms).0.finished,
    decreases ms.len(),
{
    if ms.len() > 0 {
        let prefix = ms.drop_last();
        lemma_run_weight(s, prefix);
        lemma_window_bound(s, prefix);
        let (s1, c1) = run(s, prefix);
        lemma_step_weight(s1, ms.last());
        lemma_weight_concat(c1, step(s1, ms.last()).1);
    }
}

/// Nothing is lost: when a sequence of messages, none of them the shutdown
/// signal, is followed by shutdown, the messages written one by one and those
/// counted in flushed aggregates add up to the number of messages.
pub proof fn lemma_no_loss(scope: nat, ms: Seq<MessageView>, stop: MessageView)
    requires
        forall|i: int| 0 <= i < ms.len() ==> (#[trigger] ms[i]).level != LogLevel::Shutdown,
        forall|i: int| 0 <= i < ms.len() ==> (#[trigger] ms[i]).timestamp.wf(),
        stop.level == LogLevel::Shutdown,
    ensures
        total_weight(run(initial(scope), ms.push(stop)).1) == ms.len(),
{
    let s = initial(scope);
    assert(drain_calls(s.pending) =~= Seq::<SinkCall>::empty());
    lemma_run_weight(s, ms);
    assert(ms.push(stop).drop_last() =~= ms);
    let (s1, c1) = run(s, ms);
    lemma_weight_concat(c1, step(s1, stop).1);
    assert(drain_calls(Seq::<(u64, DupView)>::empty()) =~= Seq::<SinkCall>::empty());
}

/// Once shutdown has been taken in, further messages call the sink no more.
pub proof fn lemma_finished_silent(s: PipelineView, ms: Seq<MessageView>)
    requires
        s.finished,
    ensures
        run(s, ms) == (s, Seq::<SinkCall>::empty()),
    decreases ms.len(),
{
    if ms.len() > 0 {
        lemma_finished_silent(s, ms.drop_last());
        assert(Seq::<SinkCall>::empty() + Seq::<SinkCall>::empty() =~= Seq::<SinkCall>::empty());
    }
}

/// Shutdown drains fully: every pending aggregate is flushed exactly once, in
/// table order, none is left, and no sink call follows, whatever comes after.
pub proof fn lemma_shutdown_drains(s: PipelineView, stop: MessageView, rest: Seq<MessageView>)
    requires
        !s.finished,
        stop.level == LogLevel::Shutdown,
    ensures
        step(s, stop).1.len() == s.pending.len(),
        forall|i: int| 0 <= i < s.pending.len() ==> step(s, stop).1[i] == SinkCall::Aggregate(s.pending[i].1),
        step(s, stop).0.pending.len() == 0,
        step(s, stop).0.finished,
        run(step(s, stop).0, rest).1.len() == 0,
{
    lemma_finished_silent(step(s, stop).0, rest);
}

/// The aggregate of a run of duplicates, oldest first.
pub open spec fn fold_run(ms: Seq<MessageView>) -> DupView
    decreases ms.len(),
{
    if ms.len() <= 1 {
        dup_first(ms[0])
    } else {
        dup_fold(fold_run(ms.drop_last()), ms.last())
    }
}

/// An aggregate of a run of k duplicates counts k, holds the latest of them,
/// and spans from the earliest to the latest of their timestamps, in whatever
/// order they came.
pub proof fn lemma_aggregate(ms: Seq<MessageView>)
    requires
        ms.len() >= 1,
    ensures
        fold_run(ms).count == ms.len(),
        fold_run(ms).message == ms.last(),
        forall|i: int| 0 <= i < ms.len() ==> !(#[trigger] ms[i]).timestamp.before(fold_run(ms).start),
        forall|i: int| 0 <= i < ms.len() ==> !fold_run(ms).end.before((#[trigger] ms[i]).timestamp),
        exists|i: int| 0 <= i < ms.len() && fold_run(ms).start == (#[trigger] ms[i]).timestamp,
        exists|i: int| 0 <= i < ms.len() && fold_run(ms).end == (#[trigger] ms[i]).timestamp,
    decreases ms.len(),
{
    if ms.len() == 1 {
        assert(fold_run(ms).start == ms[0].timestamp);
    } else {
        let prefix = ms.drop_last();
        lemma_aggregate(prefix);
        let d = fold_run(prefix);
        let last = ms.len() - 1;
        assert(forall|i: int| 0 <= i < prefix.len() ==> prefix[i] == ms[i]);
        let a = choose|i: int| 0 <= i < prefix.len() && d.start == (#[trigger] prefix[i]).timestamp;
        let b = choose|i: int| 0 <= i < prefix.len() && d.end == (#[trigger] prefix[i]).timestamp;
        if ms[last].timestamp.before(d.start) {
            assert(fold_run(ms).start == ms[last].timestamp);
        } else {
            assert(fold_run(ms).start == ms[a].timestamp);
        }
        if d.end.before(ms[last].timestamp) {
            assert(fold_run(ms).end == ms[last].timestamp);
        } else {
            assert(fold_run(ms).end == ms[b].timestamp);
        }
    }
}

/// The messages written one by one, in the order written.
pub open spec fn singles(cs: Seq<SinkCall>) -> Seq<MessageView>
    decreases cs.len(),
{
    if cs.len() == 0 {
        Seq::empty()
    } else {
        match cs.last() {
            SinkCall::Single(m) => singles(cs.drop_last()).push(m),
            SinkCall::Aggregate(_) => singles(cs.drop_last()),
        }
    }
}

/// `f` places each element of `a` at an equal element of `b`, keeping order.
pub open spec fn order_embedding(a: Seq<MessageView>, b: Seq<MessageView>, f: spec_fn(int) -> int) -> bool {
    &&& forall|j: int| 0 <= j < a.len() ==> 0 <= #[trigger] f(j) < b.len() && a[j] == b[f(j)]
    &&& forall|j: int, k: int| 0 <= j < k < a.len() ==> #[trigger] f(j) < #[trigger] f(k)
}

/// `a` is `b` with some elements left out.
pub open spec fn subsequence(a: Seq<MessageView>, b: Seq<MessageView>) -> bool {
    exists|f: spec_fn(int) -> int| order_embedding(a, b, f)
}

proof fn lemma_singles_concat(a: Seq<SinkCall>, b: Seq<SinkCall>)
    ensures
        singles(a + b) == singles(a) + singles(b),
    decreases b.len(),
{
    if b.len() == 0 {
        assert(a + b =~= a);
        assert(singles(a) + singles(b) =~= singles(a));
    } else {
        lemma_singles_concat(a, b.drop_last());
        assert((a + b).drop_last() =~= a + b.drop_last());
        assert((a + b).last() == b.last());
        match b.last() {
            SinkCall::Single(m) => {
                assert(singles(a) + singles(b.drop_last()).push(m) =~= (singles(a) + singles(b.drop_last())).push(m));
            },
            SinkCall::Aggregate(_) => {},
        }
    }
}

proof fn lemma_singles_of_drain(p: Seq<(u64, DupView)>)
    ensures
        singles(drain_calls(p)) == Seq::<MessageView>::empty(),
    decreases p.len(),
{
    if p.len() > 0 {
        lemma_singles_of_drain(p.drop_last());
        assert(drain_calls(p).drop_last() =~= drain_calls(p.drop_last()));
    }
}

/// A step writes at most the message it takes in.
proof fn lemma_step_singles(s: PipelineView, m: MessageView)
    ensures
        singles(step(s, m).1) == Seq::<MessageView>::empty() || singles(step(s, m).1) == seq![m],
{
    let cs = step(s, m).1;
    if s.finished {
        assert(singles(cs) == Seq::<MessageView>::empty());
    } else if m.level == LogLevel::Shutdown {
        lemma_singles_of_drain(s.pending);
    } else {
        let id = id_of(m.level, m.text);
        let w = seq![id] + s.window;
        if !s.window.contains(id) {
            let head = seq![SinkCall::Single(m)];
            assert(head.drop_last() =~= Seq::<SinkCall>::empty());
            assert(head.last() == SinkCall::Single(m));
            assert(singles(Seq::<SinkCall>::empty()) == Seq::<MessageView>::empty());
            assert(singles(head) =~= seq![m]);
            if w.len() >= s.scope {
                let flushed = evict(s.pending, w.last()).1;
                lemma_singles_concat(head, flushed);
                if has_key(s.pending, w.last()) {
                    assert(flushed.drop_last() =~= Seq::<SinkCall>::empty());
                    assert(singles(flushed) =~= Seq::<MessageView>::empty());
                }
                assert(singles(cs) =~= seq![m]);
            }
        }
    }
}

/// Order is kept: the messages written one by one appear in the order they
/// were logged.
pub proof fn lemma_order_kept(s: PipelineView, ms: Seq<MessageView>)
    ensures
        subsequence(singles(run(s, ms).1), ms),
    decreases ms.len(),
{
    if ms.len() == 0 {
        let f = |j: int| j;
        assert(order_embedding(singles(run(s, ms).1), ms, f));
    } else {
        let prefix = ms.drop_last();
        lemma_order_kept(s, prefix);
        let (s1, c1) = run(s, prefix);
        let c2 = step(s1, ms.last()).1;
        lemma_singles_concat(c1, c2);
        lemma_step_singles(s1, ms.last());
        let a = singles(c1);
        let f = choose|f: spec_fn(int) -> int| order_embedding(a, prefix, f);
        if singles(c2) == Seq::<MessageView>::empty() {
            assert(a + singles(c2) =~= a);
            assert(order_embedding(a, ms, f));
        } else {
            let g = |j: int| if j == a.len() { prefix.len() as int } else { f(j) };
            assert(order_embedding(a + singles(c2), ms, g));
        }
    }
}

} // verus!
