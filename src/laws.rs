use vstd::prelude::*;

use crate::config::SegmenterConfig;
use crate::energy::is_loud;
use crate::model::{
    block_events, feed, finalize, idle_model, joined, lengths_within, model_wf, run, step,
    step_block, step_tick, ticks, Event, SegModel,
};

verus! {

proof fn lemma_lengths_append(c: SegmenterConfig, a: Seq<Seq<i16>>, b: Seq<Seq<i16>>)
    requires
        lengths_within(c, a),
        lengths_within(c, b),
    ensures
        lengths_within(c, a + b),
{
    assert forall|k: int| 0 <= k < (a + b).len() implies c.min_speech_samples <= #[trigger] (a
        + b)[k].len() <= c.max_samples by {
        if k < a.len() {
            assert((a + b)[k] == a[k]);
        } else {
            assert((a + b)[k] == b[k - a.len()]);
        }
    }
}

proof fn lemma_feed_bounds(c: SegmenterConfig, s: SegModel, b: Seq<i16>, loud: bool)
    requires
        c.valid(),
        model_wf(c, s),
        loud ==> b.len() > 0,
    ensures
        model_wf(c, feed(c, s, b, loud).0),
        lengths_within(c, feed(c, s, b, loud).1),
    decreases b.len(),
{
    if !s.accumulating && !loud {
    } else {
        let pending = if s.accumulating {
            s.pending
        } else {
            Seq::empty()
        };
        let room = c.max_samples - pending.len();
        let take: int = if b.len() < room {
            b.len() as int
        } else {
            room
        };
        let p2 = pending + b.take(take);
        assert(p2.len() == pending.len() + take);
        if 0 < take < b.len() {
            lemma_feed_bounds(c, idle_model(), b.skip(take), loud);
            lemma_lengths_append(c, finalize(c, p2), feed(c, idle_model(), b.skip(take), loud).1);
        }
    }
}

/// A well-formed state stays well-formed after any block, and no block makes
/// it emit a segment shorter than the minimum or longer than the maximum.
pub proof fn lemma_step_block_bounds(c: SegmenterConfig, s: SegModel, b: Seq<i16>)
    requires
        c.valid(),
        model_wf(c, s),
    ensures
        model_wf(c, step_block(c, s, b).0),
        lengths_within(c, step_block(c, s, b).1),
{
    lemma_feed_bounds(c, s, b, is_loud(b, c.threshold as int));
}

/// The same for an idle tick.
pub proof fn lemma_step_tick_bounds(c: SegmenterConfig, s: SegModel)
    requires
        c.valid(),
        model_wf(c, s),
    ensures
        model_wf(c, step_tick(c, s).0),
        lengths_within(c, step_tick(c, s).1),
{
}

/// Over any sequence of blocks and ticks from a well-formed state, every
/// segment emitted is at least the minimum and at most the maximum length,
/// and the state stays well-formed.
pub proof fn lemma_run_bounds(c: SegmenterConfig, s: SegModel, evs: Seq<Event>)
    requires
        c.valid(),
        model_wf(c, s),
    ensures
        model_wf(c, run(c, s, evs).0),
        lengths_within(c, run(c, s, evs).1),
    decreases evs.len(),
{
    if evs.len() > 0 {
        lemma_run_bounds(c, s, evs.drop_last());
        let r = run(c, s, evs.drop_last());
        match evs.last() {
            Event::Block(b) => lemma_step_block_bounds(c, r.0, b),
            Event::Tick => lemma_step_tick_bounds(c, r.0),
        }
        lemma_lengths_append(c, r.1, step(c, r.0, evs.last()).1);
    }
}

/// Idle ticks in `Idle` change nothing and emit nothing, however many.
pub proof fn lemma_idle_ticks(c: SegmenterConfig, n: nat)
    ensures
        run(c, idle_model(), ticks(n)) == (idle_model(), Seq::<Seq<i16>>::empty()),
    decreases n,
{
    if n > 0 {
        assert(ticks(n).drop_last() =~= ticks((n - 1) as nat));
        lemma_idle_ticks(c, (n - 1) as nat);
        assert(Seq::<Seq<i16>>::empty() + Seq::<Seq<i16>>::empty() =~= Seq::<Seq<i16>>::empty());
    }
}

/// Running over `a` then `b` is running over `a + b`.
pub proof fn lemma_run_concat(c: SegmenterConfig, s: SegModel, a: Seq<Event>, b: Seq<Event>)
    ensures
        run(c, s, a + b) == (
            run(c, run(c, s, a).0, b).0,
            run(c, s, a).1 + run(c, run(c, s, a).0, b).1,
        ),
    decreases b.len(),
{
    let ra = run(c, s, a);
    if b.len() == 0 {
        assert(a + b =~= a);
        assert(ra.1 + Seq::<Seq<i16>>::empty() =~= ra.1);
    } else {
        assert((a + b).drop_last() =~= a + b.drop_last());
        assert((a + b).last() == b.last());
        lemma_run_concat(c, s, a, b.drop_last());
        let rb = run(c, ra.0, b.drop_last());
        let t = step(c, rb.0, b.last());
        assert(ra.1 + rb.1 + t.1 =~= ra.1 + (rb.1 + t.1));
    }
}

proof fn lemma_block_events_drop_last(bs: Seq<Seq<i16>>)
    requires
        bs.len() > 0,
    ensures
        block_events(bs).drop_last() == block_events(bs.drop_last()),
        block_events(bs).last() == Event::Block(bs.last()),
        block_events(bs).len() == bs.len(),
{
    assert(block_events(bs).drop_last() =~= block_events(bs.drop_last()));
}

/// Loud blocks that together stay under the maximum build one pending
/// segment from `Idle`, with no quiet run.
proof fn lemma_loud_prefix(c: SegmenterConfig, bs: Seq<Seq<i16>>)
    requires
        c.valid(),
        forall|k: int| 0 <= k < bs.len() ==> is_loud(#[trigger] bs[k], c.threshold as int),
        joined(bs).len() < c.max_samples,
    ensures
        run(c, idle_model(), block_events(bs)) == (if bs.len() == 0 {
            idle_model()
        } else {
            SegModel { accumulating: true, pending: joined(bs), quiet: 0 }
        }, Seq::<Seq<i16>>::empty()),
    decreases bs.len(),
{
    if bs.len() == 0 {
        assert(block_events(bs).len() == 0);
    } else {
        let prefix = bs.drop_last();
        let b = bs.last();
        assert(is_loud(bs[bs.len() - 1], c.threshold as int));
        lemma_block_events_drop_last(bs);
        assert forall|k: int| 0 <= k < prefix.len() implies is_loud(
            #[trigger] prefix[k],
            c.threshold as int,
        ) by {
            assert(prefix[k] == bs[k]);
        }
        lemma_loud_prefix(c, prefix);
        assert(b.take(b.len() as int) =~= b);
        assert(joined(prefix) + b.take(b.len() as int) =~= joined(bs));
        assert(Seq::<Seq<i16>>::empty() + Seq::<Seq<i16>>::empty() =~= Seq::<Seq<i16>>::empty());
    }
}

/// Loud blocks that together hold exactly the maximum length, fed from
/// `Idle`, are flushed as exactly one segment of that length, and the
/// automaton is back in `Idle`.
pub proof fn lemma_forced_flush(c: SegmenterConfig, bs: Seq<Seq<i16>>)
    requires
        c.valid(),
        forall|k: int| 0 <= k < bs.len() ==> is_loud(#[trigger] bs[k], c.threshold as int),
        joined(bs).len() == c.max_samples,
    ensures
        run(c, idle_model(), block_events(bs)) == (idle_model(), seq![joined(bs)]),
        joined(bs).len() == c.max_samples,
{
    assert(bs.len() > 0);
    let prefix = bs.drop_last();
    let b = bs.last();
    assert(is_loud(bs[bs.len() - 1], c.threshold as int));
    lemma_block_events_drop_last(bs);
    assert forall|k: int| 0 <= k < prefix.len() implies is_loud(
        #[trigger] prefix[k],
        c.threshold as int,
    ) by {
        assert(prefix[k] == bs[k]);
    }
    assert(joined(bs) == joined(prefix) + b);
    lemma_loud_prefix(c, prefix);
    assert(b.take(b.len() as int) =~= b);
    assert(joined(prefix) + b.take(b.len() as int) =~= joined(bs));
    assert(Seq::<Seq<i16>>::empty() + seq![joined(bs)] =~= seq![joined(bs)]);
}

/// Ticks from a well-formed state: while the quiet run stays under the
/// silence length they only lengthen it; once it reaches it, the segment is
/// ended and the automaton stays in `Idle`.
pub proof fn lemma_ticks(c: SegmenterConfig, s: SegModel, n: nat)
    requires
        c.valid(),
        model_wf(c, s),
        s.accumulating,
    ensures
        run(c, s, ticks(n)) == (if s.quiet + n * c.tick_samples < c.silence_samples {
            (SegModel { quiet: (s.quiet + n * c.tick_samples) as nat, ..s }, Seq::empty())
        } else {
            (idle_model(), finalize(c, s.pending))
        }),
    decreases n,
{
    if n == 0 {
        assert(s == SegModel { quiet: (s.quiet + 0 * c.tick_samples) as nat, ..s });
    } else {
        let m = (n - 1) as nat;
        assert(ticks(n).drop_last() =~= ticks(m));
        lemma_ticks(c, s, m);
        assert(m * c.tick_samples + c.tick_samples == n * c.tick_samples) by (nonlinear_arith)
            requires
                m + 1 == n,
        ;
        let r = run(c, s, ticks(m));
        assert(r.1 + Seq::<Seq<i16>>::empty() =~= r.1);
        assert(Seq::<Seq<i16>>::empty() + finalize(c, s.pending) =~= finalize(c, s.pending));
    }
}

/// A loud block shorter than the minimum, then idle ticks that reach the
/// silence length: nothing is emitted and the automaton is back in `Idle`.
pub proof fn lemma_short_segment_dropped(c: SegmenterConfig, b: Seq<i16>, n: nat)
    requires
        c.valid(),
        is_loud(b, c.threshold as int),
        b.len() < c.min_speech_samples,
        n * c.tick_samples >= c.silence_samples,
    ensures
        run(c, idle_model(), seq![Event::Block(b)] + ticks(n)) == (
            idle_model(),
            Seq::<Seq<i16>>::empty(),
        ),
{
    let first = seq![Event::Block(b)];
    lemma_run_concat(c, idle_model(), first, ticks(n));
    assert(first.drop_last() =~= Seq::<Event>::empty());
    assert(b.take(b.len() as int) =~= b);
    assert(Seq::<i16>::empty() + b =~= b);
    let s1 = SegModel { accumulating: true, pending: b, quiet: 0 };
    assert(first.last() == Event::Block(b));
    assert(run(c, idle_model(), first.drop_last()) == (idle_model(), Seq::<Seq<i16>>::empty()));
    assert(Seq::<i16>::empty() + b.take(b.len() as int) =~= b);
    assert(step_block(c, idle_model(), b) == (s1, Seq::<Seq<i16>>::empty()));
    assert(Seq::<Seq<i16>>::empty() + Seq::<Seq<i16>>::empty() =~= Seq::<Seq<i16>>::empty());
    assert(run(c, idle_model(), first) == (s1, Seq::<Seq<i16>>::empty()));
    lemma_ticks(c, s1, n);
    assert(Seq::<Seq<i16>>::empty() + Seq::<Seq<i16>>::empty() =~= Seq::<Seq<i16>>::empty());
}

/// Quiet blocks after speech `b`, while their total stays within the
/// silence length: under it they are appended to the pending segment; on
/// reaching it the segment `b` plus the quiet blocks is emitted.
proof fn lemma_quiet_tail(c: SegmenterConfig, b: Seq<i16>, qs: Seq<Seq<i16>>)
    requires
        c.valid(),
        0 < b.len(),
        b.len() + c.silence_samples <= c.max_samples,
        c.min_speech_samples <= b.len(),
        forall|k: int| 0 <= k < qs.len() ==> !is_loud(#[trigger] qs[k], c.threshold as int),
        joined(qs).len() <= c.silence_samples,
    ensures
        run(c, SegModel { accumulating: true, pending: b, quiet: 0 }, block_events(qs)) == (if joined(
            qs,
        ).len() < c.silence_samples {
            (
                SegModel { accumulating: true, pending: b + joined(qs), quiet: joined(qs).len() },
                Seq::<Seq<i16>>::empty(),
            )
        } else {
            (idle_model(), seq![b + joined(qs)])
        }),
    decreases qs.len(),
{
    let s0 = SegModel { accumulating: true, pending: b, quiet: 0 };
    if qs.len() == 0 {
        assert(block_events(qs).len() == 0);
        assert(b + joined(qs) =~= b);
    } else {
        let prefix = qs.drop_last();
        let q = qs.last();
        assert(!is_loud(qs[qs.len() - 1], c.threshold as int));
        lemma_block_events_drop_last(qs);
        assert forall|k: int| 0 <= k < prefix.len() implies !is_loud(
            #[trigger] prefix[k],
            c.threshold as int,
        ) by {
            assert(prefix[k] == qs[k]);
        }
        assert(joined(qs) == joined(prefix) + q);
        lemma_quiet_tail(c, b, prefix);
        let r = run(c, s0, block_events(prefix));
        assert(q.take(q.len() as int) =~= q);
        assert(b + joined(prefix) + q =~= b + joined(qs));
        if joined(prefix).len() < c.silence_samples {
            assert(Seq::<Seq<i16>>::empty() + Seq::<Seq<i16>>::empty() =~= Seq::<Seq<i16>>::empty());
            assert(Seq::<Seq<i16>>::empty() + seq![b + joined(qs)] =~= seq![b + joined(qs)]);
        } else {
            assert(q.len() == 0);
            assert(joined(qs) =~= joined(prefix));
            assert(r.1 + Seq::<Seq<i16>>::empty() =~= r.1);
        }
    }
}

/// A loud block of length at least the minimum, then quiet blocks whose
/// total is exactly the silence length (the segment staying within the
/// maximum): exactly one segment, the block followed by the quiet blocks, is
/// emitted, and the automaton is back in `Idle`.
pub proof fn lemma_silence_ends_segment(c: SegmenterConfig, b: Seq<i16>, qs: Seq<Seq<i16>>)
    requires
        c.valid(),
        is_loud(b, c.threshold as int),
        c.min_speech_samples <= b.len(),
        b.len() + c.silence_samples <= c.max_samples,
        forall|k: int| 0 <= k < qs.len() ==> !is_loud(#[trigger] qs[k], c.threshold as int),
        joined(qs).len() == c.silence_samples,
    ensures
        run(c, idle_model(), seq![Event::Block(b)] + block_events(qs)) == (
            idle_model(),
            seq![b + joined(qs)],
        ),
        (b + joined(qs)).len() == b.len() + c.silence_samples,
{
    let first = seq![Event::Block(b)];
    lemma_run_concat(c, idle_model(), first, block_events(qs));
    let s1 = SegModel { accumulating: true, pending: b, quiet: 0 };
    assert(first.drop_last() =~= Seq::<Event>::empty());
    assert(first.last() == Event::Block(b));
    assert(run(c, idle_model(), first.drop_last()) == (idle_model(), Seq::<Seq<i16>>::empty()));
    assert(Seq::<i16>::empty() + b.take(b.len() as int) =~= b);
    assert(step_block(c, idle_model(), b) == (s1, Seq::<Seq<i16>>::empty()));
    assert(Seq::<Seq<i16>>::empty() + Seq::<Seq<i16>>::empty() =~= Seq::<Seq<i16>>::empty());
    assert(run(c, idle_model(), first) == (s1, Seq::<Seq<i16>>::empty()));
    lemma_quiet_tail(c, b, qs);
    assert(Seq::<Seq<i16>>::empty() + seq![b + joined(qs)] =~= seq![b + joined(qs)]);
}

} // verus!
