use vstd::prelude::*;

use crate::config::SegmenterConfig;
use crate::energy::is_loud;

verus! {

/// Abstract state of the segmentation automaton.
pub struct SegModel {
    /// `Accumulating` when true, `Idle` when false.
    pub accumulating: bool,
    /// Samples of the segment under construction.
    pub pending: Seq<i16>,
    /// Consecutive quiet samples since speech was last heard.
    pub quiet: nat,
}

/// The `Idle` state: nothing pending.
pub open spec fn idle_model() -> SegModel {
    SegModel { accumulating: false, pending: Seq::empty(), quiet: 0 }
}

/// A pending segment exists exactly while accumulating; it is never empty,
/// stays under the maximum length, and its quiet run under the silence length.
pub open spec fn model_wf(c: SegmenterConfig, s: SegModel) -> bool {
    if s.accumulating {
        0 < s.pending.len() < c.max_samples && s.quiet < c.silence_samples
    } else {
        s == idle_model()
    }
}

/// What ending a segment hands on: the segment if it is long enough.
pub open spec fn finalize(c: SegmenterConfig, p: Seq<i16>) -> Seq<Seq<i16>> {
    if p.len() >= c.min_speech_samples {
        seq![p]
    } else {
        Seq::empty()
    }
}

/// Feeds samples `b`, all judged `loud` or quiet, to the automaton: the next
/// state and the segments emitted, in order. A segment is cut at the maximum
/// length; what is left of the samples then starts from `Idle`.
pub open spec fn feed(c: SegmenterConfig, s: SegModel, b: Seq<i16>, loud: bool) -> (SegModel, Seq<
    Seq<i16>,
>)
    decreases b.len(),
{
    if !s.accumulating && !loud {
        (s, Seq::empty())
    } else {
        let pending = if s.accumulating {
            s.pending
        } else {
            Seq::empty()
        };
        let quiet: nat = if s.accumulating {
            s.quiet
        } else {
            0
        };
        let room = c.max_samples - pending.len();
        let take: int = if b.len() < room {
            b.len() as int
        } else {
            room
        };
        let p2 = pending + b.take(take);
        let q2: nat = if loud {
            0
        } else {
            (quiet + take) as nat
        };
        if q2 >= c.silence_samples || p2.len() >= c.max_samples {
            if 0 < take < b.len() {
                let rest = feed(c, idle_model(), b.skip(take), loud);
                (rest.0, finalize(c, p2) + rest.1)
            } else {
                (idle_model(), finalize(c, p2))
            }
        } else {
            (SegModel { accumulating: true, pending: p2, quiet: q2 }, Seq::empty())
        }
    }
}

/// One incoming block, judged by its RMS against the threshold.
pub open spec fn step_block(c: SegmenterConfig, s: SegModel, b: Seq<i16>) -> (SegModel, Seq<
    Seq<i16>,
>) {
    feed(c, s, b, is_loud(b, c.threshold as int))
}

/// One idle tick: while accumulating it counts as quiet samples.
pub open spec fn step_tick(c: SegmenterConfig, s: SegModel) -> (SegModel, Seq<Seq<i16>>) {
    if !s.accumulating {
        (s, Seq::empty())
    } else if s.quiet + c.tick_samples >= c.silence_samples {
        (idle_model(), finalize(c, s.pending))
    } else {
        (SegModel { quiet: (s.quiet + c.tick_samples) as nat, ..s }, Seq::empty())
    }
}

} // verus!

verus! {

/// An input of the automaton, as the model sees it.
pub enum Event {
    Block(Seq<i16>),
    Tick,
}

pub open spec fn step(c: SegmenterConfig, s: SegModel, e: Event) -> (SegModel, Seq<Seq<i16>>) {
    match e {
        Event::Block(b) => step_block(c, s, b),
        Event::Tick => step_tick(c, s),
    }
}

/// Runs the automaton over `evs` from `s`: the final state and every segment
/// emitted, in order.
pub open spec fn run(c: SegmenterConfig, s: SegModel, evs: Seq<Event>) -> (SegModel, Seq<
    Seq<i16>,
>)
    decreases evs.len(),
{
    if evs.len() == 0 {
        (s, Seq::empty())
    } else {
        let r = run(c, s, evs.drop_last());
        let t = step(c, r.0, evs.last());
        (t.0, r.1 + t.1)
    }
}

/// Each block as an event.
pub open spec fn block_events(bs: Seq<Seq<i16>>) -> Seq<Event> {
    bs.map_values(|b: Seq<i16>| Event::Block(b))
}

/// `n` idle ticks.
pub open spec fn ticks(n: nat) -> Seq<Event> {
    Seq::new(n, |i: int| Event::Tick)
}

/// The blocks laid end to end.
pub open spec fn joined(bs: Seq<Seq<i16>>) -> Seq<i16>
    decreases bs.len(),
{
    if bs.len() == 0 {
        Seq::empty()
    } else {
        joined(bs.drop_last()) + bs.last()
    }
}

/// Every segment is at least the minimum and at most the maximum length.
pub open spec fn lengths_within(c: SegmenterConfig, out: Seq<Seq<i16>>) -> bool {
    forall|k: int|
        0 <= k < out.len() ==> c.min_speech_samples <= #[trigger] out[k].len() <= c.max_samples
}

} // verus!
