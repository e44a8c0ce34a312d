use vstd::prelude::*;

use crate::segmenter::FinalizedSegment;

verus! {

/// How one export ended.
#[derive(Clone, Copy, Debug, PartialEq, Eq)]
pub enum ExportOutcome {
    /// The transcription reached the delivery sink.
    Delivered,
    /// The transcription was discarded by the post-filter.
    Filtered,
    /// Encoding, transmission or the reply failed.
    Failed,
}

/// Hands finalized segments to at most `limit` concurrent exports; the rest
/// wait in arrival order. An export's outcome never holds back the others.
pub struct Dispatcher {
    limit: usize,
    in_flight: usize,
    waiting: Vec<FinalizedSegment>,
    delivered: u64,
    filtered: u64,
    failed: u64,
}

/// Adds one to a counter, stopping at its largest value.
pub open spec fn bump(n: u64) -> u64 {
    if n < u64::MAX {
        (n + 1) as u64
    } else {
        n
    }
}

/// Abstract state of the coordinator: exports running and segments waiting.
pub struct DispatchModel {
    pub in_flight: nat,
    pub waiting: Seq<FinalizedSegment>,
}

/// A segment arrives: it starts at once when fewer than `limit` run, else it
/// waits behind the others.
pub open spec fn submit_model(limit: nat, d: DispatchModel, seg: FinalizedSegment) -> (
    DispatchModel,
    Option<FinalizedSegment>,
) {
    if d.in_flight < limit {
        (DispatchModel { in_flight: d.in_flight + 1, waiting: d.waiting }, Some(seg))
    } else {
        (DispatchModel { in_flight: d.in_flight, waiting: d.waiting.push(seg) }, None)
    }
}

/// An export ends, whatever its outcome: the oldest waiting segment takes
/// its slot, or the slot is freed.
pub open spec fn finish_model(d: DispatchModel) -> (DispatchModel, Option<FinalizedSegment>) {
    if d.waiting.len() > 0 {
        (DispatchModel { in_flight: d.in_flight, waiting: d.waiting.drop_first() }, Some(d.waiting[0]))
    } else {
        (DispatchModel { in_flight: (d.in_flight - 1) as nat, waiting: d.waiting }, None)
    }
}

/// Two segments finalized one after the other from an idle coordinator:
/// the first starts at once, and the second either starts at once too or
/// starts as soon as the first export ends, however that export ended.
pub proof fn lemma_second_segment_not_held_back(
    limit: nat,
    a: FinalizedSegment,
    b: FinalizedSegment,
)
    requires
        limit > 0,
    ensures
        ({
            let d0 = DispatchModel { in_flight: 0, waiting: Seq::empty() };
            let (d1, r1) = submit_model(limit, d0, a);
            let (d2, r2) = submit_model(limit, d1, b);
            r1 == Some(a) && (r2 == Some(b) || finish_model(d2).1 == Some(b))
        }),
{
    let d0 = DispatchModel { in_flight: 0, waiting: Seq::empty() };
    let d1 = submit_model(limit, d0, a).0;
    if limit == 1 {
        assert(submit_model(limit, d1, b).0.waiting =~= seq![b]);
    }
}

impl Dispatcher {
    pub closed spec fn model(&self) -> DispatchModel {
        DispatchModel { in_flight: self.in_flight as nat, waiting: self.waiting@ }
    }

    pub closed spec fn spec_limit(&self) -> nat {
        self.limit as nat
    }

    pub open spec fn spec_in_flight(&self) -> nat {
        self.model().in_flight
    }

    pub open spec fn spec_waiting(&self) -> Seq<FinalizedSegment> {
        self.model().waiting
    }

    /// Counts of finished exports: delivered, filtered, failed.
    pub closed spec fn spec_counts(&self) -> (u64, u64, u64) {
        (self.delivered, self.filtered, self.failed)
    }

    /// At most `limit` exports run, and a segment waits only while all run.
    pub open spec fn wf(&self) -> bool {
        &&& 0 < self.spec_limit()
        &&& self.spec_in_flight() <= self.spec_limit()
        &&& self.spec_waiting().len() > 0 ==> self.spec_in_flight() == self.spec_limit()
    }

    /// A coordinator with nothing in flight, or `None` for a zero limit.
    pub fn new(limit: usize) -> (r: Option<Dispatcher>)
        ensures
            match r {
                Some(d) => limit > 0 && d.wf() && d.spec_limit() == limit && d.model()
                    == (DispatchModel { in_flight: 0, waiting: Seq::empty() }) && d.spec_counts() == (
                    0u64,
                    0u64,
                    0u64,
                ),
                None => limit == 0,
            },
    {
        if limit == 0 {
            None
        } else {
            Some(
                Dispatcher {
                    limit,
                    in_flight: 0,
                    waiting: Vec::new(),
                    delivered: 0,
                    filtered: 0,
                    failed: 0,
                },
            )
        }
    }

    /// Number of exports running.
    pub fn in_flight(&self) -> (r: usize)
        ensures
            r == self.spec_in_flight(),
    {
        self.in_flight
    }

    /// Number of segments waiting for an export slot.
    pub fn waiting_len(&self) -> (r: usize)
        ensures
            r == self.spec_waiting().len(),
    {
        self.waiting.len()
    }

    /// Counts of finished exports: delivered, filtered, failed.
    pub fn counts(&self) -> (r: (u64, u64, u64))
        ensures
            r == self.spec_counts(),
    {
        (self.delivered, self.filtered, self.failed)
    }

    /// A newly finalized segment: returned to be exported now when a slot is
    /// free, else queued behind the segments already waiting.
    pub fn submit(&mut self, segment: FinalizedSegment) -> (r: Option<FinalizedSegment>)
        requires
            old(self).wf(),
        ensures
            final(self).wf(),
            final(self).spec_limit() == old(self).spec_limit(),
            final(self).spec_counts() == old(self).spec_counts(),
            (final(self).model(), r) == submit_model(old(self).spec_limit(), old(self).model(), segment),

    {
        if self.in_flight < self.limit {
            self.in_flight = self.in_flight + 1;
            Some(segment)
        } else {
            self.waiting.push(segment);
            None
        }
    }

    /// One export has ended. Whatever its outcome, the oldest waiting segment,
    /// if any, is returned to be exported in the freed slot.
    pub fn finish(&mut self, outcome: ExportOutcome) -> (r: Option<FinalizedSegment>)
        requires
            old(self).wf(),
            old(self).spec_in_flight() > 0,
        ensures
            final(self).wf(),
            final(self).spec_limit() == old(self).spec_limit(),
            final(self).spec_counts() == (match outcome {
                ExportOutcome::Delivered => (
                    bump(old(self).spec_counts().0),
                    old(self).spec_counts().1,
                    old(self).spec_counts().2,
                ),
                ExportOutcome::Filtered => (
                    old(self).spec_counts().0,
                    bump(old(self).spec_counts().1),
                    old(self).spec_counts().2,
                ),
                ExportOutcome::Failed => (
                    old(self).spec_counts().0,
                    old(self).spec_counts().1,
                    bump(old(self).spec_counts().2),
                ),
            }),
            (final(self).model(), r) == finish_model(old(self).model()),

    {
        match outcome {
            ExportOutcome::Delivered => {
                self.delivered = if self.delivered < u64::MAX {
                    self.delivered + 1
                } else {
                    self.delivered
                };
            },
            ExportOutcome::Filtered => {
                self.filtered = if self.filtered < u64::MAX {
                    self.filtered + 1
                } else {
                    self.filtered
                };
            },
            ExportOutcome::Failed => {
                self.failed = if self.failed < u64::MAX {
                    self.failed + 1
                } else {
                    self.failed
                };
            },
        }
        if self.waiting.len() > 0 {
            let next = self.waiting.remove(0);
            proof {
                assert(self.waiting@ =~= old(self).waiting@.drop_first());
            }
            Some(next)
        } else {
            self.in_flight = self.in_flight - 1;
            None
        }
    }
}

} // verus!
