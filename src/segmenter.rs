use vstd::prelude::*;

use crate::config::{ConfigError, SegmenterConfig};
use crate::energy::{compute_rms, is_loud, lemma_floor_rms_threshold};
use crate::laws::{lemma_step_block_bounds, lemma_step_tick_bounds};
use crate::model::{
    feed, finalize, idle_model, lengths_within, model_wf, step_block, step_tick, SegModel,
};

verus! {

/// A finished segment: interleaved samples with their stream format.
pub struct FinalizedSegment {
    pub samples: Vec<i16>,
    pub channels: u16,
    pub sample_rate: u32,
}

/// The samples of each segment, in order.
pub open spec fn segment_samples(v: Seq<FinalizedSegment>) -> Seq<Seq<i16>> {
    v.map_values(|f: FinalizedSegment| f.samples@)
}

/// The samples of an optional segment, as a sequence of at most one.
pub open spec fn optional_samples(o: Option<FinalizedSegment>) -> Seq<Seq<i16>> {
    match o {
        Some(f) => seq![f.samples@],
        None => Seq::empty(),
    }
}

/// One input of the automaton.
pub enum Input {
    /// A block of interleaved samples from the capture device.
    Block(Vec<i16>),
    /// No block arrived within the poll interval.
    Tick,
    /// The capture stream has ended.
    Closed,
}

/// What the automaton asks of its driver after one input.
pub struct Step {
    /// Segments to hand to export, in order.
    pub segments: Vec<FinalizedSegment>,
    /// The driver stops its loop.
    pub stop: bool,
}

/// The energy-threshold segmentation automaton.
pub struct Segmenter {
    config: SegmenterConfig,
    channels: u16,
    sample_rate: u32,
    accumulating: bool,
    pending: Vec<i16>,
    quiet: usize,
}

impl Segmenter {
    pub closed spec fn model(&self) -> SegModel {
        SegModel { accumulating: self.accumulating, pending: self.pending@, quiet: self.quiet as nat }
    }

    pub closed spec fn spec_config(&self) -> SegmenterConfig {
        self.config
    }

    pub closed spec fn spec_channels(&self) -> u16 {
        self.channels
    }

    pub closed spec fn spec_sample_rate(&self) -> u32 {
        self.sample_rate
    }

    pub open spec fn wf(&self) -> bool {
        self.spec_config().valid() && model_wf(self.spec_config(), self.model())
    }

    /// Every segment carries this automaton's stream format.
    pub open spec fn tags(&self, v: Seq<FinalizedSegment>) -> bool {
        forall|k: int|
            0 <= k < v.len() ==> v[k].channels == self.spec_channels() && v[k].sample_rate
                == self.spec_sample_rate()
    }

    /// Same configuration and stream format as `other`.
    pub open spec fn same_setup(&self, other: &Segmenter) -> bool {
        self.spec_config() == other.spec_config() && self.spec_channels() == other.spec_channels()
            && self.spec_sample_rate() == other.spec_sample_rate()
    }

    /// A new automaton in `Idle`, or the first rule that `config` breaks.
    pub fn new(config: SegmenterConfig, channels: u16, sample_rate: u32) -> (r: Result<
        Segmenter,
        ConfigError,
    >)
        ensures
            match config.first_error() {
                None => r matches Ok(s) && s.wf() && s.model() == idle_model() && s.spec_config()
                    == config && s.spec_channels() == channels && s.spec_sample_rate()
                    == sample_rate,
                Some(e) => r matches Err(x) && x == e,
            },
    {
        match config.validate() {
            Err(e) => Err(e),
            Ok(()) => Ok(
                Segmenter {
                    config,
                    channels,
                    sample_rate,
                    accumulating: false,
                    pending: Vec::new(),
                    quiet: 0,
                },
            ),
        }
    }

    /// The configuration in force.
    pub fn config(&self) -> (r: SegmenterConfig)
        ensures
            r == self.spec_config(),
    {
        self.config
    }

    /// Whether a segment is under construction.
    pub fn is_accumulating(&self) -> (r: bool)
        ensures
            r == self.model().accumulating,
    {
        self.accumulating
    }

    /// Number of samples in the segment under construction.
    pub fn pending_len(&self) -> (r: usize)
        ensures
            r == self.model().pending.len(),
    {
        self.pending.len()
    }

    /// Ends the pending segment and returns to `Idle`.
    fn end_segment(&mut self) -> (r: Option<FinalizedSegment>)
        ensures
            final(self).model() == idle_model(),
            final(self).same_setup(old(self)),
            optional_samples(r) == finalize(old(self).spec_config(), old(self).model().pending),
            r matches Some(f) ==> f.channels == old(self).spec_channels() && f.sample_rate
                == old(self).spec_sample_rate(),
    {
        let mut seg: Vec<i16> = Vec::new();
        std::mem::swap(&mut seg, &mut self.pending);
        self.accumulating = false;
        self.quiet = 0;
        proof {
            assert(self.pending@ =~= Seq::<i16>::empty());
        }
        if seg.len() >= self.config.min_speech_samples {
            Some(FinalizedSegment { samples: seg, channels: self.channels, sample_rate: self.sample_rate })
        } else {
            None
        }
    }

    /// An idle tick: while accumulating, it counts as a run of quiet samples
    /// and may end the segment; in `Idle` it changes nothing.
    pub fn tick(&mut self) -> (r: Option<FinalizedSegment>)
        requires
            old(self).wf(),
        ensures
            final(self).wf(),
            final(self).same_setup(old(self)),
            (final(self).model(), optional_samples(r)) == step_tick(
                old(self).spec_config(),
                old(self).model(),
            ),
            r matches Some(f) ==> f.channels == old(self).spec_channels() && f.sample_rate
                == old(self).spec_sample_rate(),
    {
        if !self.accumulating {
            None
        } else if self.config.tick_samples >= self.config.silence_samples - self.quiet {
            self.end_segment()
        } else {
            self.quiet = self.quiet + self.config.tick_samples;
            None
        }
    }

    /// Appends `block[i..i + take]` to the pending segment.
    fn append_range(&mut self, block: &[i16], i: usize, take: usize)
        requires
            i + take <= block@.len(),
        ensures
            final(self).pending@ == old(self).pending@ + block@.subrange(i as int, i + take),
            final(self).accumulating == old(self).accumulating,
            final(self).quiet == old(self).quiet,
            final(self).same_setup(old(self)),
    {
        let end = block.len() - (block.len() - i - take);
        let mut j: usize = i;
        while j < end
            invariant
                end == i + take,
                i <= j <= i + take <= block@.len(),
                self.pending@ == old(self).pending@ + block@.subrange(i as int, j as int),
                self.accumulating == old(self).accumulating,
                self.quiet == old(self).quiet,
                self.same_setup(old(self)),
            decreases end - j,
        {
            self.pending.push(block[j]);
            proof {
                assert(block@.subrange(i as int, j + 1) =~= block@.subrange(i as int, j as int).push(
                    block@[j as int],
                ));
            }
            j = j + 1;
        }
    }

    /// One incoming block. Its RMS decides whether it is speech; it is then
    /// appended while accumulating, and the segment ends after a long enough
    /// quiet run or at the maximum length. A block that would cross the
    /// maximum is cut there, and its remainder is fed again from `Idle`.
    #[verifier::rlimit(40)]
    pub fn push_block(&mut self, block: &[i16]) -> (r: Vec<FinalizedSegment>)
        requires
            old(self).wf(),
        ensures
            final(self).wf(),
            final(self).same_setup(old(self)),
            (final(self).model(), segment_samples(r@)) == step_block(
                old(self).spec_config(),
                old(self).model(),
                block@,
            ),
            old(self).tags(r@),
    {
        let rms = compute_rms(block);
        let loud = rms >= self.config.threshold;
        let ghost c = self.config;
        let ghost b = block@;
        let ghost m0 = self.model();
        proof {
            lemma_floor_rms_threshold(b, rms as int, c.threshold as int);
            assert(b.skip(0) =~= b);
            assert(segment_samples(Seq::empty()) + feed(c, m0, b, loud).1 =~= feed(c, m0, b, loud).1);
        }
        let n = block.len();
        let mut out: Vec<FinalizedSegment> = Vec::new();
        let mut i: usize = 0;
        let mut more = true;
        while more
            invariant
                self.wf(),
                self.same_setup(old(self)),
                c == self.spec_config(),
                b == block@,
                n == b.len(),
                i <= n,
                loud == is_loud(b, c.threshold as int),
                more && loud && !self.accumulating ==> i < n,
                more ==> feed(c, m0, b, loud) == (
                    feed(c, self.model(), b.skip(i as int), loud).0,
                    segment_samples(out@) + feed(c, self.model(), b.skip(i as int), loud).1,
                ),
                !more ==> feed(c, m0, b, loud) == (self.model(), segment_samples(out@)),
                old(self).tags(out@),
            decreases n - i + (if more {
                1int
            } else {
                0int
            }),
        {
            let ghost rest = b.skip(i as int);
            let ghost outv = segment_samples(out@);
            if !self.accumulating && !loud {
                more = false;
                proof {
                    assert(outv + Seq::<Seq<i16>>::empty() =~= outv);
                }
            } else {
                if !self.accumulating {
                    self.accumulating = true;
                    self.quiet = 0;
                }
                let room = self.config.max_samples - self.pending.len();
                let rem = n - i;
                let take = if rem < room {
                    rem
                } else {
                    room
                };
                self.append_range(block, i, take);
                proof {
                    assert(rest.take(take as int) =~= b.subrange(i as int, i + take));
                }
                let silent = if loud {
                    self.quiet = 0;
                    false
                } else if take >= self.config.silence_samples - self.quiet {
                    true
                } else {
                    self.quiet = self.quiet + take;
                    false
                };
                i = i + take;
                if silent || self.pending.len() >= self.config.max_samples {
                    let seg = self.end_segment();
                    let ghost fin = optional_samples(seg);
                    match seg {
                        Some(f) => {
                            out.push(f);
                        },
                        None => {},
                    }
                    proof {
                        assert(segment_samples(out@) =~= outv + fin);
                        if i < n {
                            assert(rest.skip(take as int) =~= b.skip(i as int));
                            let f2 = feed(c, idle_model(), b.skip(i as int), loud);
                            assert(outv + (fin + f2.1) =~= segment_samples(out@) + f2.1);
                        } else {
                            assert(outv + fin =~= segment_samples(out@));
                        }
                    }
                    if i == n {
                        more = false;
                    }
                } else {
                    more = false;
                    proof {
                        assert(outv + Seq::<Seq<i16>>::empty() =~= outv);
                    }
                }
            }
        }
        out
    }

    /// One input of the driver loop. A block or a tick goes through the
    /// automaton; the end of the stream stops the loop and drops whatever
    /// segment was under construction, unflushed.
    pub fn handle(&mut self, input: Input) -> (r: Step)
        requires
            old(self).wf(),
        ensures
            final(self).wf(),
            final(self).same_setup(old(self)),
            old(self).tags(r.segments@),
            lengths_within(old(self).spec_config(), segment_samples(r.segments@)),
            match input {
                Input::Block(b) => !r.stop && (final(self).model(), segment_samples(r.segments@))
                    == step_block(old(self).spec_config(), old(self).model(), b@),
                Input::Tick => !r.stop && (final(self).model(), segment_samples(r.segments@))
                    == step_tick(old(self).spec_config(), old(self).model()),
                Input::Closed => r.stop && r.segments@.len() == 0 && final(self).model()
                    == idle_model(),
            },
    {
        match input {
            Input::Block(b) => {
                proof {
                    lemma_step_block_bounds(self.spec_config(), self.model(), b@);
                }
                let segments = self.push_block(b.as_slice());
                Step { segments, stop: false }
            },
            Input::Tick => {
                proof {
                    lemma_step_tick_bounds(self.spec_config(), self.model());
                }
                let mut segments: Vec<FinalizedSegment> = Vec::new();
                let seg = self.tick();
                match seg {
                    Some(f) => {
                        segments.push(f);
                    },
                    None => {},
                }
                proof {
                    assert(segment_samples(segments@) =~= optional_samples(seg));
                }
                Step { segments, stop: false }
            },
            Input::Closed => {
                self.pending = Vec::new();
                self.accumulating = false;
                self.quiet = 0;
                proof {
                    assert(self.pending@ =~= Seq::<i16>::empty());
                }
                let segments: Vec<FinalizedSegment> = Vec::new();
                proof {
                    assert(segment_samples(segments@) =~= Seq::<Seq<i16>>::empty());
                }
                Step { segments, stop: true }
            },
        }
    }
}

} // verus!
