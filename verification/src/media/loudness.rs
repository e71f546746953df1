//! The bookkeeping of the loudness normaliser: what was measured, when the
//! meter is asked, and which frames count as silence.
use crate::media::{AudioFrame, FrameView, Samples, SamplesView};
use vstd::prelude::*;

verus! {

/// Counters of a loudness normaliser.
#[derive(Debug, Clone, Copy, PartialEq, Eq, Structural)]
pub struct LoudnessNormalizer {
    pub sample_rate: u32,
    /// Samples since the meter was last asked.
    pub samples_since_query: u32,
    /// Samples after which the meter is asked again.
    pub query_interval_samples: u32,
    /// Samples that the meter got in all.
    pub samples_fed: u64,
    /// Samples that fill the window of the short-term loudness.
    pub shortterm_window_samples: u64,
    /// The largest magnitude that a silent sample has.
    pub silence_threshold: u16,
}

/// The loudness that the meter is asked for.
#[derive(Debug, Clone, Copy, PartialEq, Eq, Structural)]
pub enum LoudnessQuery {
    /// Do not ask.
    Nothing,
    /// The average over the whole call.
    Integrated,
    /// The last seconds; the average over the whole call where that fails.
    ShortTerm,
}

/// What is to be done with a frame.
#[derive(Debug, Clone, Copy, PartialEq, Eq, Structural)]
pub enum LoudnessStep {
    /// Nothing: the frame carries no samples.
    Ignore,
    /// Scale the samples. Unless the frame is silent, ask the meter as told and
    /// let the gain follow its target first.
    Apply { silent: bool, query: LoudnessQuery },
}

/// The magnitude of a sample.
pub open spec fn magnitude(s: i16) -> int {
    if s < 0 {
        -(s as int)
    } else {
        s as int
    }
}

/// No sample is louder than a threshold.
pub open spec fn all_silent(samples: Seq<i16>, threshold: u16) -> bool {
    forall|i: int| 0 <= i < samples.len() ==> magnitude(#[trigger] samples[i]) <= threshold
}

/// How many samples of a frame are counted toward the next query: their number,
/// as far as the counter's width shows it.
pub open spec fn counted_len(len: nat) -> int {
    len as int % 0x1_0000_0000
}

impl LoudnessNormalizer {
    /// Counters for a rate, with nothing measured yet. The interval is a tenth
    /// of a second, the threshold the magnitude of -50 dBFS; both come from
    /// floating-point formulas.
    pub fn new(sample_rate: u32, query_interval_samples: u32, silence_threshold: u16) -> (r: Self)
        ensures
            r == (LoudnessNormalizer {
                sample_rate,
                samples_since_query: 0,
                query_interval_samples,
                samples_fed: 0,
                shortterm_window_samples: (3 * sample_rate) as u64,
                silence_threshold,
            }),
    {
        LoudnessNormalizer {
            sample_rate,
            samples_since_query: 0,
            query_interval_samples,
            samples_fed: 0,
            shortterm_window_samples: sample_rate as u64 * 3,
            silence_threshold,
        }
    }

    /// Samples that the meter got in all, once `n` more came.
    pub open spec fn fed_after(&self, n: int) -> int {
        if self.samples_fed + n > u64::MAX {
            u64::MAX as int
        } else {
            self.samples_fed + n
        }
    }

    /// The meter is due once a frame of so many samples came.
    pub open spec fn due_after(&self, len: nat) -> bool {
        self.samples_since_query + counted_len(len) >= self.query_interval_samples
    }

    /// The counters after a frame.
    pub open spec fn counted(self, frame: FrameView) -> LoudnessNormalizer {
        match frame.samples {
            SamplesView::PCM { samples } if samples.len() > 0 => LoudnessNormalizer {
                samples_fed: self.fed_after(samples.len() as int) as u64,
                samples_since_query: if self.due_after(samples.len()) {
                    0
                } else {
                    (self.samples_since_query + counted_len(samples.len())) as u32
                },
                ..self
            },
            _ => self,
        }
    }

    /// What is to be done with a frame.
    pub open spec fn step_for(self, frame: FrameView) -> LoudnessStep {
        match frame.samples {
            SamplesView::PCM { samples } if samples.len() > 0 => {
                let silent = all_silent(samples, self.silence_threshold);
                LoudnessStep::Apply {
                    silent,
                    query: if silent || !self.due_after(samples.len()) {
                        LoudnessQuery::Nothing
                    } else if self.fed_after(samples.len() as int)
                        >= self.shortterm_window_samples {
                        LoudnessQuery::ShortTerm
                    } else {
                        LoudnessQuery::Integrated
                    },
                }
            },
            _ => LoudnessStep::Ignore,
        }
    }

    /// Which loudness drives the gain: the short-term one once its window is
    /// full.
    pub fn current_loudness(&self) -> (r: LoudnessQuery)
        ensures
            r == if self.samples_fed >= self.shortterm_window_samples {
                LoudnessQuery::ShortTerm
            } else {
                LoudnessQuery::Integrated
            },
    {
        if self.samples_fed >= self.shortterm_window_samples {
            LoudnessQuery::ShortTerm
        } else {
            LoudnessQuery::Integrated
        }
    }

    /// Counts a frame that the meter got, and tells what is to be done with it.
    pub fn process_frame(&mut self, frame: &AudioFrame) -> (r: LoudnessStep)
        requires
            frame@.samples matches SamplesView::PCM { samples } ==> old(self).samples_since_query
                + counted_len(samples.len()) <= u32::MAX,
        ensures
            *final(self) == old(self).counted(frame@),
            r == old(self).step_for(frame@),
    {
        match &frame.samples {
            Samples::PCM { samples } => {
                let n: usize = samples.len();
                if n == 0 {
                    return LoudnessStep::Ignore;
                }
                self.samples_fed = self.samples_fed.saturating_add(n as u64);
                let silent: bool = is_silent(samples, self.silence_threshold);
                let counted: u32 = (n as u64 % 0x1_0000_0000) as u32;
                self.samples_since_query = self.samples_since_query + counted;
                let mut query: LoudnessQuery = LoudnessQuery::Nothing;
                if self.samples_since_query >= self.query_interval_samples {
                    self.samples_since_query = 0;
                    if !silent {
                        query = self.current_loudness();
                    }
                }
                LoudnessStep::Apply { silent, query }
            },
            _ => LoudnessStep::Ignore,
        }
    }
}

/// Whether no sample is louder than a threshold.
fn is_silent(samples: &Vec<i16>, threshold: u16) -> (r: bool)
    ensures
        r == all_silent(samples@, threshold),
{
    let n: usize = samples.len();
    let mut i: usize = 0;
    while i < n
        invariant
            0 <= i <= n,
            n == samples@.len(),
            forall|j: int| 0 <= j < i ==> magnitude(#[trigger] samples@[j]) <= threshold,
        decreases n - i,
    {
        let s: i32 = samples[i] as i32;
        let m: i32 = if s < 0 {
            -s
        } else {
            s
        };
        if m > threshold as i32 {
            assert(magnitude(samples@[i as int]) > threshold);
            return false;
        }
        i = i + 1;
    }
    true
}

/// A silent frame moves no gain: the meter is not asked about it.
pub proof fn law_silence_asks_nothing(counters: LoudnessNormalizer, frame: FrameView)
    ensures
        counters.step_for(frame) matches LoudnessStep::Apply { silent, query } ==> (silent ==> query
            == LoudnessQuery::Nothing),
{
}

/// The meter is asked only once a whole interval of samples came since the last
/// time, and then the count begins anew.
pub proof fn law_queries_keep_their_distance(counters: LoudnessNormalizer, frame: FrameView)
    ensures
        counters.step_for(frame) matches LoudnessStep::Apply { query, .. } && query
            != LoudnessQuery::Nothing ==> {
            &&& frame.samples matches SamplesView::PCM { samples } && counters.due_after(
                samples.len(),
            )
            &&& counters.counted(frame).samples_since_query == 0
        },
        counters.samples_since_query < counters.query_interval_samples ==> counters.counted(
            frame,
        ).samples_since_query < counters.query_interval_samples,
{
}

/// A frame is silent where none of its samples is louder than the threshold, on
/// either side of zero: one that is louder makes it heard. Frames without samples
/// are not looked at and not counted.
pub proof fn law_one_loud_sample_is_heard(counters: LoudnessNormalizer, frame: FrameView)
    ensures
        frame.samples matches SamplesView::PCM { samples } ==> (samples.len() > 0 ==> (
        counters.step_for(frame) matches LoudnessStep::Apply { silent, query } && (silent
            <==> forall|i: int|
            0 <= i < samples.len() ==> -(counters.silence_threshold as int) <= (
            #[trigger] samples[i]) && samples[i] <= counters.silence_threshold))),
        (frame.samples matches SamplesView::PCM { samples } ==> samples.len() == 0)
            ==> counters.step_for(frame) == LoudnessStep::Ignore && counters.counted(frame)
            == counters,
{
}

/// Every sample that comes is counted, up to the counter's limit; toward the next
/// query they are counted from the last one on. The settings stay.
pub proof fn law_samples_are_counted(
    counters: LoudnessNormalizer,
    frame: FrameView,
    samples: Seq<i16>,
)
    requires
        frame.samples == (SamplesView::PCM { samples }),
        0 < samples.len() <= u32::MAX,
        counters.samples_since_query + samples.len() <= u32::MAX,
    ensures
        ({
            let after = counters.counted(frame);
            let since = counters.samples_since_query + samples.len();
            &&& counters.samples_fed + samples.len() <= u64::MAX ==> after.samples_fed
                == counters.samples_fed + samples.len()
            &&& counters.samples_fed + samples.len() > u64::MAX ==> after.samples_fed == u64::MAX
            &&& since < counters.query_interval_samples ==> after.samples_since_query == since
            &&& since >= counters.query_interval_samples ==> after.samples_since_query == 0
            &&& after.sample_rate == counters.sample_rate
            &&& after.query_interval_samples == counters.query_interval_samples
            &&& after.shortterm_window_samples == counters.shortterm_window_samples
            &&& after.silence_threshold == counters.silence_threshold
        }),
{
}

/// The meter is asked about a frame that is heard as soon as an interval is full:
/// for the short-term loudness once its window is full as well, for the integrated
/// one before.
pub proof fn law_full_interval_asks(
    counters: LoudnessNormalizer,
    frame: FrameView,
    samples: Seq<i16>,
    i: int,
)
    requires
        frame.samples == (SamplesView::PCM { samples }),
        samples.len() <= u32::MAX,
        0 <= i < samples.len(),
        samples[i] > counters.silence_threshold || -(samples[i] as int)
            > counters.silence_threshold,
    ensures
        counters.step_for(frame) matches LoudnessStep::Apply { silent, query } && {
            &&& !silent
            &&& counters.samples_since_query + samples.len() < counters.query_interval_samples
                ==> query == LoudnessQuery::Nothing
            &&& counters.samples_since_query + samples.len() >= counters.query_interval_samples
                ==> query == if counters.counted(frame).samples_fed
                >= counters.shortterm_window_samples {
                LoudnessQuery::ShortTerm
            } else {
                LoudnessQuery::Integrated
            }
        },
{
    assert(magnitude(samples[i]) > counters.silence_threshold);
}

}
