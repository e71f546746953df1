//! The chain of processors through which the frames of a track pass.
use crate::media::stream::{MuteProcessor, RecorderProcessor};
use crate::media::{
    AudioFrame, FrameView, Samples, SamplesView, SourcePacket, SourcePacketView,
    INTERNAL_SAMPLERATE,
};
use vstd::prelude::*;

verus! {

/// What a processor asks its surroundings to do with a frame.
#[derive(Debug, PartialEq, Eq)]
pub enum Effect {
    /// Nothing.
    Silent,
    /// Hand a copy of the frame to the recorder.
    Record { frame: AudioFrame },
    /// Publish a binary session event.
    Binary { track_id: String, timestamp: u64, data: Vec<u8> },
}

/// What an [`Effect`] holds.
#[verifier::ext_equal]
pub enum EffectView {
    Silent,
    Record { frame: FrameView },
    Binary { track_id: Seq<char>, timestamp: u64, data: Seq<u8> },
}

impl View for Effect {
    type V = EffectView;

    open spec fn view(&self) -> EffectView {
        match *self {
            Effect::Silent => EffectView::Silent,
            Effect::Record { frame } => EffectView::Record { frame: frame@ },
            Effect::Binary { track_id, timestamp, data } => EffectView::Binary {
                track_id: track_id@,
                timestamp,
                data: data@,
            },
        }
    }
}

/// Why a processor gave up on a frame.
#[derive(Debug, PartialEq, Eq)]
pub struct ProcessError {
    pub message: String,
}

/// One stage of the chain.
pub trait Processor {
    /// Works on a frame, in place.
    fn process_frame(&mut self, frame: &mut AudioFrame) -> Result<Effect, ProcessError>;
}

/// The mean of two samples, rounded towards zero.
pub open spec fn mean(l: i16, r: i16) -> int {
    let sum = l + r;
    if sum >= 0 {
        sum / 2
    } else {
        -((-sum) / 2)
    }
}

/// Interleaved stereo samples as mono.
pub open spec fn mono_of(samples: Seq<i16>) -> Seq<i16> {
    Seq::new(samples.len() / 2, |i: int| mean(samples[2 * i], samples[2 * i + 1]) as i16)
}

/// Turns interleaved stereo samples into mono; any other number of channels
/// is left alone.
pub fn convert_to_mono(samples: &mut Vec<i16>, channels: u16)
    requires
        channels == 2 ==> old(samples)@.len() % 2 == 0,
    ensures
        final(samples)@ == if channels == 2 {
            mono_of(old(samples)@)
        } else {
            old(samples)@
        },
{
    if channels != 2 {
        return;
    }
    let ghost stereo = samples@;
    let total: usize = samples.len();
    let mut i: usize = 0;
    let mut j: usize = 0;
    while i < total
        invariant
            total == stereo.len() == samples@.len(),
            total % 2 == 0,
            i == 2 * j,
            0 <= i <= total,
            forall|k: int| 0 <= k < j ==> samples@[k] == mean(stereo[2 * k], stereo[2 * k + 1]),
            forall|k: int| i <= k < total ==> samples@[k] == stereo[k],
        decreases total - i,
    {
        let sum: i32 = samples[i] as i32 + samples[i + 1] as i32;
        let half: i32 = if sum >= 0 {
            sum / 2
        } else {
            0 - ((0 - sum) / 2)
        };
        samples.set(j, half as i16);
        i = i + 2;
        j = j + 1;
    }
    samples.truncate(j);
    assert(samples@ =~= mono_of(stereo));
}

/// The unsigned 16-bit value with the same bits as a sample.
pub open spec fn sample_bits(s: i16) -> int {
    if s < 0 {
        s + 65536
    } else {
        s as int
    }
}

/// The samples as bytes, low byte first.
pub open spec fn le_bytes(samples: Seq<i16>) -> Seq<u8> {
    Seq::new(
        2 * samples.len(),
        |i: int|
            if i % 2 == 0 {
                (sample_bits(samples[i / 2]) % 256) as u8
            } else {
                (sample_bits(samples[i / 2]) / 256) as u8
            },
    )
}

/// Calls `audio_codec::samples_to_bytes`: every sample becomes two bytes, the
/// low one first, in the order of the samples.
#[verifier::external_body]
fn samples_to_bytes(samples: &Vec<i16>) -> (r: Vec<u8>)
    ensures
        r@ == le_bytes(samples@),
{
    audio_codec::samples_to_bytes(samples)
}

/// Publishes the decoded audio of a track to the subscribers of the session.
#[derive(Debug, PartialEq, Eq)]
pub struct SubscribeProcessor {
    pub track_id: String,
    /// 0 for the caller, 1 for the callee.
    pub track_index: u8,
}

impl SubscribeProcessor {
    /// A processor that publishes under the given track and index.
    pub fn new(track_id: String, track_index: u8) -> (r: Self)
        ensures
            r == (SubscribeProcessor { track_id, track_index }),
    {
        SubscribeProcessor { track_id, track_index }
    }

    /// What is published for a frame: decoded samples, with the track index in
    /// front.
    pub fn publish(&self, frame: &AudioFrame) -> (r: Effect)
        ensures
            r@ == self.effect_on(frame@),
    {
        match &frame.samples {
            Samples::PCM { samples } => {
                if samples.len() > 0 {
                    let mut pcm: Vec<u8> = samples_to_bytes(samples);
                    let mut data: Vec<u8> = Vec::new();
                    data.push(self.track_index);
                    data.append(&mut pcm);
                    assert(data@ =~= seq![self.track_index] + le_bytes(samples@));
                    return Effect::Binary {
                        track_id: self.track_id.clone(),
                        timestamp: frame.timestamp,
                        data,
                    };
                }
            },
            _ => {},
        }
        Effect::Silent
    }

    /// What is published for a frame.
    pub open spec fn effect_on(&self, frame: FrameView) -> EffectView {
        match frame.samples {
            SamplesView::PCM { samples } if samples.len() > 0 => EffectView::Binary {
                track_id: self.track_id@,
                timestamp: frame.timestamp,
                data: seq![self.track_index] + le_bytes(samples),
            },
            _ => EffectView::Silent,
        }
    }
}

impl Processor for SubscribeProcessor {
    /// Publishes decoded samples, with the track index in front.
    fn process_frame(&mut self, frame: &mut AudioFrame) -> (r: Result<Effect, ProcessError>)
        ensures
            *final(self) == *old(self),
            *final(frame) == *old(frame),
            r matches Ok(e) && e@ == old(self).effect_on(old(frame)@),
    {
        Ok(self.publish(frame))
    }
}

/// A member of the chain: one of this library's processors, or one that the
/// surroundings run, known by the tag of its type and its own number.
#[derive(Debug, PartialEq, Eq)]
pub enum ChainProcessor {
    Mute(MuteProcessor),
    Recorder(RecorderProcessor),
    Subscribe(SubscribeProcessor),
    External { tag: u64, id: u64 },
}

/// The type of a member of the chain.
#[derive(Debug, Clone, Copy, PartialEq, Eq, Structural)]
pub enum ProcessorKind {
    Mute,
    Recorder,
    Subscribe,
    External(u64),
}

impl ChainProcessor {
    /// The type of this member.
    pub open spec fn kind_of(&self) -> ProcessorKind {
        match *self {
            ChainProcessor::Mute(_) => ProcessorKind::Mute,
            ChainProcessor::Recorder(_) => ProcessorKind::Recorder,
            ChainProcessor::Subscribe(_) => ProcessorKind::Subscribe,
            ChainProcessor::External { tag, .. } => ProcessorKind::External(tag),
        }
    }

    /// The type of this member.
    pub fn kind(&self) -> (r: ProcessorKind)
        ensures
            r == self.kind_of(),
    {
        match self {
            ChainProcessor::Mute(_) => ProcessorKind::Mute,
            ChainProcessor::Recorder(_) => ProcessorKind::Recorder,
            ChainProcessor::Subscribe(_) => ProcessorKind::Subscribe,
            ChainProcessor::External { tag, .. } => ProcessorKind::External(*tag),
        }
    }

    /// The frame as this member leaves it.
    pub open spec fn frame_after(&self, frame: FrameView) -> FrameView {
        match *self {
            ChainProcessor::Mute(_) => MuteProcessor::muted(frame),
            _ => frame,
        }
    }

    /// What this member asks its surroundings to do.
    pub open spec fn effect_on(&self, frame: FrameView) -> EffectView {
        match *self {
            ChainProcessor::Recorder(_) => EffectView::Record { frame },
            ChainProcessor::Subscribe(s) => s.effect_on(frame),
            _ => EffectView::Silent,
        }
    }
}

/// What a chain does, whoever holds it: the processors that its frames meet, and
/// whether a mirror gets the frames at the rate at which they came.
#[derive(Debug, PartialEq, Eq)]
pub struct ChainParts {
    pub processors: Vec<ChainProcessor>,
    pub raw_tap: bool,
}

/// What a [`ChainParts`] holds.
#[verifier::ext_equal]
pub struct PartsView {
    pub processors: Seq<ChainProcessor>,
    pub raw_tap: bool,
}

impl View for ChainParts {
    type V = PartsView;

    open spec fn view(&self) -> PartsView {
        PartsView { processors: self.processors@, raw_tap: self.raw_tap }
    }
}

/// The chains of a stream, each kept once for all who hold it.
#[derive(Debug, PartialEq, Eq)]
pub struct ChainTable {
    pub chains: Vec<ChainParts>,
}

impl View for ChainTable {
    type V = Seq<PartsView>;

    open spec fn view(&self) -> Seq<PartsView> {
        Seq::new(self.chains@.len(), |i: int| self.chains@[i]@)
    }
}

impl ChainTable {
    /// No chain is kept yet.
    pub fn new() -> (r: Self)
        ensures
            r@ == Seq::<PartsView>::empty(),
    {
        let r: ChainTable = ChainTable { chains: Vec::new() };
        assert(r@ =~= Seq::<PartsView>::empty());
        r
    }
}

/// The chains after the one at a place got other processors.
pub open spec fn rechained(
    chains: Seq<PartsView>,
    place: int,
    processors: Seq<ChainProcessor>,
) -> Seq<PartsView> {
    chains.update(place, PartsView { processors, ..chains[place] })
}

/// The chains after the mirror of the one at a place was attached or detached.
pub open spec fn tapped(chains: Seq<PartsView>, place: int, attached: bool) -> Seq<PartsView> {
    chains.update(place, PartsView { raw_tap: attached, ..chains[place] })
}

/// A hold on a chain: the processors and the mirror are kept in a
/// [`ChainTable`], at the place that is named here. A clone holds the same
/// chain: it meets the processors and the mirror that were put there before and
/// after it was made.
#[derive(Debug, Clone, Copy, PartialEq, Eq)]
pub struct ProcessorChain {
    pub place: usize,
    /// The rate at which the processors get their frames.
    pub sample_rate: u32,
    /// Decode frames although no processor looks at them.
    pub force_decode: bool,
}

/// What is seen of a chain through a hold on it.
#[verifier::ext_equal]
pub struct ChainView {
    pub processors: Seq<ChainProcessor>,
    pub sample_rate: u32,
    pub force_decode: bool,
    pub raw_tap: bool,
}

/// A list of processors has one of a kind.
pub open spec fn any_kind(processors: Seq<ChainProcessor>, kind: ProcessorKind) -> bool {
    exists|i: int| 0 <= i < processors.len() && (#[trigger] processors[i]).kind_of() == kind
}

/// What the surroundings report to the chain while it works on a frame.
#[derive(Debug, PartialEq, Eq)]
pub enum ChainEvent {
    /// The frame arrived; `is_audio` tells whether the payload type of an RTP
    /// frame is one that the codec decodes.
    Begin { is_audio: bool },
    /// The codec decoded the payload of the frame.
    Decoded { sample_rate: u32, channels: u16, samples: Vec<i16> },
    /// The codec brought the samples to the rate of the chain.
    Resampled { samples: Vec<i16> },
}

/// What the chain asks for next.
#[derive(Debug, PartialEq, Eq)]
pub enum ChainAction {
    /// The frame passes untouched.
    Skip,
    /// Decode the payload of the frame.
    Decode,
    /// Mirror the copy, then resample.
    Resample { tap: Option<AudioFrame>, samples: Vec<i16>, from: u32, to: u32 },
    /// Mirror the copy, then run the processors.
    Run { tap: Option<AudioFrame> },
}

/// What a [`ChainAction`] holds.
#[verifier::ext_equal]
pub enum ChainActionView {
    Skip,
    Decode,
    Resample { tap: Option<FrameView>, samples: Seq<i16>, from: u32, to: u32 },
    Run { tap: Option<FrameView> },
}

/// The view of an optional frame.
pub open spec fn opt_frame(f: Option<AudioFrame>) -> Option<FrameView> {
    match f {
        Some(f) => Some(f@),
        None => None,
    }
}

impl View for ChainAction {
    type V = ChainActionView;

    open spec fn view(&self) -> ChainActionView {
        match *self {
            ChainAction::Skip => ChainActionView::Skip,
            ChainAction::Decode => ChainActionView::Decode,
            ChainAction::Resample { tap, samples, from, to } => ChainActionView::Resample {
                tap: opt_frame(tap),
                samples: samples@,
                from,
                to,
            },
            ChainAction::Run { tap } => ChainActionView::Run { tap: opt_frame(tap) },
        }
    }
}

/// A frame whose payload was decoded; the packet is kept beside the samples.
pub open spec fn decoded_frame(
    frame: FrameView,
    sample_rate: u32,
    channels: u16,
    samples: Seq<i16>,
) -> FrameView {
    FrameView {
        samples: SamplesView::PCM { samples },
        sample_rate,
        channels,
        src_packet: Some(
            SourcePacketView {
                sequence_number: frame.samples->RTP_sequence_number,
                payload_type: frame.samples->RTP_payload_type,
                payload: frame.samples->RTP_payload,
            },
        ),
        ..frame
    }
}

/// A frame whose stereo samples, if it has any, were made mono.
pub open spec fn mono_frame(frame: FrameView) -> FrameView {
    match frame.samples {
        SamplesView::PCM { samples } if frame.channels == 2 => FrameView {
            samples: SamplesView::PCM { samples: mono_of(samples) },
            channels: 1,
            ..frame
        },
        _ => frame,
    }
}

impl ChainView {
    /// Whether nobody looks at the frame.
    pub open spec fn skips(self) -> bool {
        !self.force_decode && self.processors.len() == 0 && !self.raw_tap
    }

    /// The copy of a frame that is mirrored: decoded samples with a known
    /// rate, made mono, without the packet they came from.
    pub open spec fn tap_of(self, frame: FrameView) -> Option<FrameView> {
        if self.raw_tap && frame.sample_rate > 0 && frame.samples is PCM
            && frame.samples->PCM_samples.len() > 0 {
            Some(mono_frame(FrameView { src_packet: None, ..frame }))
        } else {
            None
        }
    }

    /// Whether a frame has to be brought to the rate of the chain.
    pub open spec fn resamples(self, frame: FrameView) -> bool {
        frame.samples is PCM && frame.sample_rate != self.sample_rate
    }

    /// Stereo samples that will be made mono come in pairs.
    pub open spec fn pairs_ok(self, frame: FrameView) -> bool {
        frame.samples is PCM && frame.channels == 2 && (!self.resamples(frame) || (self.raw_tap
            && frame.sample_rate > 0)) ==> frame.samples->PCM_samples.len() % 2 == 0
    }

    /// What the chain asks for once a frame is decoded.
    pub open spec fn decoded_action(self, frame: FrameView) -> ChainActionView {
        if self.resamples(frame) {
            ChainActionView::Resample {
                tap: self.tap_of(frame),
                samples: frame.samples->PCM_samples,
                from: frame.sample_rate,
                to: self.sample_rate,
            }
        } else {
            ChainActionView::Run { tap: self.tap_of(frame) }
        }
    }

    /// A frame that left the decoding stage: its samples are with the
    /// resampler, or it is ready for the processors.
    pub open spec fn decoded_result(self, frame: FrameView) -> FrameView {
        if self.resamples(frame) {
            FrameView { samples: SamplesView::PCM { samples: Seq::empty() }, ..frame }
        } else {
            mono_frame(frame)
        }
    }

    /// What an event needs of the frame.
    pub open spec fn admits(self, frame: FrameView, event: ChainEvent) -> bool {
        match event {
            ChainEvent::Begin { .. } => self.skips() || self.pairs_ok(frame),
            ChainEvent::Decoded { sample_rate, channels, samples } => frame.samples is RTP
                && self.pairs_ok(decoded_frame(frame, sample_rate, channels, samples@)),
            ChainEvent::Resampled { samples } => frame.samples is PCM && (frame.channels == 2
                ==> samples@.len() % 2 == 0),
        }
    }

    /// The frame and the action that an event leads to.
    pub open spec fn stepped(self, frame: FrameView, event: ChainEvent) -> (
        FrameView,
        ChainActionView,
    ) {
        match event {
            ChainEvent::Begin { is_audio } => if self.skips() {
                (frame, ChainActionView::Skip)
            } else if frame.samples is RTP && is_audio {
                (frame, ChainActionView::Decode)
            } else {
                (self.decoded_result(frame), self.decoded_action(frame))
            },
            ChainEvent::Decoded { sample_rate, channels, samples } => {
                let decoded = decoded_frame(frame, sample_rate, channels, samples@);
                (self.decoded_result(decoded), self.decoded_action(decoded))
            },
            ChainEvent::Resampled { samples } => (
                mono_frame(
                    FrameView {
                        samples: SamplesView::PCM { samples: samples@ },
                        sample_rate: self.sample_rate,
                        ..frame
                    },
                ),
                ChainActionView::Run { tap: None },
            ),
        }
    }
}

impl ProcessorChain {
    /// The chain is kept in the table.
    pub open spec fn held(self, chains: Seq<PartsView>) -> bool {
        self.place < chains.len()
    }

    /// What is seen of the chain.
    pub open spec fn seen(self, chains: Seq<PartsView>) -> ChainView {
        ChainView {
            processors: chains[self.place as int].processors,
            sample_rate: self.sample_rate,
            force_decode: self.force_decode,
            raw_tap: chains[self.place as int].raw_tap,
        }
    }

    /// A new chain without processors, at the internal rate.
    pub fn new(chains: &mut ChainTable, _sample_rate: u32) -> (r: Self)
        ensures
            r == (ProcessorChain {
                place: r.place,
                sample_rate: INTERNAL_SAMPLERATE,
                force_decode: true,
            }),
            r.place == old(chains)@.len(),
            final(chains)@ == old(chains)@.push(
                PartsView { processors: Seq::empty(), raw_tap: false },
            ),
    {
        let place: usize = chains.chains.len();
        chains.chains.push(ChainParts { processors: Vec::new(), raw_tap: false });
        assert(chains@ =~= old(chains)@.push(
            PartsView { processors: Seq::empty(), raw_tap: false },
        ));
        ProcessorChain { place, sample_rate: INTERNAL_SAMPLERATE, force_decode: true }
    }

    /// Attaches or detaches the mirror.
    pub fn set_raw_tap(&self, chains: &mut ChainTable, attached: bool)
        requires
            self.held(old(chains)@),
        ensures
            final(chains)@ == tapped(old(chains)@, self.place as int, attached),
    {
        chains.chains[self.place].raw_tap = attached;
        assert(chains@ =~= tapped(old(chains)@, self.place as int, attached));
    }

    /// Puts a processor in front of all others.
    pub fn insert_processor(&self, chains: &mut ChainTable, processor: ChainProcessor)
        requires
            self.held(old(chains)@),
        ensures
            final(chains)@ == rechained(
                old(chains)@,
                self.place as int,
                seq![processor] + self.seen(old(chains)@).processors,
            ),
    {
        chains.chains[self.place].processors.insert(0, processor);
        assert(chains@[self.place as int].processors =~= seq![processor] + self.seen(
            old(chains)@,
        ).processors);
        assert(chains@ =~= rechained(
            old(chains)@,
            self.place as int,
            seq![processor] + self.seen(old(chains)@).processors,
        ));
    }

    /// Puts a processor behind all others.
    pub fn append_processor(&self, chains: &mut ChainTable, processor: ChainProcessor)
        requires
            self.held(old(chains)@),
        ensures
            final(chains)@ == rechained(
                old(chains)@,
                self.place as int,
                self.seen(old(chains)@).processors.push(processor),
            ),
    {
        chains.chains[self.place].processors.push(processor);
        assert(chains@ =~= rechained(
            old(chains)@,
            self.place as int,
            self.seen(old(chains)@).processors.push(processor),
        ));
    }

    /// Whether the chain has a processor of the given type.
    pub fn has_processor(&self, chains: &ChainTable, kind: ProcessorKind) -> (r: bool)
        requires
            self.held(chains@),
        ensures
            r == any_kind(self.seen(chains@).processors, kind),
    {
        let all: &Vec<ChainProcessor> = &chains.chains[self.place].processors;
        assert(all@ == self.seen(chains@).processors);
        let mut i: usize = 0;
        while i < all.len()
            invariant
                0 <= i <= all@.len(),
                all@ == self.seen(chains@).processors,
                forall|j: int| 0 <= j < i ==> (#[trigger] all@[j]).kind_of() != kind,
            decreases all@.len() - i,
        {
            if all[i].kind() == kind {
                return true;
            }
            i = i + 1;
        }
        false
    }

    /// The members that are not of a kind, in their order.
    pub open spec fn without(processors: Seq<ChainProcessor>, kind: ProcessorKind) -> Seq<
        ChainProcessor,
    > {
        processors.filter(|p: ChainProcessor| p.kind_of() != kind)
    }

    /// Takes every processor of the given type out of the chain.
    pub fn remove_processor(&self, chains: &mut ChainTable, kind: ProcessorKind)
        requires
            self.held(old(chains)@),
        ensures
            final(chains)@ == rechained(
                old(chains)@,
                self.place as int,
                Self::without(self.seen(old(chains)@).processors, kind),
            ),
            !any_kind(self.seen(final(chains)@).processors, kind),
    {
        let ghost all = self.seen(chains@).processors;
        let ghost keep = |p: ChainProcessor| p.kind_of() != kind;
        let mut taken: Vec<ChainProcessor> = Vec::new();
        std::mem::swap(&mut taken, &mut chains.chains[self.place].processors);
        let mut kept: Vec<ChainProcessor> = Vec::new();
        let ghost mut done: int = 0;
        assert(all.take(0) =~= Seq::<ChainProcessor>::empty());
        reveal(Seq::filter);
        assert(all.take(0).filter(keep) =~= Seq::<ChainProcessor>::empty());
        while taken.len() > 0
            invariant
                keep == (|p: ChainProcessor| p.kind_of() != kind),
                0 <= done <= all.len(),
                taken@ == all.skip(done),
                kept@ == all.take(done).filter(keep),
            decreases taken@.len(),
        {
            let p: ChainProcessor = taken.remove(0);
            proof {
                reveal(Seq::filter);
                assert(p == all[done]);
                assert(all.take(done + 1).drop_last() =~= all.take(done));
                assert(all.take(done + 1).last() == p);
                assert(taken@ =~= all.skip(done + 1));
            }
            if p.kind() != kind {
                kept.push(p);
            }
            proof {
                done = done + 1;
            }
        }
        assert(all.take(done) =~= all);
        assert forall|i: int| 0 <= i < kept@.len() implies (#[trigger] kept@[i]).kind_of()
            != kind by {
            broadcast use vstd::seq_lib::group_filter_ensures;

            assert(kept@.contains(kept@[i]));
            assert(keep(kept@[i]));
        }
        chains.chains[self.place].processors = kept;
        assert(chains@ =~= rechained(
            old(chains)@,
            self.place as int,
            Self::without(self.seen(old(chains)@).processors, kind),
        ));
    }
}

/// Where a pass over the processors stopped, and what they asked for.
#[derive(Debug, PartialEq, Eq)]
pub struct ChainRun {
    pub effects: Vec<Effect>,
    /// The place and number of the next processor that the surroundings run;
    /// `None` once the end of the chain is reached.
    pub pending: Option<(usize, u64)>,
}

/// The place of the first member at or behind `i` that the surroundings run;
/// the length of the chain where there is none.
pub open spec fn stop_from(processors: Seq<ChainProcessor>, i: int) -> int
    decreases processors.len() - i,
{
    if i >= processors.len() || processors[i] is External {
        i
    } else {
        stop_from(processors, i + 1)
    }
}

/// The frame after the members in `i..j` worked on it.
pub open spec fn frame_through(
    processors: Seq<ChainProcessor>,
    i: int,
    j: int,
    frame: FrameView,
) -> FrameView
    decreases j - i,
{
    if i >= j {
        frame
    } else {
        processors[j - 1].frame_after(frame_through(processors, i, j - 1, frame))
    }
}

/// What the members in `i..j` ask for, in their order.
pub open spec fn effects_through(
    processors: Seq<ChainProcessor>,
    i: int,
    j: int,
    frame: FrameView,
) -> Seq<EffectView>
    decreases j - i,
{
    if i >= j {
        Seq::empty()
    } else {
        effects_through(processors, i, j - 1, frame).push(
            processors[j - 1].effect_on(frame_through(processors, i, j - 1, frame)),
        )
    }
}

/// The views of a sequence of effects.
pub open spec fn effect_views(effects: Seq<Effect>) -> Seq<EffectView> {
    Seq::new(effects.len(), |i: int| effects[i]@)
}

/// A run from place `start` on took a frame from `before` to `after`: it went up
/// to the next member that the surroundings run.
pub open spec fn ran(
    all: Seq<ChainProcessor>,
    start: int,
    before: FrameView,
    after: FrameView,
    run: ChainRun,
) -> bool {
    let stop = stop_from(all, start);
    &&& after == frame_through(all, start, stop, before)
    &&& effect_views(run.effects@) == effects_through(all, start, stop, before)
    &&& start <= stop <= all.len()
    &&& run.pending == if stop < all.len() {
        Some((stop as usize, all[stop]->External_id))
    } else {
        None::<(usize, u64)>
    }
}

proof fn lemma_stop_from(processors: Seq<ChainProcessor>, i: int, j: int)
    requires
        0 <= i <= j <= processors.len(),
        forall|k: int| i <= k < j ==> !(#[trigger] processors[k] is External),
        j == processors.len() || processors[j] is External,
    ensures
        stop_from(processors, i) == j,
    decreases j - i,
{
    if i < j {
        lemma_stop_from(processors, i + 1, j);
    }
}

impl ProcessorChain {
    /// The copy of a frame that is mirrored.
    fn tap_copy(&self, chains: &ChainTable, frame: &AudioFrame) -> (r: Option<AudioFrame>)
        requires
            self.held(chains@),
            self.seen(chains@).raw_tap && frame.sample_rate > 0 && frame@.samples is PCM && frame.channels == 2
                ==> frame@.samples->PCM_samples.len() % 2 == 0,
        ensures
            opt_frame(r) == self.seen(chains@).tap_of(frame@),
    {
        if !chains.chains[self.place].raw_tap || frame.sample_rate == 0 {
            return None;
        }
        match &frame.samples {
            Samples::PCM { samples } => {
                if samples.len() == 0 {
                    return None;
                }
            },
            _ => {
                return None;
            },
        }
        let mut raw: AudioFrame = frame.clone();
        raw.src_packet = None;
        make_mono(&mut raw);
        Some(raw)
    }

    /// Moves a decoded frame on: to the resampler, or to the processors.
    fn leave_decoding(&self, chains: &ChainTable, frame: &mut AudioFrame) -> (r: ChainAction)
        requires
            self.held(chains@),
            self.seen(chains@).pairs_ok(old(frame)@),
        ensures
            final(frame)@ == self.seen(chains@).decoded_result(old(frame)@),
            r@ == self.seen(chains@).decoded_action(old(frame)@),
    {
        let tap: Option<AudioFrame> = self.tap_copy(chains, frame);
        let to_resample: Option<Vec<i16>> = if frame.sample_rate != self.sample_rate {
            take_pcm(frame)
        } else {
            None
        };
        match to_resample {
            Some(samples) => ChainAction::Resample {
                tap,
                samples,
                from: frame.sample_rate,
                to: self.sample_rate,
            },
            None => {
                make_mono(frame);
                ChainAction::Run { tap }
            },
        }
    }

    /// One step of bringing a frame to the processors: takes what the
    /// surroundings report, and says what they do next.
    pub fn process_frame(
        &self,
        chains: &ChainTable,
        frame: &mut AudioFrame,
        event: ChainEvent,
    ) -> (r: ChainAction)
        requires
            self.held(chains@),
            self.seen(chains@).admits(old(frame)@, event),
        ensures
            (final(frame)@, r@) == self.seen(chains@).stepped(old(frame)@, event),
            r@ is Run && final(frame)@.samples is PCM ==> {
                &&& final(frame)@.sample_rate == self.sample_rate
                &&& final(frame)@.channels != 2
            },
    {
        match event {
            ChainEvent::Begin { is_audio } => {
                let parts: &ChainParts = &chains.chains[self.place];
                if !self.force_decode && parts.processors.len() == 0 && !parts.raw_tap {
                    return ChainAction::Skip;
                }
                let is_rtp: bool = match &frame.samples {
                    Samples::RTP { .. } => true,
                    _ => false,
                };
                if is_rtp && is_audio {
                    return ChainAction::Decode;
                }
                self.leave_decoding(chains, frame)
            },
            ChainEvent::Decoded { sample_rate, channels, samples } => {
                let ghost before = frame@;
                let ghost pcm = samples@;
                let mut packet: Samples = Samples::Empty;
                std::mem::swap(&mut frame.samples, &mut packet);
                if let Samples::RTP { payload_type, payload, sequence_number } = packet {
                    frame.src_packet = Some(SourcePacket { sequence_number, payload_type, payload });
                }
                frame.channels = channels;
                frame.samples = Samples::PCM { samples };
                frame.sample_rate = sample_rate;
                assert(frame@ =~= decoded_frame(before, sample_rate, channels, pcm));
                self.leave_decoding(chains, frame)
            },
            ChainEvent::Resampled { samples } => {
                let ghost before = frame@;
                let ghost pcm = samples@;
                frame.samples = Samples::PCM { samples };
                frame.sample_rate = self.sample_rate;
                assert(frame@ =~= (FrameView {
                    samples: SamplesView::PCM { samples: pcm },
                    sample_rate: self.sample_rate,
                    ..before
                }));
                make_mono(frame);
                ChainAction::Run { tap: None }
            },
        }
    }

    /// Runs the processors from place `start` on, up to the next one that the
    /// surroundings run.
    pub fn run_from(&self, chains: &ChainTable, frame: &mut AudioFrame, start: usize) -> (r: Result<
        ChainRun,
        ProcessError,
    >)
        requires
            self.held(chains@),
            start <= self.seen(chains@).processors.len(),
        ensures
            r is Ok,
            ran(
                self.seen(chains@).processors,
                start as int,
                old(frame)@,
                final(frame)@,
                r->Ok_0,
            ),
    {
        let members: &Vec<ChainProcessor> = &chains.chains[self.place].processors;
        let ghost all = members@;
        assert(all == self.seen(chains@).processors);
        let ghost first = frame@;
        let mut effects: Vec<Effect> = Vec::new();
        let mut i: usize = start;
        assert(effect_views(effects@) =~= Seq::<EffectView>::empty());
        while i < members.len()
            invariant
                start <= i <= members@.len(),
                members@ == all,
                all == self.seen(chains@).processors,
                first == old(frame)@,
                frame@ == frame_through(all, start as int, i as int, first),
                effect_views(effects@) == effects_through(all, start as int, i as int, first),
                forall|k: int| start <= k < i ==> !(#[trigger] all[k] is External),
            decreases members@.len() - i,
        {
            let ghost before = effects@;
            let outcome: Result<Effect, ProcessError> = match &members[i] {
                ChainProcessor::Mute(m) => {
                    let mut m: MuteProcessor = *m;
                    m.process_frame(frame)
                },
                ChainProcessor::Recorder(p) => {
                    let mut p: RecorderProcessor = *p;
                    p.process_frame(frame)
                },
                ChainProcessor::Subscribe(s) => Ok(s.publish(frame)),
                ChainProcessor::External { tag: _, id } => {
                    proof {
                        lemma_stop_from(all, start as int, i as int);
                    }
                    return Ok(ChainRun { effects, pending: Some((i, *id)) });
                },
            };
            match outcome {
                Ok(effect) => {
                    effects.push(effect);
                    assert(effect_views(effects@) =~= effect_views(before).push(effect@));
                },
                Err(e) => {
                    return Err(e);
                },
            }
            i = i + 1;
        }
        proof {
            lemma_stop_from(all, start as int, all.len() as int);
        }
        Ok(ChainRun { effects, pending: None })
    }

    /// Goes on with a pass, once the surroundings ran the processor at place
    /// `at`: what it failed with ends the pass, and the processors behind it do
    /// not get the frame.
    pub fn resume(
        &self,
        chains: &ChainTable,
        frame: &mut AudioFrame,
        at: usize,
        outcome: Result<(), ProcessError>,
    ) -> (r: Result<ChainRun, ProcessError>)
        requires
            self.held(chains@),
            at < self.seen(chains@).processors.len(),
            self.seen(chains@).processors[at as int] is External,
        ensures
            match outcome {
                Ok(()) => r is Ok && ran(
                    self.seen(chains@).processors,
                    at + 1,
                    old(frame)@,
                    final(frame)@,
                    r->Ok_0,
                ),
                Err(e) => r == Err::<ChainRun, ProcessError>(e) && *final(frame) == *old(frame),
            },
    {
        assert(at < chains.chains@[self.place as int].processors.len());
        match outcome {
            Ok(()) => self.run_from(chains, frame, at + 1),
            Err(e) => Err(e),
        }
    }
}


/// Whoever holds a chain meets the same processors and the same mirror.
pub proof fn law_clones_share(a: ProcessorChain, b: ProcessorChain, chains: Seq<PartsView>)
    requires
        a.place == b.place,
    ensures
        a.seen(chains).processors == b.seen(chains).processors,
        a.seen(chains).raw_tap == b.seen(chains).raw_tap,
{
}

/// A mirror that is attached through one hold on a chain gets the decoded frames
/// that come through every other, also through those that were taken before; one
/// that is detached gets none of them. Other chains keep their mirrors.
pub proof fn law_tap_is_shared(
    chain: ProcessorChain,
    clone: ProcessorChain,
    other: ProcessorChain,
    chains: Seq<PartsView>,
    frame: FrameView,
)
    requires
        chain.held(chains),
        clone.place == chain.place,
        other.place != chain.place,
        other.held(chains),
        frame.samples is PCM,
        frame.sample_rate > 0,
        frame.samples->PCM_samples.len() > 0,
    ensures
        ({
            let on = clone.seen(tapped(chains, chain.place as int, true));
            let off = clone.seen(tapped(chains, chain.place as int, false));
            let mirrored = Some(mono_frame(FrameView { src_packet: None, ..frame }));
            &&& !on.skips()
            &&& forall|is_audio: bool|
                mirror_of((#[trigger] on.stepped(frame, ChainEvent::Begin { is_audio })).1)
                    == mirrored
            &&& forall|is_audio: bool|
                mirror_of((#[trigger] off.stepped(frame, ChainEvent::Begin { is_audio })).1)
                    is None
        }),
        forall|attached: bool|
            other.seen(#[trigger] tapped(chains, chain.place as int, attached)) == other.seen(
                chains,
            ),
{
}

/// The frame that an action hands to the mirror.
pub open spec fn mirror_of(action: ChainActionView) -> Option<FrameView> {
    match action {
        ChainActionView::Resample { tap, .. } => tap,
        ChainActionView::Run { tap } => tap,
        _ => None,
    }
}

/// What came of a pass over the processors: the frame, the places of the
/// processors that got it, what the library's own asked for, and the words with
/// which one of the surroundings failed.
#[verifier::ext_equal]
pub struct PassView {
    pub frame: FrameView,
    pub called: Seq<int>,
    pub effects: Seq<EffectView>,
    pub error: Option<Seq<char>>,
}

/// The places from `i` up to `j`.
pub open spec fn places(i: int, j: int) -> Seq<int> {
    Seq::new(
        if i < j {
            (j - i) as nat
        } else {
            0
        },
        |k: int| i + k,
    )
}

/// A pass from place `i` on. `outside` tells, of a place and a frame, what the
/// processor of the surroundings there makes of the frame, and the words with
/// which it fails, if it does.
pub open spec fn pass(
    all: Seq<ChainProcessor>,
    i: int,
    frame: FrameView,
    outside: spec_fn(int, FrameView) -> (FrameView, Option<Seq<char>>),
) -> PassView
    decreases all.len() - i,
{
    if i >= all.len() {
        PassView { frame, called: Seq::empty(), effects: Seq::empty(), error: None }
    } else if all[i] is External {
        let (after, error) = outside(i, frame);
        if error is Some {
            PassView { frame: after, called: seq![i], effects: Seq::empty(), error }
        } else {
            let rest = pass(all, i + 1, after, outside);
            PassView { called: seq![i] + rest.called, ..rest }
        }
    } else {
        let rest = pass(all, i + 1, all[i].frame_after(frame), outside);
        PassView {
            called: seq![i] + rest.called,
            effects: seq![all[i].effect_on(frame)] + rest.effects,
            ..rest
        }
    }
}

/// A pass from place `i` on, in runs: first the library's own processors up to
/// place `stop`, then that of the surroundings there, then the pass behind it.
pub open spec fn pass_in_runs(
    all: Seq<ChainProcessor>,
    i: int,
    frame: FrameView,
    outside: spec_fn(int, FrameView) -> (FrameView, Option<Seq<char>>),
) -> PassView {
    let stop = stop_from(all, i);
    let reached = frame_through(all, i, stop, frame);
    let effects = effects_through(all, i, stop, frame);
    if stop >= all.len() {
        PassView { frame: reached, called: places(i, stop), effects, error: None }
    } else {
        let (after, error) = outside(stop, reached);
        if error is Some {
            PassView { frame: after, called: places(i, stop + 1), effects, error }
        } else {
            let rest = pass(all, stop + 1, after, outside);
            PassView {
                frame: rest.frame,
                called: places(i, stop + 1) + rest.called,
                effects: effects + rest.effects,
                error: rest.error,
            }
        }
    }
}

proof fn lemma_through_from_left(all: Seq<ChainProcessor>, i: int, j: int, frame: FrameView)
    requires
        i < j,
    ensures
        frame_through(all, i, j, frame) == frame_through(all, i + 1, j, all[i].frame_after(frame)),
        effects_through(all, i, j, frame) == seq![all[i].effect_on(frame)] + effects_through(
            all,
            i + 1,
            j,
            all[i].frame_after(frame),
        ),
    decreases j - i,
{
    if j - 1 > i {
        lemma_through_from_left(all, i, j - 1, frame);
    } else {
        assert(frame_through(all, i, i, frame) == frame);
        assert(effects_through(all, i, i, frame) =~= Seq::<EffectView>::empty());
    }
    assert(effects_through(all, i, j, frame) =~= seq![all[i].effect_on(frame)] + effects_through(
        all,
        i + 1,
        j,
        all[i].frame_after(frame),
    ));
}

/// A pass goes in runs: what [`ProcessorChain::run_from`] does up to a processor
/// of the surroundings, that processor, and what [`ProcessorChain::resume`] does
/// from there on.
pub proof fn law_pass_goes_in_runs(
    all: Seq<ChainProcessor>,
    i: int,
    frame: FrameView,
    outside: spec_fn(int, FrameView) -> (FrameView, Option<Seq<char>>),
)
    requires
        0 <= i <= all.len(),
    ensures
        pass(all, i, frame, outside) == pass_in_runs(all, i, frame, outside),
    decreases all.len() - i,
{
    if i < all.len() && !(all[i] is External) {
        let stop = stop_from(all, i);
        let next = all[i].frame_after(frame);
        lemma_stop_is_behind(all, i + 1);
        law_pass_goes_in_runs(all, i + 1, next, outside);
        lemma_through_from_left(all, i, stop, frame);
        assert(places(i, stop) =~= seq![i] + places(i + 1, stop));
        assert(places(i, stop + 1) =~= seq![i] + places(i + 1, stop + 1));
    } else if i < all.len() {
        assert(places(i, i + 1) =~= seq![i]);
    } else {
        assert(places(i, i) =~= Seq::<int>::empty());
    }
    assert(pass(all, i, frame, outside) =~= pass_in_runs(all, i, frame, outside));
}

proof fn lemma_stop_is_behind(all: Seq<ChainProcessor>, i: int)
    requires
        i <= all.len(),
    ensures
        i <= stop_from(all, i) <= all.len(),
    decreases all.len() - i,
{
    if i < all.len() && !(all[i] is External) {
        lemma_stop_is_behind(all, i + 1);
    }
}

/// The frame that the processor at place `k` gets, where those before it all
/// succeeded.
pub open spec fn frame_at(
    all: Seq<ChainProcessor>,
    k: int,
    frame: FrameView,
    outside: spec_fn(int, FrameView) -> (FrameView, Option<Seq<char>>),
) -> FrameView
    decreases k,
{
    if k <= 0 {
        frame
    } else {
        let before = frame_at(all, k - 1, frame, outside);
        if all[k - 1] is External {
            outside(k - 1, before).0
        } else {
            all[k - 1].frame_after(before)
        }
    }
}

/// The processor at place `k` fails on the frame that it gets.
pub open spec fn fails_at(
    all: Seq<ChainProcessor>,
    k: int,
    frame: FrameView,
    outside: spec_fn(int, FrameView) -> (FrameView, Option<Seq<char>>),
) -> bool {
    all[k] is External && outside(k, frame_at(all, k, frame, outside)).1 is Some
}

proof fn lemma_pass_up_to(
    all: Seq<ChainProcessor>,
    i: int,
    k: int,
    frame: FrameView,
    outside: spec_fn(int, FrameView) -> (FrameView, Option<Seq<char>>),
)
    requires
        0 <= i <= k <= all.len(),
        forall|j: int| i <= j < k ==> !#[trigger] fails_at(all, j, frame, outside),
        k < all.len() ==> fails_at(all, k, frame, outside),
    ensures
        ({
            let p = pass(all, i, frame_at(all, i, frame, outside), outside);
            if k < all.len() {
                &&& p.error == outside(k, frame_at(all, k, frame, outside)).1
                &&& p.called == places(i, k + 1)
                &&& p.frame == frame_at(all, k + 1, frame, outside)
            } else {
                &&& p.error is None
                &&& p.called == places(i, k)
                &&& p.frame == frame_at(all, k, frame, outside)
            }
        }),
    decreases k - i,
{
    let f = frame_at(all, i, frame, outside);
    let p = pass(all, i, f, outside);
    if i < k {
        assert(!fails_at(all, i, frame, outside));
        lemma_pass_up_to(all, i + 1, k, frame, outside);
        assert(places(i, k) =~= seq![i] + places(i + 1, k));
        assert(places(i, k + 1) =~= seq![i] + places(i + 1, k + 1));
    } else if i < all.len() {
        assert(places(i, i + 1) =~= seq![i]);
    } else {
        assert(places(i, i) =~= Seq::<int>::empty());
    }
}

/// In a pass the processors get the frame one after the other, each once. The
/// first that fails, at place `k`, ends the pass with its words: those behind it
/// do not get the frame. Where none fails (`k` is the end of the chain), all get
/// it and the pass succeeds.
pub proof fn law_first_error_ends_pass(
    all: Seq<ChainProcessor>,
    k: int,
    frame: FrameView,
    outside: spec_fn(int, FrameView) -> (FrameView, Option<Seq<char>>),
)
    requires
        0 <= k <= all.len(),
        forall|j: int| 0 <= j < k ==> !#[trigger] fails_at(all, j, frame, outside),
        k < all.len() ==> fails_at(all, k, frame, outside),
    ensures
        ({
            let p = pass(all, 0, frame, outside);
            if k < all.len() {
                &&& p.error == outside(k, frame_at(all, k, frame, outside)).1
                &&& p.called == places(0, k + 1)
                &&& p.frame == frame_at(all, k + 1, frame, outside)
            } else {
                &&& p.error is None
                &&& p.called == places(0, k)
                &&& p.frame == frame_at(all, k, frame, outside)
            }
        }),
{
    lemma_pass_up_to(all, 0, k, frame, outside);
}

/// Makes the stereo samples of a frame mono.
fn make_mono(frame: &mut AudioFrame)
    requires
        old(frame)@.samples is PCM && old(frame).channels == 2 ==> old(
            frame,
        )@.samples->PCM_samples.len() % 2 == 0,
    ensures
        final(frame)@ == mono_frame(old(frame)@),
{
    if frame.channels != 2 {
        return;
    }
    match take_pcm(frame) {
        Some(mut samples) => {
            convert_to_mono(&mut samples, 2);
            frame.samples = Samples::PCM { samples };
            frame.channels = 1;
        },
        None => {},
    }
    assert(frame@ =~= mono_frame(old(frame)@));
}

/// Takes the decoded samples out of a frame and leaves none behind.
fn take_pcm(frame: &mut AudioFrame) -> (r: Option<Vec<i16>>)
    ensures
        r is Some <==> old(frame)@.samples is PCM,
        r matches Some(v) ==> v@ == old(frame)@.samples->PCM_samples && final(frame)@ == (
        FrameView { samples: SamplesView::PCM { samples: Seq::empty() }, ..old(frame)@ }),
        r is None ==> *final(frame) == *old(frame),
{
    let mut taken: Samples = Samples::Empty;
    std::mem::swap(&mut frame.samples, &mut taken);
    match taken {
        Samples::PCM { samples } => {
            frame.samples = Samples::PCM { samples: Vec::new() };
            assert(frame@ =~= (FrameView {
                samples: SamplesView::PCM { samples: Seq::empty() },
                ..old(frame)@
            }));
            Some(samples)
        },
        other => {
            frame.samples = other;
            None
        },
    }
}

/// A mono sample is the mean of its pair: twice the sample is their sum, but for
/// one that is lost towards zero. There are half as many samples as before.
pub proof fn law_mono_is_the_mean(samples: Seq<i16>, i: int)
    requires
        0 <= i < samples.len() / 2,
    ensures
        mono_of(samples).len() == samples.len() / 2,
        ({
            let sum = samples[2 * i] + samples[2 * i + 1];
            let twice = 2 * mono_of(samples)[i];
            &&& sum >= 0 ==> sum - 1 <= twice <= sum && twice >= 0
            &&& sum <= 0 ==> sum <= twice <= sum + 1 && twice <= 0
        }),
{
}

/// Stereo samples are made mono and their frame says so; frames of any other
/// number of channels, and those without samples, stay as they are.
pub proof fn law_only_stereo_is_made_mono(frame: FrameView)
    ensures
        frame.channels == 2 && frame.samples is PCM ==> {
            &&& mono_frame(frame).channels == 1
            &&& mono_frame(frame) == (FrameView {
                samples: SamplesView::PCM { samples: mono_of(frame.samples->PCM_samples) },
                channels: 1,
                ..frame
            })
        },
        frame.channels != 2 || frame.samples !is PCM ==> mono_frame(frame) == frame,
{
}

/// From its bytes a sample can be read again: the first of its two bytes is the
/// low one, and a negative sample stands for the number 65536 above it.
pub proof fn law_bytes_give_samples_back(samples: Seq<i16>, i: int)
    requires
        0 <= i < samples.len(),
    ensures
        le_bytes(samples).len() == 2 * samples.len(),
        le_bytes(samples)[2 * i] + 256 * le_bytes(samples)[2 * i + 1] == if samples[i] >= 0 {
            samples[i] as int
        } else {
            samples[i] + 65536
        },
{
    let bytes = le_bytes(samples);
    assert((2 * i) / 2 == i && (2 * i) % 2 == 0);
    assert((2 * i + 1) / 2 == i && (2 * i + 1) % 2 == 1);
    let bits = sample_bits(samples[i]);
    assert(bytes[2 * i] == bits % 256);
    assert(bytes[2 * i + 1] == bits / 256);
}

/// Subscribers get every decoded sample of a frame, as bytes behind the number of
/// the track, under the name of the processor's track and at the time of the
/// frame. Where nothing is decoded, they get nothing.
pub proof fn law_subscribers_get_all_samples(p: SubscribeProcessor, frame: FrameView)
    ensures
        frame.samples matches SamplesView::PCM { samples } ==> (samples.len() > 0 ==> {
            &&& p.effect_on(frame) matches EffectView::Binary { track_id, timestamp, data }
            &&& track_id == p.track_id@ && timestamp == frame.timestamp
            &&& data.len() == 1 + 2 * samples.len()
            &&& data[0] == p.track_index
            &&& data.skip(1) == le_bytes(samples)
        }),
        frame.samples matches SamplesView::PCM { samples } && samples.len() == 0 ==> p.effect_on(
            frame,
        ) is Silent,
        frame.samples !is PCM ==> p.effect_on(frame) is Silent,
{
    if let SamplesView::PCM { samples } = frame.samples {
        assert((seq![p.track_index] + le_bytes(samples)).skip(1) =~= le_bytes(samples));
    }
}

/// Of the members of a chain only a silencer changes a frame; a recorder asks for
/// the frame as it came, a subscriber for its samples, the others for nothing.
pub proof fn law_members_do_their_work(member: ChainProcessor, frame: FrameView)
    ensures
        member !is Mute ==> member.frame_after(frame) == frame,
        member is Mute ==> member.frame_after(frame) == MuteProcessor::muted(frame),
        member is Recorder ==> member.effect_on(frame) == (EffectView::Record { frame }),
        member matches ChainProcessor::Subscribe(s) ==> member.effect_on(frame) == s.effect_on(
            frame,
        ),
        member is Mute || member is External ==> member.effect_on(frame) is Silent,
{
}

/// Members are of one type where they do the same work; those that the
/// surroundings run, where they have the same tag.
pub proof fn law_types_tell_members_apart(a: ChainProcessor, b: ChainProcessor)
    ensures
        a.kind_of() == b.kind_of() <==> {
            ||| a is Mute && b is Mute
            ||| a is Recorder && b is Recorder
            ||| a is Subscribe && b is Subscribe
            ||| a is External && b is External && a->External_tag == b->External_tag
        },
{
}

/// A frame passes untouched only where nobody looks at it: no processor, no
/// mirror, and no wish to have it decoded. Else a packet with audio is decoded,
/// and is not touched before.
pub proof fn law_frames_pass_only_unseen(chain: ChainView, frame: FrameView, is_audio: bool)
    ensures
        ({
            let (after, action) = chain.stepped(frame, ChainEvent::Begin { is_audio });
            &&& action is Skip <==> chain.processors.len() == 0 && !chain.raw_tap
                && !chain.force_decode
            &&& action is Skip ==> after == frame
            &&& action is Decode <==> action !is Skip && is_audio && frame.samples is RTP
            &&& action is Decode ==> after == frame
        }),
{
}

/// Samples at another rate than the chain's go to the resampler, all of them and
/// with both rates; at the chain's rate they go on to the processors, made mono
/// where they are stereo. A packet that carries no audio goes on as it is.
pub proof fn law_samples_reach_the_rate_of_the_chain(
    chain: ChainView,
    frame: FrameView,
    is_audio: bool,
)
    requires
        !chain.skips(),
        frame.samples is RTP ==> !is_audio,
    ensures
        ({
            let (after, action) = chain.stepped(frame, ChainEvent::Begin { is_audio });
            &&& frame.samples matches SamplesView::PCM { samples } ==> {
                &&& frame.sample_rate != chain.sample_rate ==> (action
                    matches ChainActionView::Resample { tap: _, samples: all, from, to } && all
                    == samples && from == frame.sample_rate && to == chain.sample_rate)
                &&& frame.sample_rate == chain.sample_rate ==> action is Run
                &&& frame.sample_rate == chain.sample_rate && frame.channels != 2 ==> after == frame
                &&& frame.sample_rate == chain.sample_rate && frame.channels == 2 ==> after
                    == (FrameView {
                    samples: SamplesView::PCM { samples: mono_of(samples) },
                    channels: 1,
                    ..frame
                })
            }
            &&& frame.samples !is PCM ==> action is Run && after == frame
        }),
{
}

/// A frame that was decoded has the samples that the codec gave, and keeps the
/// packet that they came from beside them; it then goes the way of a frame that
/// came with those samples.
pub proof fn law_decoding_keeps_the_packet(
    chain: ChainView,
    frame: FrameView,
    sample_rate: u32,
    channels: u16,
    samples: Vec<i16>,
)
    requires
        frame.samples is RTP,
        !chain.skips(),
    ensures
        ({
            let decoded = FrameView {
                samples: SamplesView::PCM { samples: samples@ },
                sample_rate,
                channels,
                src_packet: Some(
                    SourcePacketView {
                        sequence_number: frame.samples->RTP_sequence_number,
                        payload_type: frame.samples->RTP_payload_type,
                        payload: frame.samples->RTP_payload,
                    },
                ),
                ..frame
            };
            chain.stepped(frame, ChainEvent::Decoded { sample_rate, channels, samples })
                == chain.stepped(decoded, ChainEvent::Begin { is_audio: false })
        }),
{
}

/// What comes back from the resampler goes to the processors at the rate of the
/// chain, made mono where it is stereo, and is not mirrored again.
pub proof fn law_resampled_frames_run(chain: ChainView, frame: FrameView, samples: Vec<i16>)
    ensures
        ({
            let (after, action) = chain.stepped(frame, ChainEvent::Resampled { samples });
            &&& action == (ChainActionView::Run { tap: None })
            &&& after.sample_rate == chain.sample_rate
            &&& frame.channels != 2 ==> after.samples == (SamplesView::PCM { samples: samples@ })
                && after.channels == frame.channels
            &&& frame.channels == 2 ==> after.samples == (SamplesView::PCM {
                samples: mono_of(samples@),
            }) && after.channels == 1
            &&& after.track_id == frame.track_id && after.timestamp == frame.timestamp
            &&& after.src_packet == frame.src_packet
        }),
{
}

/// A mirror gets a frame once it is decoded, at the rate at which it came, mono,
/// and without its packet; it gets no frame without samples or without a rate.
pub proof fn law_mirror_gets_decoded_frames(chain: ChainView, frame: FrameView)
    ensures
        chain.tap_of(frame) is Some <==> chain.raw_tap && frame.sample_rate != 0 && (frame.samples
            matches SamplesView::PCM { samples } && samples.len() != 0),
        chain.tap_of(frame) matches Some(copy) ==> {
            &&& copy.sample_rate == frame.sample_rate && copy.src_packet is None
            &&& copy.track_id == frame.track_id && copy.timestamp == frame.timestamp
            &&& frame.channels != 2 ==> copy.samples == frame.samples && copy.channels
                == frame.channels
            &&& frame.channels == 2 ==> copy.channels == 1 && copy.samples == (SamplesView::PCM {
                samples: mono_of(frame.samples->PCM_samples),
            })
        },
        chain.decoded_action(frame) matches ChainActionView::Run { tap } ==> tap == chain.tap_of(
            frame,
        ),
        chain.decoded_action(frame) matches ChainActionView::Resample { tap, .. } ==> tap
            == chain.tap_of(frame),
{
}

/// Each member gets the frame as the one before it left it, and asks for what it
/// asks for once.
pub proof fn law_each_member_gets_what_the_last_left(
    all: Seq<ChainProcessor>,
    i: int,
    j: int,
    k: int,
    frame: FrameView,
)
    requires
        i <= k < j,
    ensures
        frame_through(all, i, i, frame) == frame,
        frame_through(all, i, k + 1, frame) == all[k].frame_after(frame_through(all, i, k, frame)),
        effects_through(all, i, j, frame).len() == j - i,
        effects_through(all, i, j, frame)[k - i] == all[k].effect_on(
            frame_through(all, i, k, frame),
        ),
    decreases j - i,
{
    if j - 1 > i {
        if k < j - 1 {
            law_each_member_gets_what_the_last_left(all, i, j - 1, k, frame);
        } else {
            law_each_member_gets_what_the_last_left(all, i, j - 1, i, frame);
        }
    } else {
        assert(effects_through(all, i, j - 1, frame) =~= Seq::empty());
    }
}

/// A run goes on up to the next member that the surroundings run, over no such
/// member and not past the end, and says which one is next.
pub proof fn law_run_stops_at_the_surroundings(
    all: Seq<ChainProcessor>,
    start: int,
    before: FrameView,
    after: FrameView,
    run: ChainRun,
    k: int,
)
    requires
        0 <= start <= all.len() <= usize::MAX,
        ran(all, start, before, after, run),
    ensures
        run.pending matches Some((at, id)) ==> {
            &&& start <= at < all.len()
            &&& all[at as int] matches ChainProcessor::External { tag: _, id: own }
            &&& own == id
            &&& start <= k < at ==> all[k] !is External
            &&& run.effects@.len() == at - start
            &&& after == frame_through(all, start, at as int, before)
        },
        run.pending is None ==> {
            &&& start <= k < all.len() ==> all[k] !is External
            &&& run.effects@.len() == all.len() - start
            &&& after == frame_through(all, start, all.len() as int, before)
        },
{
    let stop = stop_from(all, start);
    lemma_nothing_before_stop(all, start, k);
    lemma_stop_is_behind(all, start);
    if start < stop {
        law_each_member_gets_what_the_last_left(all, start, stop, start, before);
    } else {
        assert(effects_through(all, start, stop, before) =~= Seq::empty());
    }
    assert(effect_views(run.effects@).len() == run.effects@.len());
}

proof fn lemma_nothing_before_stop(all: Seq<ChainProcessor>, i: int, k: int)
    requires
        0 <= i <= all.len(),
    ensures
        i <= stop_from(all, i) <= all.len(),
        i <= k < stop_from(all, i) ==> all[k] !is External,
        stop_from(all, i) < all.len() ==> all[stop_from(all, i)] is External,
    decreases all.len() - i,
{
    if i < all.len() && all[i] !is External {
        lemma_nothing_before_stop(all, i + 1, k);
    }
}

/// Taking out the members of a type leaves the others, each in its order.
pub proof fn law_removal_leaves_other_types(
    processors: Seq<ChainProcessor>,
    last: ChainProcessor,
    kind: ProcessorKind,
)
    ensures
        ProcessorChain::without(Seq::empty(), kind) == Seq::<ChainProcessor>::empty(),
        ProcessorChain::without(processors.push(last), kind) == if last.kind_of() == kind {
            ProcessorChain::without(processors, kind)
        } else {
            ProcessorChain::without(processors, kind).push(last)
        },
{
    reveal(Seq::filter);
    assert(processors.push(last).drop_last() =~= processors);
}

/// A change of one chain of a stream leaves the others as they are, and a change
/// of its processors leaves its mirror, as one of its mirror leaves its
/// processors.
pub proof fn law_chains_are_apart(
    chains: Seq<PartsView>,
    place: int,
    processors: Seq<ChainProcessor>,
    attached: bool,
    other: int,
)
    requires
        0 <= place < chains.len(),
        0 <= other < chains.len(),
    ensures
        rechained(chains, place, processors).len() == chains.len(),
        tapped(chains, place, attached).len() == chains.len(),
        rechained(chains, place, processors)[place].processors == processors,
        rechained(chains, place, processors)[place].raw_tap == chains[place].raw_tap,
        tapped(chains, place, attached)[place].raw_tap == attached,
        tapped(chains, place, attached)[place].processors == chains[place].processors,
        other != place ==> rechained(chains, place, processors)[other] == chains[other],
        other != place ==> tapped(chains, place, attached)[other] == chains[other],
{
}

/// What is seen of an [`Effect`] is all that it holds, and nothing else.
pub proof fn law_view_of_effect(it: Effect)
    ensures
        it is Silent ==> it@ == EffectView::Silent,
        it matches Effect::Record { frame } ==> it@ == (EffectView::Record { frame: frame@ }),
        it matches Effect::Binary { track_id, timestamp, data } ==> it@ == (EffectView::Binary {
            track_id: track_id@,
            timestamp,
            data: data@,
        }),
{
}

/// What is seen of a [`ChainAction`] is all that it holds, and nothing else.
pub proof fn law_view_of_chain_action(it: ChainAction)
    ensures
        it is Skip ==> it@ == ChainActionView::Skip,
        it is Decode ==> it@ == ChainActionView::Decode,
        it matches ChainAction::Resample { tap, samples, from, to } ==> it@ == (
        ChainActionView::Resample {
            tap: opt_frame(tap),
            samples: samples@,
            from,
            to,
        }),
        it matches ChainAction::Run { tap } ==> it@ == (ChainActionView::Run {
            tap: opt_frame(tap),
        }),
{
}

/// Effects are seen one by one in their order, and so are the chains of a table.
pub proof fn law_view_of_lists(effects: Seq<Effect>, table: ChainTable, i: int, j: int)
    requires
        0 <= i < effects.len(),
        0 <= j < table.chains@.len(),
    ensures
        effect_views(effects).len() == effects.len(),
        effect_views(effects)[i] == effects[i]@,
        table@.len() == table.chains@.len(),
        table@[j].processors == table.chains@[j].processors@,
        table@[j].raw_tap == table.chains@[j].raw_tap,
{
}

/// Only stereo samples have to come in pairs: whatever is reported of a mono frame
/// is taken in, and so is every frame that is not looked at.
pub proof fn law_mono_frames_are_admitted(chain: ChainView, frame: FrameView, is_audio: bool)
    ensures
        frame.channels != 2 ==> chain.admits(frame, ChainEvent::Begin { is_audio }),
        frame.samples !is PCM ==> chain.admits(frame, ChainEvent::Begin { is_audio }),
        frame.samples matches SamplesView::PCM { samples } ==> (samples.len() % 2 == 0
            ==> chain.admits(frame, ChainEvent::Begin { is_audio })),
        chain.skips() ==> chain.admits(frame, ChainEvent::Begin { is_audio }),
{
}

/// A chain has a processor of a type where one of its members is of that type, at
/// whatever place it stands, and only there.
pub proof fn law_members_are_found(
    before: Seq<ChainProcessor>,
    member: ChainProcessor,
    behind: Seq<ChainProcessor>,
    kind: ProcessorKind,
)
    ensures
        any_kind(before + seq![member] + behind, member.kind_of()),
        !any_kind(Seq::empty(), kind),
        any_kind(before.push(member), kind) <==> any_kind(before, kind) || member.kind_of() == kind,
{
    let all = before + seq![member] + behind;
    assert(all[before.len() as int] == member);
    let more = before.push(member);
    if any_kind(before, kind) {
        let i = choose|i: int| 0 <= i < before.len() && (#[trigger] before[i]).kind_of() == kind;
        assert(more[i] == before[i]);
    }
    assert(more[before.len() as int] == member);
    if any_kind(more, kind) && member.kind_of() != kind {
        let i = choose|i: int| 0 <= i < more.len() && (#[trigger] more[i]).kind_of() == kind;
        assert(before[i] == more[i]);
    }
}

}
