//! A track that blends several sources into one stream of samples.
use crate::clock::TimeSpan;
use crate::media::processor::{ChainTable, PartsView, ProcessorChain};
use crate::media::stream::is_dtmf;
use crate::media::{AudioFrame, FrameView, Samples, SamplesView, INTERNAL_SAMPLERATE};
use crate::text;
use vstd::prelude::*;

verus! {

/// The settings of a track.
#[derive(Debug, Clone, Copy, PartialEq, Eq, Structural)]
pub struct TrackConfig {
    pub ptime: TimeSpan,
    pub samplerate: u32,
    pub channels: u16,
}

/// Blends the audio of several sources, and forwards the audio of one session
/// to several listeners.
#[derive(Debug, PartialEq, Eq)]
pub struct MixingForwardingTrack {
    pub track_id: String,
    /// Name of the track whose packets are forwarded.
    pub source_session_id: String,
    /// How many sources are blended; `None` once the track was started.
    pub inputs: Option<usize>,
    pub processor_chain: ProcessorChain,
    pub config: TrackConfig,
    pub cancelled: bool,
    pub ssrc: u32,
    pub paused: bool,
}

/// What is left to do before a frame can be blended.
#[derive(Debug, PartialEq, Eq)]
pub enum PcmStep {
    /// The samples to blend.
    Ready { samples: Vec<i16> },
    /// Bring the samples to another rate; what comes out is blended.
    Resample { samples: Vec<i16>, from: u32, to: u32 },
    /// Decode the payload at a rate; see [`decoded_pcm`] for what comes next.
    Decode { payload_type: u8, payload: Vec<u8>, sample_rate: u32 },
}

/// What a [`PcmStep`] holds.
#[verifier::ext_equal]
pub enum PcmStepView {
    Ready { samples: Seq<i16> },
    Resample { samples: Seq<i16>, from: u32, to: u32 },
    Decode { payload_type: u8, payload: Seq<u8>, sample_rate: u32 },
}

impl View for PcmStep {
    type V = PcmStepView;

    open spec fn view(&self) -> PcmStepView {
        match *self {
            PcmStep::Ready { samples } => PcmStepView::Ready { samples: samples@ },
            PcmStep::Resample { samples, from, to } => PcmStepView::Resample {
                samples: samples@,
                from,
                to,
            },
            PcmStep::Decode { payload_type, payload, sample_rate } => PcmStepView::Decode {
                payload_type,
                payload: payload@,
                sample_rate,
            },
        }
    }
}

/// What happened to a packet at one listener.
#[derive(Debug, Clone, Copy, PartialEq, Eq, Structural)]
pub enum SendOutcome {
    Sent,
    /// The listener is behind; the packet is dropped for it.
    Full,
    /// The listener is gone.
    Closed,
}

/// Why a track could not be started.
#[derive(Debug, Clone, Copy, PartialEq, Eq, Structural)]
pub enum StartError {
    /// The track was started before.
    AlreadyStarted,
}

impl StartError {
    /// The error in words.
    pub fn message(&self) -> (r: String)
        ensures
            r@ == "mixing forwarding track already started"@,
    {
        "mixing forwarding track already started".to_string()
    }
}

/// How a started track is run.
#[derive(Debug, Clone, Copy, PartialEq, Eq, Structural)]
pub struct MixPlan {
    /// How many sources are read.
    pub inputs: usize,
    /// How many samples leave per tick.
    pub ptime_samples: usize,
}

/// Samples of one channel out of those of one or two.
pub open spec fn mono_from(samples: Seq<i16>, channels: u16) -> Seq<i16> {
    if channels == 2 {
        crate::media::processor::mono_of(samples)
    } else {
        samples
    }
}

/// What is left to do with a frame before it can be blended.
pub open spec fn pcm_step(frame: FrameView, is_audio: bool) -> PcmStepView {
    match frame.samples {
        SamplesView::PCM { samples } => if frame.sample_rate != INTERNAL_SAMPLERATE {
            PcmStepView::Resample { samples, from: frame.sample_rate, to: INTERNAL_SAMPLERATE }
        } else {
            PcmStepView::Ready { samples: mono_from(samples, frame.channels) }
        },
        SamplesView::RTP { payload_type, payload, .. } => if is_audio {
            PcmStepView::Decode { payload_type, payload, sample_rate: INTERNAL_SAMPLERATE }
        } else {
            PcmStepView::Ready { samples: Seq::empty() }
        },
        SamplesView::Empty => PcmStepView::Ready { samples: Seq::empty() },
    }
}

/// Takes a frame apart for blending; `is_audio` tells whether the codec decodes
/// the payload type of an RTP frame.
pub fn decode_to_pcm(frame: AudioFrame, is_audio: bool) -> (r: PcmStep)
    requires
        frame@.samples is PCM && frame.sample_rate == INTERNAL_SAMPLERATE && frame.channels == 2
            ==> frame@.samples->PCM_samples.len() % 2 == 0,
    ensures
        r@ == pcm_step(frame@, is_audio),
{
    match frame.samples {
        Samples::PCM { samples } => {
            if frame.sample_rate != INTERNAL_SAMPLERATE {
                PcmStep::Resample { samples, from: frame.sample_rate, to: INTERNAL_SAMPLERATE }
            } else {
                PcmStep::Ready { samples: decoded_pcm(frame.channels, samples) }
            }
        },
        Samples::RTP { payload_type, payload, .. } => {
            if is_audio {
                PcmStep::Decode { payload_type, payload, sample_rate: INTERNAL_SAMPLERATE }
            } else {
                PcmStep::Ready { samples: Vec::new() }
            }
        },
        Samples::Empty => PcmStep::Ready { samples: Vec::new() },
    }
}

/// The samples to blend out of what the codec decoded.
pub fn decoded_pcm(channels: u16, samples: Vec<i16>) -> (r: Vec<i16>)
    requires
        channels == 2 ==> samples@.len() % 2 == 0,
    ensures
        r@ == mono_from(samples@, channels),
{
    let mut samples: Vec<i16> = samples;
    if channels == 2 {
        crate::media::processor::convert_to_mono(&mut samples, 2);
    }
    samples
}

/// The samples that the sources hold.
pub open spec fn buffer_views(buffers: Seq<Vec<i16>>) -> Seq<Seq<i16>> {
    Seq::new(buffers.len(), |i: int| buffers[i]@)
}

/// A sample of a source, which is silent behind its end.
pub open spec fn sample_at(buffer: Seq<i16>, i: int) -> int {
    if 0 <= i < buffer.len() {
        buffer[i] as int
    } else {
        0
    }
}

/// The sum of the sources at one place.
pub open spec fn sum_at(buffers: Seq<Seq<i16>>, i: int) -> int
    decreases buffers.len(),
{
    if buffers.len() == 0 {
        0
    } else {
        sum_at(buffers.drop_last(), i) + sample_at(buffers.last(), i)
    }
}

/// A number, brought into the range of a sample.
pub open spec fn clamped(x: int) -> i16 {
    if x < i16::MIN {
        i16::MIN
    } else if x > i16::MAX {
        i16::MAX
    } else {
        x as i16
    }
}

/// The first `n` samples of all sources, blended.
pub open spec fn blended(buffers: Seq<Seq<i16>>, n: nat) -> Seq<i16> {
    Seq::new(n, |i: int| clamped(sum_at(buffers, i)))
}

/// A source after its first `n` samples left it.
pub open spec fn drained(buffer: Seq<i16>, n: nat) -> Seq<i16> {
    if n < buffer.len() {
        buffer.skip(n as int)
    } else {
        Seq::empty()
    }
}

/// All sources after their first `n` samples left them.
pub open spec fn all_drained(buffers: Seq<Seq<i16>>, n: nat) -> Seq<Seq<i16>> {
    Seq::new(buffers.len(), |i: int| drained(buffers[i], n))
}

proof fn lemma_sum_shift(buffers: Seq<Seq<i16>>, n: nat, i: int)
    requires
        0 <= i,
    ensures
        sum_at(all_drained(buffers, n), i) == sum_at(buffers, n + i),
    decreases buffers.len(),
{
    if buffers.len() > 0 {
        lemma_sum_shift(buffers.drop_last(), n, i);
        assert(all_drained(buffers, n).drop_last() =~= all_drained(buffers.drop_last(), n));
    }
}

proof fn lemma_sum_bound(buffers: Seq<Seq<i16>>, i: int)
    ensures
        -32768 * buffers.len() <= sum_at(buffers, i) <= 32767 * buffers.len(),
    decreases buffers.len(),
{
    if buffers.len() > 0 {
        lemma_sum_bound(buffers.drop_last(), i);
    }
}

/// Two ticks in a row give what one long tick gives: no sample is lost or
/// heard twice.
pub proof fn law_ticks_join(buffers: Seq<Seq<i16>>, n: nat, m: nat)
    ensures
        blended(buffers, n) + blended(all_drained(buffers, n), m) == blended(buffers, n + m),
        all_drained(all_drained(buffers, n), m) == all_drained(buffers, n + m),
{
    assert forall|i: int| 0 <= i < m implies #[trigger] blended(all_drained(buffers, n), m)[i]
        == blended(buffers, n + m)[n + i] by {
        lemma_sum_shift(buffers, n, i);
    }
    assert forall|i: int| n <= i < n + m implies (blended(buffers, n) + blended(
        all_drained(buffers, n),
        m,
    ))[i] == blended(buffers, n + m)[i] by {
        assert(blended(all_drained(buffers, n), m)[i - n] == blended(buffers, n + m)[n + (i - n)]);
    }
    assert(blended(buffers, n) + blended(all_drained(buffers, n), m) =~= blended(buffers, n + m));
    assert forall|k: int| 0 <= k < buffers.len() implies all_drained(
        all_drained(buffers, n),
        m,
    )[k] == all_drained(buffers, n + m)[k] by {
        assert(drained(drained(buffers[k], n), m) =~= drained(buffers[k], n + m));
    }
    assert(all_drained(all_drained(buffers, n), m) =~= all_drained(buffers, n + m));
}

/// A single source is heard as it is, followed by silence.
pub proof fn law_single_source_is_heard(buffer: Seq<i16>, n: nat, i: int)
    requires
        0 <= i < n,
    ensures
        blended(seq![buffer], n)[i] == sample_at(buffer, i),
{
    reveal_with_fuel(sum_at, 2);
    assert(seq![buffer].drop_last() =~= Seq::<Seq<i16>>::empty());
    assert(seq![buffer].last() == buffer);
}

/// A source that has run dry does not change what is heard.
pub proof fn law_dry_source_is_silent(buffers: Seq<Seq<i16>>, n: nat)
    ensures
        blended(buffers.push(Seq::empty()), n) == blended(buffers, n),
{
    let more = buffers.push(Seq::<i16>::empty());
    assert(more.drop_last() =~= buffers);
    assert forall|i: int| 0 <= i < n implies blended(more, n)[i] == blended(buffers, n)[i] by {
        assert(sum_at(more, i) == sum_at(buffers, i) + sample_at(more.last(), i));
    }
    assert(blended(more, n) =~= blended(buffers, n));
}

/// The blend of all sources at one place.
fn blend_at(buffers: &Vec<Vec<i16>>, at: usize) -> (r: i16)
    requires
        buffers@.len() <= 65536,
    ensures
        r == clamped(sum_at(buffer_views(buffers@), at as int)),
{
    let n: usize = buffers.len();
    let mut sum: i32 = 0;
    let mut k: usize = 0;
    assert(buffer_views(buffers@).take(0) =~= Seq::<Seq<i16>>::empty());
    while k < n
        invariant
            0 <= k <= n,
            n == buffers@.len(),
            n <= 65536,
            sum == sum_at(buffer_views(buffers@).take(k as int), at as int),
        decreases n - k,
    {
        let ghost all = buffer_views(buffers@);
        proof {
            assert(all.take(k + 1).drop_last() =~= all.take(k as int));
            assert(all.take(k + 1).last() == buffers@[k as int]@);
            lemma_sum_bound(all.take(k as int), at as int);
        }
        let buffer: &Vec<i16> = &buffers[k];
        if at < buffer.len() {
            sum = sum + buffer[at] as i32;
        }
        k = k + 1;
    }
    assert(buffer_views(buffers@).take(n as int) =~= buffer_views(buffers@));
    if sum < -32768 {
        i16::MIN
    } else if sum > 32767 {
        i16::MAX
    } else {
        sum as i16
    }
}

/// A source without its first `n` samples.
fn drain_front(buffer: &Vec<i16>, n: usize) -> (r: Vec<i16>)
    ensures
        r@ == drained(buffer@, n as nat),
{
    let total: usize = buffer.len();
    let mut rest: Vec<i16> = Vec::new();
    if n >= total {
        return rest;
    }
    let mut i: usize = n;
    while i < total
        invariant
            n <= i <= total,
            total == buffer@.len(),
            rest@ == buffer@.subrange(n as int, i as int),
        decreases total - i,
    {
        rest.push(buffer[i]);
        i = i + 1;
        assert(rest@ =~= buffer@.subrange(n as int, i as int));
    }
    assert(rest@ =~= buffer@.skip(n as int));
    rest
}

/// One tick of the mixer: blends the next `n` samples of all sources, and takes
/// them out of the sources.
pub fn mix_tick(buffers: &mut Vec<Vec<i16>>, n: usize) -> (r: Vec<i16>)
    requires
        old(buffers)@.len() <= 65536,
    ensures
        r@ == blended(buffer_views(old(buffers)@), n as nat),
        buffer_views(final(buffers)@) == all_drained(buffer_views(old(buffers)@), n as nat),
{
    let ghost before = buffer_views(buffers@);
    let mut mixed: Vec<i16> = Vec::new();
    let mut i: usize = 0;
    while i < n
        invariant
            0 <= i <= n,
            buffers@.len() <= 65536,
            before == buffer_views(buffers@),
            mixed@ == blended(before, n as nat).take(i as int),
        decreases n - i,
    {
        mixed.push(blend_at(buffers, i));
        i = i + 1;
        assert(mixed@ =~= blended(before, n as nat).take(i as int));
    }
    assert(mixed@ =~= blended(before, n as nat));
    let count: usize = buffers.len();
    let mut k: usize = 0;
    while k < count
        invariant
            0 <= k <= count,
            count == buffers@.len(),
            count == before.len(),
            forall|j: int| 0 <= j < k ==> #[trigger] buffers@[j]@ == drained(before[j], n as nat),
            forall|j: int| k <= j < count ==> #[trigger] buffers@[j]@ == before[j],
        decreases count - k,
    {
        let rest: Vec<i16> = drain_front(&buffers[k], n);
        buffers.set(k, rest);
        k = k + 1;
    }
    assert(buffer_views(buffers@) =~= all_drained(before, n as nat));
    mixed
}

/// The frame that carries the blend of one tick.
pub fn mixed_frame(track_id: String, samples: Vec<i16>, timestamp: u64) -> (r: AudioFrame)
    ensures
        r@ == (FrameView {
            track_id: track_id@,
            samples: SamplesView::PCM { samples: samples@ },
            timestamp,
            sample_rate: INTERNAL_SAMPLERATE,
            channels: 1,
            src_packet: None,
            speech_probability: None,
        }),
{
    AudioFrame {
        track_id,
        samples: Samples::PCM { samples },
        timestamp,
        sample_rate: INTERNAL_SAMPLERATE,
        channels: 1,
        src_packet: None,
        speech_probability: None,
    }
}

impl MixingForwardingTrack {
    /// A track that is not started yet.
    pub fn new(
        chains: &mut ChainTable,
        track_id: String,
        source_session_id: String,
        inputs: usize,
        config: TrackConfig,
        ssrc: u32,
        paused: bool,
    ) -> (r: Self)
        ensures
            r.track_id == track_id,
            r.source_session_id == source_session_id,
            r.inputs == Some(inputs),
            r.config == config,
            r.ssrc == ssrc,
            !r.cancelled,
            r.paused == paused,
            r.processor_chain == (ProcessorChain {
                place: r.processor_chain.place,
                sample_rate: INTERNAL_SAMPLERATE,
                force_decode: true,
            }),
            r.processor_chain.place == old(chains)@.len(),
            final(chains)@ == old(chains)@.push(
                PartsView { processors: Seq::empty(), raw_tap: false },
            ),
    {
        MixingForwardingTrack {
            track_id,
            source_session_id,
            inputs: Some(inputs),
            processor_chain: ProcessorChain::new(chains, config.samplerate),
            config,
            cancelled: false,
            ssrc,
            paused,
        }
    }

    /// The whole milliseconds between two ticks.
    pub open spec fn tick_millis(&self) -> int {
        self.config.ptime.secs * 1000 + self.config.ptime.nanos as int / 1_000_000
    }

    /// The samples that leave per tick.
    pub open spec fn samples_per_tick(&self) -> int {
        INTERNAL_SAMPLERATE * self.tick_millis() / 1000
    }

    /// Starts the track, once.
    pub fn start(&mut self) -> (r: Result<MixPlan, StartError>)
        requires
            old(self).inputs is Some ==> INTERNAL_SAMPLERATE * old(self).tick_millis() <= u64::MAX,
            old(self).inputs is Some ==> old(self).samples_per_tick() <= usize::MAX,
        ensures
            *final(self) == (MixingForwardingTrack { inputs: None, ..*old(self) }),
            match old(self).inputs {
                Some(inputs) => r == Ok::<MixPlan, StartError>(
                    MixPlan { inputs, ptime_samples: old(self).samples_per_tick() as usize },
                ),
                None => r == Err::<MixPlan, StartError>(StartError::AlreadyStarted),
            },
    {
        let inputs: Option<usize> = self.inputs;
        self.inputs = None;
        match inputs {
            Some(inputs) => {
                let millis: u64 = self.config.ptime.secs * 1000 + (self.config.ptime.nanos
                    / 1_000_000) as u64;
                let samples: u64 = INTERNAL_SAMPLERATE as u64 * millis / 1000;
                Ok(MixPlan { inputs, ptime_samples: samples as usize })
            },
            None => Err(StartError::AlreadyStarted),
        }
    }

    /// Stops the track.
    pub fn stop(&mut self)
        ensures
            *final(self) == (MixingForwardingTrack { cancelled: true, ..*old(self) }),
    {
        self.cancelled = true;
    }

    /// A packet goes out to the listeners: the track runs, the packet comes from
    /// the session that is forwarded, and it is no DTMF packet.
    pub open spec fn forwards(&self, packet: FrameView) -> bool {
        &&& !self.cancelled
        &&& !self.paused
        &&& packet.track_id == self.source_session_id@
        &&& !(packet.samples matches SamplesView::RTP { payload_type, .. }
            && crate::media::stream::is_dtmf_payload(payload_type))
    }

    /// Whether a packet goes out to the listeners.
    pub fn send_packet(&self, packet: &AudioFrame) -> (r: bool)
        ensures
            r == self.forwards(packet@),
    {
        if self.cancelled || self.paused || !text::str_eq(
            packet.track_id.as_str(),
            self.source_session_id.as_str(),
        ) {
            return false;
        }
        match &packet.samples {
            Samples::RTP { payload_type, .. } => !is_dtmf(*payload_type),
            _ => true,
        }
    }

    /// Takes in what happened at one listener, and tells whether the next one is
    /// tried. A listener that is gone ends the track.
    pub fn on_sent(&mut self, outcome: SendOutcome) -> (r: bool)
        ensures
            r == (outcome != SendOutcome::Closed),
            *final(self) == (MixingForwardingTrack {
                cancelled: old(self).cancelled || outcome == SendOutcome::Closed,
                ..*old(self)
            }),
    {
        if outcome == SendOutcome::Closed {
            self.cancelled = true;
            false
        } else {
            true
        }
    }
}

/// What two groups of sources give together is what they give apart, added up,
/// whatever their order.
pub proof fn law_sources_add_up(a: Seq<Seq<i16>>, b: Seq<Seq<i16>>, n: nat, i: int)
    ensures
        sum_at(a + b, i) == sum_at(a, i) + sum_at(b, i),
        blended(a + b, n) == blended(b + a, n),
    decreases b.len(),
{
    lemma_sums_add(a, b, i);
    assert forall|j: int| 0 <= j < n implies blended(a + b, n)[j] == blended(b + a, n)[j] by {
        lemma_sums_add(a, b, j);
        lemma_sums_add(b, a, j);
    }
    assert(blended(a + b, n) =~= blended(b + a, n));
}

proof fn lemma_sums_add(a: Seq<Seq<i16>>, b: Seq<Seq<i16>>, i: int)
    ensures
        sum_at(a + b, i) == sum_at(a, i) + sum_at(b, i),
    decreases b.len(),
{
    if b.len() == 0 {
        assert(a + b =~= a);
    } else {
        lemma_sums_add(a, b.drop_last(), i);
        assert((a + b).drop_last() =~= a + b.drop_last());
        assert((a + b).last() == b.last());
    }
}

/// Two sources are heard together: where both have a sample the two are added, a
/// sum beyond the range stops at the limit on its side, and where one has run dry
/// the other is heard alone.
pub proof fn law_two_sources_are_heard(a: Seq<i16>, b: Seq<i16>, n: nat, i: int)
    requires
        0 <= i < n,
    ensures
        ({
            let out = blended(seq![a, b], n)[i];
            &&& i < a.len() && i < b.len() && -32768 <= a[i] + b[i] <= 32767 ==> out == a[i] + b[i]
            &&& i < a.len() && i < b.len() && a[i] + b[i] > 32767 ==> out == 32767
            &&& i < a.len() && i < b.len() && a[i] + b[i] < -32768 ==> out == -32768
            &&& i < a.len() && i >= b.len() ==> out == a[i]
            &&& i >= a.len() && i < b.len() ==> out == b[i]
            &&& i >= a.len() && i >= b.len() ==> out == 0
        }),
{
    reveal_with_fuel(sum_at, 3);
    assert(seq![a, b].drop_last() =~= seq![a]);
    assert(seq![a].drop_last() =~= Seq::<Seq<i16>>::empty());
}

/// What a tick takes leaves a source, and the rest comes next: nothing is skipped
/// and nothing comes twice.
pub proof fn law_drained_source_goes_on(buffer: Seq<i16>, n: nat, i: int)
    requires
        0 <= i,
    ensures
        drained(buffer, n).len() == if n < buffer.len() {
            buffer.len() - n
        } else {
            0
        },
        n + i < buffer.len() ==> drained(buffer, n)[i] == buffer[n + i],
{
}

/// Samples at the internal rate are blended as they are, stereo ones as mono; at
/// another rate all of them are brought to the internal one first. A packet is
/// decoded at that rate where it carries audio; else, and where there is nothing,
/// nothing is blended.
pub proof fn law_frames_are_made_ready(frame: FrameView, is_audio: bool)
    ensures
        frame.samples matches SamplesView::PCM { samples } ==> {
            &&& frame.sample_rate == 16000 && frame.channels != 2 ==> pcm_step(frame, is_audio)
                == (PcmStepView::Ready { samples })
            &&& frame.sample_rate == 16000 && frame.channels == 2 ==> pcm_step(frame, is_audio)
                == (PcmStepView::Ready { samples: crate::media::processor::mono_of(samples) })
            &&& frame.sample_rate != 16000 ==> pcm_step(frame, is_audio) == (
            PcmStepView::Resample { samples, from: frame.sample_rate, to: 16000 })
        },
        frame.samples matches SamplesView::RTP { payload_type, payload, .. } ==> (is_audio
            ==> pcm_step(frame, is_audio) == (PcmStepView::Decode {
            payload_type,
            payload,
            sample_rate: 16000,
        })),
        frame.samples is Empty || (frame.samples is RTP && !is_audio) ==> (pcm_step(
            frame,
            is_audio,
        ) matches PcmStepView::Ready { samples } && samples.len() == 0),
{
}

/// A tick takes the samples that sixteen thousand per second give in its whole
/// milliseconds, rounded down.
pub proof fn law_tick_takes_its_time(track: MixingForwardingTrack)
    requires
        track.config.ptime.nanos < 1_000_000_000,
    ensures
        track.tick_millis() * 1_000_000 <= track.config.ptime.secs * 1_000_000_000
            + track.config.ptime.nanos < (track.tick_millis() + 1) * 1_000_000,
        track.samples_per_tick() * 1000 <= 16000 * track.tick_millis() < (track.samples_per_tick()
            + 1) * 1000,
{
}

/// A running track hands on whatever comes from the session that it forwards, but
/// packets with digits; it hands on nothing of others, and nothing while it is
/// paused or once it was stopped.
pub proof fn law_all_but_digits_goes_on(track: MixingForwardingTrack, packet: FrameView)
    ensures
        track.cancelled || track.paused ==> !track.forwards(packet),
        packet.track_id != track.source_session_id@ ==> !track.forwards(packet),
        packet.samples matches SamplesView::RTP { payload_type, .. } && 96 <= payload_type <= 127
            ==> !track.forwards(packet),
        !track.cancelled && !track.paused && packet.track_id == track.source_session_id@ && (
        packet.samples matches SamplesView::RTP { payload_type, .. } ==> !(96 <= payload_type
            <= 127)) ==> track.forwards(packet),
{
}

/// What is seen of a [`PcmStep`] is all that it holds, and nothing else.
pub proof fn law_view_of_pcm_step(it: PcmStep)
    ensures
        it matches PcmStep::Ready { samples } ==> it@ == (PcmStepView::Ready { samples: samples@ }),
        it matches PcmStep::Resample { samples, from, to } ==> it@ == (PcmStepView::Resample {
            samples: samples@,
            from,
            to,
        }),
        it matches PcmStep::Decode { payload_type, payload, sample_rate } ==> it@ == (
        PcmStepView::Decode {
            payload_type,
            payload: payload@,
            sample_rate,
        }),
{
}

/// The samples of the sources are those of each, in their order.
pub proof fn law_view_of_buffers(buffers: Seq<Vec<i16>>, i: int)
    requires
        0 <= i < buffers.len(),
    ensures
        buffer_views(buffers).len() == buffers.len(),
        buffer_views(buffers)[i] == buffers[i]@,
{
}

}
