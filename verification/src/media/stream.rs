//! The media stream of a call: its recorder, its commands, and the processors
//! that it puts into tracks.
use crate::clock::TimeSpan;
use crate::event::{SessionEvent, SessionEventView};
use crate::media::processor::{
    ChainProcessor, ChainTable, Effect, EffectView, PartsView, ProcessError, Processor,
    ProcessorChain, ProcessorKind,
};
use crate::media::track::{TrackCommand, TrackCommandView, TrackEntry};
use crate::media::{AudioFrame, FrameView, Samples, SamplesView};
use crate::option::RecorderOption;
use crate::text;
use vstd::prelude::*;

verus! {

/// Replaces the audio of a track by silence and drops its DTMF packets.
#[derive(Debug, Clone, Copy, PartialEq, Eq)]
pub struct MuteProcessor {}

/// Whether a payload type is in the dynamic range that carries DTMF.
pub open spec fn is_dtmf_payload(payload_type: u8) -> bool {
    96 <= payload_type <= 127
}

/// Whether a payload type is in the dynamic range that carries DTMF.
pub fn is_dtmf(payload_type: u8) -> (r: bool)
    ensures
        r == is_dtmf_payload(payload_type),
{
    payload_type >= 96 && payload_type <= 127
}

impl MuteProcessor {
    /// A frame without its audio.
    pub open spec fn muted(frame: FrameView) -> FrameView {
        match frame.samples {
            SamplesView::PCM { samples } => FrameView {
                samples: SamplesView::PCM { samples: Seq::new(samples.len(), |i: int| 0i16) },
                ..frame
            },
            SamplesView::RTP { payload_type, .. } if is_dtmf_payload(payload_type) => FrameView {
                samples: SamplesView::Empty,
                ..frame
            },
            _ => frame,
        }
    }

    /// A chain on whose track the audio is silenced: one silencer in front,
    /// unless there is one already.
    pub open spec fn muted_chain(processors: Seq<ChainProcessor>) -> Seq<ChainProcessor> {
        if crate::media::processor::any_kind(processors, ProcessorKind::Mute) {
            processors
        } else {
            seq![ChainProcessor::Mute(MuteProcessor {  })] + processors
        }
    }

    /// The processors of a chain that is silenced, or let be heard again.
    pub open spec fn set_chain(processors: Seq<ChainProcessor>, muted: bool) -> Seq<
        ChainProcessor,
    > {
        if muted {
            Self::muted_chain(processors)
        } else {
            Self::unmuted_chain(processors)
        }
    }

    /// A chain without silencers.
    pub open spec fn unmuted_chain(processors: Seq<ChainProcessor>) -> Seq<ChainProcessor> {
        ProcessorChain::without(processors, ProcessorKind::Mute)
    }

    /// Silences the track of a chain.
    pub fn mute_track(chain: &ProcessorChain, chains: &mut ChainTable)
        requires
            chain.held(old(chains)@),
        ensures
            final(chains)@ == mute_set(old(chains)@, chain.place as int, true),
    {
        if !chain.has_processor(chains, ProcessorKind::Mute) {
            chain.insert_processor(chains, ChainProcessor::Mute(MuteProcessor {  }));
        }
        assert(chains@ =~= mute_set(old(chains)@, chain.place as int, true));
    }

    /// Lets the track of a chain be heard again.
    pub fn unmute_track(chain: &ProcessorChain, chains: &mut ChainTable)
        requires
            chain.held(old(chains)@),
        ensures
            final(chains)@ == mute_set(old(chains)@, chain.place as int, false),
    {
        chain.remove_processor(chains, ProcessorKind::Mute);
    }
}

/// The chains after the one at a place was silenced, or let be heard again.
pub open spec fn mute_set(chains: Seq<PartsView>, place: int, muted: bool) -> Seq<PartsView> {
    crate::media::processor::rechained(
        chains,
        place,
        MuteProcessor::set_chain(chains[place].processors, muted),
    )
}

/// Silencing a track twice is silencing it once.
pub proof fn law_mute_twice(processors: Seq<ChainProcessor>)
    ensures
        MuteProcessor::muted_chain(MuteProcessor::muted_chain(processors))
            == MuteProcessor::muted_chain(processors),
{
    let muted = MuteProcessor::muted_chain(processors);
    if !crate::media::processor::any_kind(processors, ProcessorKind::Mute) {
        assert(muted[0].kind_of() == ProcessorKind::Mute);
    }
}

/// Letting a track be heard undoes silencing it.
pub proof fn law_unmute_undoes_mute(processors: Seq<ChainProcessor>)
    requires
        !crate::media::processor::any_kind(processors, ProcessorKind::Mute),
    ensures
        MuteProcessor::unmuted_chain(MuteProcessor::muted_chain(processors)) == processors,
{
    let keep = |p: ChainProcessor| p.kind_of() != ProcessorKind::Mute;
    let first = seq![ChainProcessor::Mute(MuteProcessor {  })];
    lemma_filter_all(processors);
    assert(first.filter(keep) =~= Seq::<ChainProcessor>::empty()) by {
        reveal_with_fuel(Seq::filter, 2);
        assert(first.drop_last() =~= Seq::<ChainProcessor>::empty());
        assert(first.last().kind_of() == ProcessorKind::Mute);
    }
    Seq::<ChainProcessor>::filter_distributes_over_add(first, processors, keep);
    assert(Seq::<ChainProcessor>::empty() + processors =~= processors);
}

/// A track that is let be heard twice is let be heard once.
pub proof fn law_unmute_twice(processors: Seq<ChainProcessor>)
    ensures
        MuteProcessor::unmuted_chain(MuteProcessor::unmuted_chain(processors))
            == MuteProcessor::unmuted_chain(processors),
{
    let unmuted = MuteProcessor::unmuted_chain(processors);
    assert forall|i: int| 0 <= i < unmuted.len() implies (#[trigger] unmuted[i]).kind_of()
        != ProcessorKind::Mute by {
        broadcast use vstd::seq_lib::group_filter_ensures;

        assert(unmuted.contains(unmuted[i]));
    }
    lemma_filter_all(unmuted);
}

proof fn lemma_filter_all(processors: Seq<ChainProcessor>)
    requires
        !crate::media::processor::any_kind(processors, ProcessorKind::Mute),
    ensures
        processors.filter(|p: ChainProcessor| p.kind_of() != ProcessorKind::Mute) == processors,
    decreases processors.len(),
{
    let keep = |p: ChainProcessor| p.kind_of() != ProcessorKind::Mute;
    reveal(Seq::filter);
    if processors.len() > 0 {
        let rest = processors.drop_last();
        assert forall|i: int| 0 <= i < rest.len() implies (#[trigger] rest[i]).kind_of()
            != ProcessorKind::Mute by {
            assert(rest[i] == processors[i]);
        }
        lemma_filter_all(rest);
        assert(processors.last() == processors[processors.len() - 1]);
        assert(keep(processors.last()));
        assert(processors =~= rest.push(processors.last()));
    } else {
        assert(processors.filter(keep) =~= processors);
    }
}

/// As many zero samples as asked for.
pub fn zero_samples(n: usize) -> (r: Vec<i16>)
    ensures
        r@ == Seq::new(n as nat, |i: int| 0i16),
{
    let mut r: Vec<i16> = Vec::new();
    let mut i: usize = 0;
    while i < n
        invariant
            0 <= i <= n,
            r@ == Seq::new(i as nat, |i: int| 0i16),
        decreases n - i,
    {
        r.push(0);
        i = i + 1;
        assert(r@ =~= Seq::new(i as nat, |i: int| 0i16));
    }
    r
}

impl Processor for MuteProcessor {
    /// Silences decoded samples and empties DTMF packets.
    fn process_frame(&mut self, frame: &mut AudioFrame) -> (r: Result<Effect, ProcessError>)
        ensures
            final(frame)@ == MuteProcessor::muted(old(frame)@),
            r matches Ok(e) && e@ == EffectView::Silent,
    {
        let silenced: Option<Samples> = match &frame.samples {
            Samples::PCM { samples } => Some(
                Samples::PCM { samples: zero_samples(samples.len()) },
            ),
            Samples::RTP { payload_type, .. } => if is_dtmf(*payload_type) {
                Some(Samples::Empty)
            } else {
                None
            },
            Samples::Empty => None,
        };
        if let Some(s) = silenced {
            frame.samples = s;
        }
        assert(frame@ =~= MuteProcessor::muted(old(frame)@));
        Ok(Effect::Silent)
    }
}

/// Hands a copy of every frame to the recorder.
#[derive(Debug, Clone, Copy, PartialEq, Eq)]
pub struct RecorderProcessor {}

impl RecorderProcessor {
    /// A processor that feeds the recorder.
    pub fn new() -> (r: Self)
        ensures
            r == (RecorderProcessor {  }),
    {
        RecorderProcessor {  }
    }
}

impl Processor for RecorderProcessor {
    /// Asks for the frame to be recorded; the frame passes untouched.
    fn process_frame(&mut self, frame: &mut AudioFrame) -> (r: Result<Effect, ProcessError>)
        ensures
            *final(frame) == *old(frame),
            r matches Ok(e) && e@ == (EffectView::Record { frame: old(frame)@ }),
    {
        Ok(Effect::Record { frame: frame.clone() })
    }
}

/// A random version 4 UUID in its hyphenated form, from [`uuid::Uuid::new_v4`].
/// All that is known of it is the shape that every such text has.
#[verifier::external_body]
fn random_uuid() -> (r: String)
    ensures
        r@.len() == 36,
        crate::chance::is_drawn_uuid(r@),
{
    uuid::Uuid::new_v4().to_string()
}

/// Gathers what a [`MediaStream`] is made of.
#[derive(Debug, PartialEq, Eq)]
pub struct MediaStreamBuilder {
    pub id: Option<String>,
    pub recorder_config: Option<RecorderOption>,
}

/// The media stream of a call: which of its parts were handed out, and how it
/// is recorded.
#[derive(Debug, PartialEq, Eq)]
pub struct MediaStream {
    pub id: String,
    /// The stream was told to stop.
    pub cancelled: bool,
    pub recorder_option: Option<RecorderOption>,
    /// The receiving end for packets is still here.
    pub packet_receiver: bool,
    /// The receiving end for commands is still here.
    pub track_command_receiver: bool,
    /// The receiving end for frames to record is still here.
    pub recorder_receiver: bool,
    /// A recorder was started and not yet waited for.
    pub recorder_handle: bool,
}

/// What comes of a call of [`MediaStream::serve`].
#[derive(Debug, PartialEq, Eq)]
pub enum ServeAction {
    /// The stream is served already.
    AlreadyServing,
    /// Serve the stream, with the recorder that is to be started first.
    Serve { recorder: Option<RecorderOption> },
}

/// Seconds for which the end of a recording is waited for.
pub const RECORDER_STOP_TIMEOUT_SECS: u64 = 30;

impl MediaStreamBuilder {
    /// A builder for a stream with a fresh random name.
    pub fn new() -> (r: Self)
        ensures
            r.recorder_config is None,
            r.id matches Some(id) && id@.len() == 39 && "ms:"@.is_prefix_of(id@)
                && crate::chance::is_drawn_uuid(id@.skip(3)),
    {
        let uuid: String = random_uuid();
        let id: String = text::concat2("ms:", uuid.as_str());
        proof {
            reveal_strlit("ms:");
            assert("ms:"@ =~= id@.take(3));
            assert(id@.skip(3) =~= uuid@);
        }
        MediaStreamBuilder { id: Some(id), recorder_config: None }
    }

    /// Names the stream.
    pub fn with_id(self, id: String) -> (r: Self)
        ensures
            r == (MediaStreamBuilder { id: Some(id), ..self }),
    {
        MediaStreamBuilder { id: Some(id), recorder_config: self.recorder_config }
    }

    /// Says how the stream is recorded.
    pub fn with_recorder_config(self, recorder_config: RecorderOption) -> (r: Self)
        ensures
            r == (MediaStreamBuilder { recorder_config: Some(recorder_config), ..self }),
    {
        MediaStreamBuilder { id: self.id, recorder_config: Some(recorder_config) }
    }

    /// The stream, with nothing handed out yet.
    pub fn build(self) -> (r: MediaStream)
        ensures
            r.id@ == match self.id {
                Some(id) => id@,
                None => Seq::<char>::empty(),
            },
            r == (MediaStream {
                id: r.id,
                cancelled: false,
                recorder_option: self.recorder_config,
                packet_receiver: true,
                track_command_receiver: true,
                recorder_receiver: true,
                recorder_handle: false,
            }),
    {
        let id: String = match self.id {
            Some(id) => id,
            None => String::new(),
        };
        MediaStream {
            id,
            cancelled: false,
            recorder_option: self.recorder_config,
            packet_receiver: true,
            track_command_receiver: true,
            recorder_receiver: true,
            recorder_handle: false,
        }
    }
}

impl MediaStream {
    /// A recorder can be started: a file is named, and no recorder took the
    /// frames before.
    pub open spec fn can_record(&self) -> bool {
        &&& self.recorder_option matches Some(o) && o.recorder_file@.len() > 0
        &&& self.recorder_receiver
    }

    /// The stream once its recorder was started, where one can be.
    pub open spec fn recording(self) -> MediaStream {
        if self.can_record() {
            MediaStream { recorder_receiver: false, recorder_handle: true, ..self }
        } else {
            self
        }
    }

    /// Starts the recorder, once, where the settings name a file.
    pub fn start_recorder(&mut self) -> (r: Option<RecorderOption>)
        ensures
            *final(self) == old(self).recording(),
            r == if old(self).can_record() {
                old(self).recorder_option
            } else {
                None
            },
    {
        let option: Option<RecorderOption> = self.recorder_option.clone();
        match option {
            Some(option) => {
                if option.recorder_file.as_str().unicode_len() == 0 || !self.recorder_receiver {
                    None
                } else {
                    self.recorder_receiver = false;
                    self.recorder_handle = true;
                    Some(option)
                }
            },
            None => None,
        }
    }

    /// Takes the receiving ends and starts the recorder. A second call finds
    /// the ends gone and does nothing more.
    pub fn serve(&mut self) -> (r: ServeAction)
        ensures
            ({
                let taken = MediaStream { packet_receiver: false, ..*old(self) };
                let both = MediaStream { track_command_receiver: false, ..taken };
                if !old(self).packet_receiver {
                    *final(self) == *old(self) && r == ServeAction::AlreadyServing
                } else if !old(self).track_command_receiver {
                    *final(self) == taken && r == ServeAction::AlreadyServing
                } else {
                    &&& *final(self) == both.recording()
                    &&& r == (ServeAction::Serve {
                        recorder: if both.can_record() {
                            both.recorder_option
                        } else {
                            None
                        },
                    })
                }
            }),
    {
        if !self.packet_receiver {
            return ServeAction::AlreadyServing;
        }
        self.packet_receiver = false;
        if !self.track_command_receiver {
            return ServeAction::AlreadyServing;
        }
        self.track_command_receiver = false;
        let recorder: Option<RecorderOption> = self.start_recorder();
        ServeAction::Serve { recorder }
    }

    /// Tells the stream to stop.
    pub fn stop(&mut self, _reason: Option<String>, _initiator: Option<String>)
        ensures
            *final(self) == (MediaStream { cancelled: true, ..*old(self) }),
    {
        self.cancelled = true;
    }

    /// Stops the stream, and tells whether a recorder is to be waited for.
    pub fn cleanup(&mut self) -> (r: bool)
        ensures
            r == old(self).recorder_handle,
            *final(self) == (MediaStream { cancelled: true, recorder_handle: false, ..*old(self) }),
    {
        self.cancelled = true;
        let running: bool = self.recorder_handle;
        self.recorder_handle = false;
        running
    }

    /// Says how the stream is recorded from now on, and starts the recorder
    /// where none was started before.
    pub fn update_recorder_option(&mut self, recorder_config: RecorderOption) -> (r: Option<
        RecorderOption,
    >)
        ensures
            ({
                let told = MediaStream { recorder_option: Some(recorder_config), ..*old(self) };
                &&& *final(self) == told.recording()
                &&& r == if told.can_record() {
                    Some(recorder_config)
                } else {
                    None
                }
            }),
    {
        self.recorder_option = Some(recorder_config);
        self.start_recorder()
    }

    /// The command that takes a track out of the stream.
    pub fn remove_track(&self, id: &String, graceful: bool) -> (r: TrackCommand)
        ensures
            r == (TrackCommand::RemoveTrack { track_id: *id, graceful }),
    {
        TrackCommand::RemoveTrack { track_id: id.clone(), graceful }
    }

    /// The command that hands an answer to a track.
    pub fn update_remote_description(&self, track_id: &String, answer: &String) -> (r: TrackCommand)
        ensures
            r == (TrackCommand::UpdateRemoteDescription {
                track_id: *track_id,
                answer: *answer,
                force: false,
            }),
    {
        TrackCommand::UpdateRemoteDescription {
            track_id: track_id.clone(),
            answer: answer.clone(),
            force: false,
        }
    }

    /// The command that hands an answer to a track, even where it looks like
    /// the one that the track has.
    pub fn update_remote_description_force(&self, track_id: &String, answer: &String) -> (r:
        TrackCommand)
        ensures
            r == (TrackCommand::UpdateRemoteDescription {
                track_id: *track_id,
                answer: *answer,
                force: true,
            }),
    {
        TrackCommand::UpdateRemoteDescription {
            track_id: track_id.clone(),
            answer: answer.clone(),
            force: true,
        }
    }

    /// The command that hands an offer to a track.
    pub fn handshake(&self, track_id: &String, offer: String, timeout: Option<TimeSpan>) -> (r:
        TrackCommand)
        ensures
            r == (TrackCommand::Handshake { track_id: *track_id, offer, timeout }),
    {
        TrackCommand::Handshake { track_id: track_id.clone(), offer, timeout }
    }

    /// The command that silences one track, or all.
    pub fn mute_track(&self, id: Option<String>) -> (r: TrackCommand)
        ensures
            r == (TrackCommand::MuteTrack { track_id: id }),
    {
        TrackCommand::MuteTrack { track_id: id }
    }

    /// The command that lets one track, or all, be heard again.
    pub fn unmute_track(&self, id: Option<String>) -> (r: TrackCommand)
        ensures
            r == (TrackCommand::UnmuteTrack { track_id: id }),
    {
        TrackCommand::UnmuteTrack { track_id: id }
    }

    /// The chains once a track was readied. A stream that is recorded gets the
    /// frames of the track once: from the mirror where it records at the rate at
    /// which they come, else from a processor in front of all others.
    pub open spec fn readied(&self, chains: Seq<PartsView>, place: int) -> Seq<PartsView> {
        match self.recorder_option {
            Some(option) if option.native_samplerate == Some(true) =>
                crate::media::processor::tapped(chains, place, true),
            Some(_) => crate::media::processor::rechained(
                chains,
                place,
                seq![ChainProcessor::Recorder(RecorderProcessor {  })] + chains[place].processors,
            ),
            None => chains,
        }
    }

    /// Readies a track for the stream: a track of the same name has to leave
    /// first, and a stream that is recorded gets the frames of the track.
    pub fn update_track(&self, chains: &mut ChainTable, track: &TrackEntry) -> (r: TrackCommand)
        requires
            track.chain.held(old(chains)@),
        ensures
            r@ == (TrackCommandView::RemoveTrack { track_id: track@.track_id, graceful: false }),
            final(chains)@ == self.readied(old(chains)@, track.chain.place as int),
    {
        let leave: TrackCommand = self.remove_track(&track.track_id, false);
        if let Some(option) = &self.recorder_option {
            let native: bool = match option.native_samplerate {
                Some(native) => native,
                None => false,
            };
            if native {
                track.chain.set_raw_tap(chains, true);
            } else {
                track.chain.insert_processor(
                    chains,
                    ChainProcessor::Recorder(RecorderProcessor::new()),
                );
            }
        }
        leave
    }

    /// The command and the event that follow once a track has started; a track
    /// that fails to start leads to neither.
    pub fn track_started(
        &self,
        track: TrackEntry,
        play_id: Option<String>,
        started: bool,
        timestamp: u64,
    ) -> (r: Option<(TrackCommand, SessionEvent)>)
        ensures
            match r {
                Some((command, event)) => {
                    &&& started
                    &&& command@ == (TrackCommandView::AddTrack { track: track@ })
                    &&& event@ == (SessionEventView::TrackStart {
                        track_id: track@.track_id,
                        timestamp,
                        play_id: text::opt_view(play_id),
                    })
                },
                None => !started,
            },
    {
        if !started {
            return None;
        }
        let track_id: String = track.track_id.clone();
        Some(
            (
                TrackCommand::AddTrack { track },
                SessionEvent::TrackStart { track_id, timestamp, play_id },
            ),
        )
    }
}

/// A recorder is started at most once in the life of a stream.
pub proof fn law_recorder_starts_once(stream: MediaStream, option: Option<RecorderOption>)
    requires
        stream.can_record(),
    ensures
        !(MediaStream { recorder_option: option, ..stream.recording() }).can_record(),
{
}

/// A silenced frame sounds of nothing: each of its samples is zero, and there are
/// as many as before. A packet that carries a digit is emptied, any other packet
/// stays, and so does all else that belongs to the frame.
pub proof fn law_silence_is_zero(frame: FrameView, i: int)
    ensures
        frame.samples matches SamplesView::PCM { samples } ==> (MuteProcessor::muted(
            frame,
        ).samples matches SamplesView::PCM { samples: quiet } && quiet.len() == samples.len() && (0
            <= i < quiet.len() ==> quiet[i] == 0)),
        frame.samples matches SamplesView::RTP { payload_type, .. } && 96 <= payload_type <= 127
            ==> MuteProcessor::muted(frame).samples == SamplesView::Empty,
        frame.samples matches SamplesView::RTP { payload_type, .. } && !(96 <= payload_type <= 127)
            ==> MuteProcessor::muted(frame) == frame,
        frame.samples is Empty ==> MuteProcessor::muted(frame) == frame,
        MuteProcessor::muted(frame) == (FrameView {
            samples: MuteProcessor::muted(frame).samples,
            ..frame
        }),
{
}

/// Silencing a track puts one silencer in front of all that its frames met
/// before; where there is a silencer, nothing changes.
pub proof fn law_silencer_comes_first(processors: Seq<ChainProcessor>)
    ensures
        ({
            let muted = MuteProcessor::set_chain(processors, true);
            if exists|i: int| 0 <= i < processors.len() && (#[trigger] processors[i]) is Mute {
                muted == processors
            } else {
                muted.len() == processors.len() + 1 && muted[0] is Mute && muted.skip(1)
                    == processors
            }
        }),
{
    if exists|i: int| 0 <= i < processors.len() && (#[trigger] processors[i]) is Mute {
        let i = choose|i: int| 0 <= i < processors.len() && (#[trigger] processors[i]) is Mute;
        assert(processors[i].kind_of() == ProcessorKind::Mute);
    } else {
        assert forall|i: int| 0 <= i < processors.len() implies (#[trigger] processors[i]).kind_of()
            != ProcessorKind::Mute by {}
        assert(MuteProcessor::muted_chain(processors).skip(1) =~= processors);
    }
}

/// Letting a track be heard takes the silencers out of its chain and nothing
/// else: whoever comes after adds to what is left.
pub proof fn law_unmute_takes_silencers_only(processors: Seq<ChainProcessor>, last: ChainProcessor)
    ensures
        MuteProcessor::set_chain(Seq::empty(), false) == Seq::<ChainProcessor>::empty(),
        MuteProcessor::set_chain(processors.push(last), false) == if last is Mute {
            MuteProcessor::set_chain(processors, false)
        } else {
            MuteProcessor::set_chain(processors, false).push(last)
        },
{
    reveal(Seq::filter);
    assert(processors.push(last).drop_last() =~= processors);
}

/// A recorder is started where a file is named and the frames are still to be
/// had, and nowhere else; then the frames are gone and a recorder is there to be
/// waited for. Nothing else of the stream changes.
pub proof fn law_recorder_needs_a_file(stream: MediaStream)
    ensures
        stream.recorder_option is None ==> !stream.can_record(),
        stream.recorder_option matches Some(o) && o.recorder_file@.len() == 0
            ==> !stream.can_record(),
        !stream.recorder_receiver ==> !stream.can_record(),
        stream.recorder_receiver && (stream.recorder_option matches Some(o)
            && o.recorder_file@.len() > 0) ==> stream.can_record() && stream.recording()
            == (MediaStream { recorder_receiver: false, recorder_handle: true, ..stream }),
        !stream.can_record() ==> stream.recording() == stream,
{
}

/// A stream that is recorded gets the frames of a track once: from the mirror where
/// it keeps their rate, and else from a recorder in front of all that they meet.
/// One that is not recorded leaves the track as it is, and the chains of other
/// tracks stay in any case.
pub proof fn law_recorded_once(
    stream: MediaStream,
    chains: Seq<PartsView>,
    place: int,
    other: int,
)
    requires
        0 <= place < chains.len(),
        0 <= other < chains.len(),
    ensures
        ({
            let after = stream.readied(chains, place);
            &&& stream.recorder_option is None ==> after == chains
            &&& stream.recorder_option matches Some(o) ==> {
                &&& o.native_samplerate == Some(true) ==> after[place].raw_tap
                    && after[place].processors == chains[place].processors
                &&& o.native_samplerate != Some(true) ==> {
                    &&& after[place].raw_tap == chains[place].raw_tap
                    &&& after[place].processors.len() == chains[place].processors.len() + 1
                    &&& after[place].processors[0] is Recorder
                    &&& after[place].processors.skip(1) == chains[place].processors
                }
            }
            &&& other != place ==> after[other] == chains[other]
            &&& after.len() == chains.len()
        }),
{
    let more = seq![ChainProcessor::Recorder(RecorderProcessor {  })] + chains[place].processors;
    assert(more.skip(1) =~= chains[place].processors);
}

/// Silencing one chain leaves the others, and the mirror of the one.
pub proof fn law_only_one_chain_is_silenced(
    chains: Seq<PartsView>,
    place: int,
    muted: bool,
    other: int,
)
    requires
        0 <= place < chains.len(),
        0 <= other < chains.len(),
    ensures
        mute_set(chains, place, muted).len() == chains.len(),
        mute_set(chains, place, muted)[place].raw_tap == chains[place].raw_tap,
        mute_set(chains, place, true)[place].processors == MuteProcessor::muted_chain(
            chains[place].processors,
        ),
        mute_set(chains, place, false)[place].processors == MuteProcessor::unmuted_chain(
            chains[place].processors,
        ),
        other != place ==> mute_set(chains, place, muted)[other] == chains[other],
{
}

}
