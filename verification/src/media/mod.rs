//! Audio frames and the logic that works on them.
use vstd::prelude::*;

pub mod ambiance;
pub mod loudness;
pub mod mixing;
pub mod processor;
pub mod stream;
pub mod track;

verus! {

/// Sample rate, in Hz, at which audio is processed inside the pipeline.
pub const INTERNAL_SAMPLERATE: u32 = 16000;

/// The RTP packet from which a frame was decoded.
#[derive(Debug, PartialEq, Eq)]
pub struct SourcePacket {
    pub sequence_number: u16,
    pub payload_type: u8,
    pub payload: Vec<u8>,
}

/// The audio of one frame: decoded samples, an RTP payload, or nothing.
#[derive(Debug, PartialEq, Eq)]
pub enum Samples {
    PCM { samples: Vec<i16> },
    RTP { payload_type: u8, payload: Vec<u8>, sequence_number: u16 },
    Empty,
}

/// One frame of audio on its way through the node.
#[derive(Debug, PartialEq, Eq)]
pub struct AudioFrame {
    pub track_id: String,
    pub samples: Samples,
    pub timestamp: u64,
    pub sample_rate: u32,
    pub channels: u16,
    pub src_packet: Option<SourcePacket>,
    /// The IEEE-754 bits of the single-precision speech probability.
    pub speech_probability: Option<u32>,
}

/// What a [`SourcePacket`] holds.
#[verifier::ext_equal]
pub struct SourcePacketView {
    pub sequence_number: u16,
    pub payload_type: u8,
    pub payload: Seq<u8>,
}

/// What a [`Samples`] holds.
#[verifier::ext_equal]
pub enum SamplesView {
    PCM { samples: Seq<i16> },
    RTP { payload_type: u8, payload: Seq<u8>, sequence_number: u16 },
    Empty,
}

/// What an [`AudioFrame`] holds.
#[verifier::ext_equal]
pub struct FrameView {
    pub track_id: Seq<char>,
    pub samples: SamplesView,
    pub timestamp: u64,
    pub sample_rate: u32,
    pub channels: u16,
    pub src_packet: Option<SourcePacketView>,
    pub speech_probability: Option<u32>,
}

impl View for SourcePacket {
    type V = SourcePacketView;

    open spec fn view(&self) -> SourcePacketView {
        SourcePacketView {
            sequence_number: self.sequence_number,
            payload_type: self.payload_type,
            payload: self.payload@,
        }
    }
}

impl View for Samples {
    type V = SamplesView;

    open spec fn view(&self) -> SamplesView {
        match *self {
            Samples::PCM { samples } => SamplesView::PCM { samples: samples@ },
            Samples::RTP { payload_type, payload, sequence_number } => SamplesView::RTP {
                payload_type,
                payload: payload@,
                sequence_number,
            },
            Samples::Empty => SamplesView::Empty,
        }
    }
}

impl View for AudioFrame {
    type V = FrameView;

    open spec fn view(&self) -> FrameView {
        FrameView {
            track_id: self.track_id@,
            samples: self.samples@,
            timestamp: self.timestamp,
            sample_rate: self.sample_rate,
            channels: self.channels,
            src_packet: match self.src_packet {
                Some(p) => Some(p@),
                None => None,
            },
            speech_probability: self.speech_probability,
        }
    }
}

/// A vector with the same samples.
pub fn copy_samples(v: &Vec<i16>) -> (r: Vec<i16>)
    ensures
        r@ == v@,
{
    let mut r: Vec<i16> = Vec::new();
    let mut i: usize = 0;
    while i < v.len()
        invariant
            0 <= i <= v@.len(),
            r@ == v@.take(i as int),
        decreases v@.len() - i,
    {
        r.push(v[i]);
        i = i + 1;
        assert(r@ =~= v@.take(i as int));
    }
    assert(v@.take(v@.len() as int) =~= v@);
    r
}

/// A vector with the same bytes.
pub fn copy_bytes(v: &Vec<u8>) -> (r: Vec<u8>)
    ensures
        r@ == v@,
{
    let mut r: Vec<u8> = Vec::new();
    let mut i: usize = 0;
    while i < v.len()
        invariant
            0 <= i <= v@.len(),
            r@ == v@.take(i as int),
        decreases v@.len() - i,
    {
        r.push(v[i]);
        i = i + 1;
        assert(r@ =~= v@.take(i as int));
    }
    assert(v@.take(v@.len() as int) =~= v@);
    r
}

impl Clone for SourcePacket {
    fn clone(&self) -> (r: Self)
        ensures
            r@ == self@,
    {
        SourcePacket {
            sequence_number: self.sequence_number,
            payload_type: self.payload_type,
            payload: copy_bytes(&self.payload),
        }
    }
}

impl Clone for Samples {
    fn clone(&self) -> (r: Self)
        ensures
            r@ == self@,
    {
        match self {
            Samples::PCM { samples } => Samples::PCM { samples: copy_samples(samples) },
            Samples::RTP { payload_type, payload, sequence_number } => Samples::RTP {
                payload_type: *payload_type,
                payload: copy_bytes(payload),
                sequence_number: *sequence_number,
            },
            Samples::Empty => Samples::Empty,
        }
    }
}

impl Clone for AudioFrame {
    fn clone(&self) -> (r: Self)
        ensures
            r@ == self@,
    {
        AudioFrame {
            track_id: self.track_id.clone(),
            samples: self.samples.clone(),
            timestamp: self.timestamp,
            sample_rate: self.sample_rate,
            channels: self.channels,
            src_packet: match &self.src_packet {
                Some(p) => Some(p.clone()),
                None => None,
            },
            speech_probability: self.speech_probability,
        }
    }
}

impl Default for AudioFrame {
    /// An empty mono frame at 16 kHz that belongs to no track.
    fn default() -> (r: Self)
        ensures
            r@ == (FrameView {
                track_id: Seq::empty(),
                samples: SamplesView::Empty,
                timestamp: 0,
                sample_rate: 16000,
                channels: 1,
                src_packet: None,
                speech_probability: None,
            }),
    {
        AudioFrame {
            track_id: String::new(),
            samples: Samples::Empty,
            timestamp: 0,
            sample_rate: 16000,
            channels: 1,
            src_packet: None,
            speech_probability: None,
        }
    }
}

impl Samples {
    /// Whether there is neither a sample nor a payload byte.
    pub fn is_empty(&self) -> (r: bool)
        ensures
            r == match self@ {
                SamplesView::PCM { samples } => samples.len() == 0,
                SamplesView::RTP { payload, .. } => payload.len() == 0,
                SamplesView::Empty => true,
            },
    {
        match self {
            Samples::PCM { samples } => samples.len() == 0,
            Samples::RTP { payload, .. } => payload.len() == 0,
            Samples::Empty => true,
        }
    }
}

/// What is seen of a [`Samples`] is all that it holds, and nothing else.
pub proof fn law_view_of_samples(it: Samples)
    ensures
        it matches Samples::PCM { samples } ==> it@ == (SamplesView::PCM { samples: samples@ }),
        it matches Samples::RTP { payload_type, payload, sequence_number } ==> it@ == (
        SamplesView::RTP {
            payload_type,
            payload: payload@,
            sequence_number,
        }),
        it is Empty ==> it@ == SamplesView::Empty,
{
}

/// What is seen of a frame is what it holds, its packet among it.
pub proof fn law_view_of_frame(frame: AudioFrame)
    ensures
        frame@.track_id == frame.track_id@ && frame@.samples == frame.samples@,
        frame@.timestamp == frame.timestamp && frame@.sample_rate == frame.sample_rate,
        frame@.channels == frame.channels && frame@.speech_probability
            == frame.speech_probability,
        frame.src_packet matches Some(p) ==> (frame@.src_packet matches Some(q) && q.payload
            == p.payload@ && q.payload_type == p.payload_type && q.sequence_number
            == p.sequence_number),
        frame.src_packet is None ==> frame@.src_packet is None,
{
}

}
