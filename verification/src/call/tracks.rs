//! Making the tracks of a call and fitting them into its media stream.
use crate::call::sip::Invitation;
use crate::call::state::{
    CallRuntime, LegShared, LegTable, LegView, PendingCallerTrack, ProgressUpdate, ProgressView,
};
use crate::callrecord::ActiveCallType;
use crate::clock::{TimeSpan, Timestamp};
use crate::config::{Config, IceServer};
use crate::event::{SessionEvent, SessionEventView};
use crate::maps::StringMap;
use crate::media::ambiance::AmbianceOption;
use crate::media::processor::{ChainProcessor, ChainTable, SubscribeProcessor};
use crate::media::track::{TrackCommand, TrackCommandView, TrackEntry};
use crate::option::{CallOption, SipOption};
use crate::sip::{DialogId, Header, HeaderName, InviteOption, SipError, SipErrorView};
use crate::{call::state, clock, config, maps, media::processor, sip, sip_util, text};
use vstd::prelude::*;
use vstd::string::*;

verus! {

/// A codec.
#[derive(Debug, Clone, Copy, PartialEq, Eq, Structural)]
pub enum CodecType {
    PCMU,
    PCMA,
    G722,
    G729,
    Opus,
    TelephoneEvent,
}

/// How the packets of a track travel.
#[derive(Debug, Clone, Copy, PartialEq, Eq, Structural)]
pub enum TransportMode {
    WebRtc,
    Srtp,
    Rtp,
}

/// The settings of a track that talks RTP.
#[derive(Debug, PartialEq, Eq)]
pub struct RtcTrackConfig {
    pub mode: TransportMode,
    pub codecs: Vec<CodecType>,
    pub preferred_codec: Option<CodecType>,
    pub rtp_port_range: Option<(u16, u16)>,
    pub external_ip: Option<String>,
    pub bind_ip: Option<String>,
    pub enable_latching: Option<bool>,
    pub enable_ice_lite: Option<bool>,
    pub ice_servers: Option<Vec<IceServer>>,
}

/// A track that is to be made.
#[derive(Debug, PartialEq, Eq)]
pub struct RtcTrackPlan {
    pub track_id: String,
    pub ssrc: u32,
    pub config: RtcTrackConfig,
}

/// A track that plays a file.
#[derive(Debug, PartialEq, Eq)]
pub struct FileTrack {
    pub track_id: String,
    pub play_id: Option<String>,
    pub ssrc: u32,
    pub path: String,
}

/// A track that is to be made for a browser.
#[derive(Debug, PartialEq, Eq)]
pub struct WebrtcPlan {
    pub track: RtcTrackPlan,
    pub timeout: Option<TimeSpan>,
    pub offer: String,
    /// Take the IPv6 candidates out of the offer and of the answer.
    pub strip_ipv6: bool,
}

/// The contact of an outgoing call.
#[derive(Debug, PartialEq, Eq)]
pub enum ContactStep {
    /// It stays as it is.
    Keep,
    /// It is made of the public address of this node, with this user.
    Build { user: Option<String> },
}

/// What is heard while an outgoing call rings.
#[derive(Debug, PartialEq, Eq)]
pub enum MusicStep {
    /// No music: the track of the call is set up at once.
    SetUpTrack,
    /// Play the music; the track is set up once the call is answered.
    Play { track: FileTrack },
    /// Something else plays; the music waits for its end, and the track is set
    /// up once the call is answered.
    Wait,
}

/// What is left to do once an outgoing call was answered.
#[derive(Debug, PartialEq, Eq)]
pub struct AnsweredStep {
    /// The music leaves first, where there was music.
    pub remove: Option<TrackCommand>,
    /// The track of the call is still to be set up.
    pub set_up_track: bool,
}

/// A call.
#[derive(Debug, PartialEq, Eq)]
pub struct ActiveCall {
    pub session_id: String,
    pub server_side_track_id: String,
    pub call_type: ActiveCallType,
    pub ssrc: u32,
    /// The codec of tracks that are told nothing else.
    pub codec: CodecType,
    pub config: Config,
    pub leg: LegShared,
    /// Music for the time in which the other side rings.
    pub moh: Option<String>,
    /// What is played at present.
    pub current_play: Option<String>,
}

/// Tag of the processor that mixes the background sound in.
pub const AMBIANCE_TAG: u64 = 1;

/// Tag of the processors that recognise, detect and level speech.
pub const STREAM_TAG: u64 = 2;

/// The text that [`lower_case`] makes of a text.
pub uninterp spec fn lower_text(s: Seq<char>) -> Seq<char>;

/// A text in small letters, from std's `str::to_lowercase`. Of an ASCII text
/// the ASCII letters change and nothing else; what becomes of other letters is
/// left open here.
#[verifier::external_body]
fn lower_case(s: &str) -> (r: String)
    ensures
        r@ == lower_text(s@),
        is_ascii_text(s@) ==> r@ == text::ascii_lower_of(s@),
{
    s.to_lowercase()
}

/// The codec of a name in small letters.
pub open spec fn codec_of(name: Seq<char>) -> Option<CodecType> {
    if name == "pcmu"@ {
        Some(CodecType::PCMU)
    } else if name == "pcma"@ {
        Some(CodecType::PCMA)
    } else if name == "g722"@ {
        Some(CodecType::G722)
    } else if name == "g729"@ {
        Some(CodecType::G729)
    } else if name == "opus"@ {
        Some(CodecType::Opus)
    } else if name == "dtmf"@ || name == "2833"@ || name == "telephone_event"@ {
        Some(CodecType::TelephoneEvent)
    } else {
        None
    }
}

/// The codec of a name in small letters.
pub fn codec_named(name: &str) -> (r: Option<CodecType>)
    ensures
        r == codec_of(name@),
{
    if text::str_eq(name, "pcmu") {
        Some(CodecType::PCMU)
    } else if text::str_eq(name, "pcma") {
        Some(CodecType::PCMA)
    } else if text::str_eq(name, "g722") {
        Some(CodecType::G722)
    } else if text::str_eq(name, "g729") {
        Some(CodecType::G729)
    } else if text::str_eq(name, "opus") {
        Some(CodecType::Opus)
    } else if text::str_eq(name, "dtmf") || text::str_eq(name, "2833") || text::str_eq(
        name,
        "telephone_event",
    ) {
        Some(CodecType::TelephoneEvent)
    } else {
        None
    }
}

/// The codecs of a list of names, whatever the size of their letters; unknown
/// names are left out.
pub open spec fn codecs_of(names: Seq<String>) -> Seq<CodecType>
    decreases names.len(),
{
    if names.len() == 0 {
        Seq::empty()
    } else {
        match codec_of(lower_text(names.last()@)) {
            Some(c) => codecs_of(names.drop_last()).push(c),
            None => codecs_of(names.drop_last()),
        }
    }
}

/// A text of ASCII characters.
pub open spec fn is_ascii_text(s: Seq<char>) -> bool {
    forall|i: int| 0 <= i < s.len() ==> (#[trigger] s[i] as u32) < 0x80
}

/// Of names that are ASCII, the ASCII letters are made small and nothing else.
pub open spec fn lowered_plainly(names: Seq<String>) -> bool {
    forall|i: int|
        0 <= i < names.len() && is_ascii_text((#[trigger] names[i])@) ==> lower_text(names[i]@)
            == text::ascii_lower_of(names[i]@)
}

/// The codecs of a list of names.
fn codec_list(names: &Vec<String>) -> (r: Vec<CodecType>)
    ensures
        r@ == codecs_of(names@),
        lowered_plainly(names@),
{
    let n: usize = names.len();
    let mut out: Vec<CodecType> = Vec::new();
    let mut i: usize = 0;
    while i < n
        invariant
            0 <= i <= n,
            n == names@.len(),
            out@ == codecs_of(names@.take(i as int)),
            lowered_plainly(names@.take(i as int)),
        decreases n - i,
    {
        proof {
            assert(names@.take(i + 1).drop_last() =~= names@.take(i as int));
            assert(names@.take(i + 1).last() == names@[i as int]);
        }
        let name: String = lower_case(names[i].as_str());
        if let Some(c) = codec_named(name.as_str()) {
            out.push(c);
        }
        proof {
            let done = names@.take(i as int);
            let more = names@.take(i + 1);
            assert forall|j: int| 0 <= j < more.len() && is_ascii_text(
                (#[trigger] more[j])@,
            ) implies lower_text(more[j]@) == text::ascii_lower_of(more[j]@) by {
                if j < i {
                    assert(more[j] == done[j]);
                }
            }
        }
        i = i + 1;
    }
    assert(names@.take(n as int) =~= names@);
    out
}

/// A random number for a stream of packets, from [`rand::random`]. All that is
/// known of it is that it was drawn.
#[verifier::external_body]
fn random_ssrc() -> (r: u32)
    ensures
        crate::chance::is_drawn_number(r),
{
    rand::random::<u32>()
}

/// A session description is one that browsers send: it names a user or a
/// password for the search for a path, and a fingerprint.
pub open spec fn webrtc_sdp(sdp: Seq<char>) -> bool {
    &&& text::occurs_in("a=ice-ufrag:"@, sdp) || text::occurs_in("a=ice-pwd:"@, sdp)
    &&& text::occurs_in("a=fingerprint:"@, sdp)
}

/// The SRTP setting of a call.
pub open spec fn srtp_of(option: CallOption) -> Option<bool> {
    match option.sip {
        Some(sip) => sip.enable_srtp,
        None => None,
    }
}

/// The IPv6 candidates leave, unless the call asks for IPv6.
pub open spec fn strips_ipv6(option: CallOption) -> bool {
    option.enable_ipv6 != Some(true)
}

/// A leg that was answered with these words.
pub open spec fn answered_leg(leg: LegView, answer: Option<Seq<char>>, now: Timestamp) -> LegView {
    LegView { progress: ProgressView { answer, ..leg.progress.answered(now) }, ..leg }
}

/// A leg was answered with these words, at some time.
pub open spec fn answered_now(before: LegView, answer: Option<Seq<char>>, after: LegView) -> bool {
    exists|now: Timestamp|
        now.wf() && clock::is_reading(now) && after == #[trigger] answered_leg(before, answer, now)
}

/// A leg that is dialled with an offer.
pub open spec fn dialled_leg(leg: LegView, offer: String, now: Timestamp) -> LegView {
    LegView { progress: leg.progress.updated(ProgressUpdate::Dialled { offer, now }), ..leg }
}

/// A leg is dialled with an offer, at some time.
pub open spec fn dialled_now(before: LegView, offer: String, after: LegView) -> bool {
    exists|now: Timestamp|
        now.wf() && clock::is_reading(now) && after == #[trigger] dialled_leg(before, offer, now)
}

/// A number of seconds as a span of time.
pub open spec fn opt_secs(t: Option<u64>) -> Option<TimeSpan> {
    match t {
        Some(secs) => Some(TimeSpan { secs, nanos: 0 }),
        None => None,
    }
}

impl RtcTrackConfig {
    /// Settings in which nothing is set.
    pub open spec fn unset(self, mode: TransportMode) -> bool {
        &&& self.mode == mode
        &&& self.codecs@.len() == 0
        &&& self.preferred_codec is None && self.rtp_port_range is None
        &&& self.external_ip is None && self.bind_ip is None
        &&& self.enable_latching is None && self.enable_ice_lite is None
        &&& self.ice_servers is None
    }

    /// Settings in which nothing is set.
    pub fn new(mode: TransportMode) -> (r: Self)
        ensures
            r.unset(mode),
    {
        RtcTrackConfig {
            mode,
            codecs: Vec::new(),
            preferred_codec: None,
            rtp_port_range: None,
            external_ip: None,
            bind_ip: None,
            enable_latching: None,
            enable_ice_lite: None,
            ice_servers: None,
        }
    }
}

impl ActiveCall {
    /// The codecs that the node is told to use.
    pub open spec fn configured_codecs(&self) -> Seq<CodecType> {
        match self.config.codecs {
            Some(names) => codecs_of(names@),
            None => Seq::empty(),
        }
    }

    /// The settings with which the call was set up.
    pub open spec fn option_in(&self, legs: LegTable) -> Option<CallOption> {
        self.leg.state(legs).progress.option
    }

    /// The ICE-lite setting: that of the call, else that of the node.
    pub open spec fn ice_lite(&self, legs: LegTable) -> Option<bool> {
        match self.option_in(legs) {
            Some(o) => crate::media::ambiance::or_else(
                o.enable_ice_lite,
                self.config.enable_ice_lite,
            ),
            None => self.config.enable_ice_lite,
        }
    }

    /// Takes over the codecs that the node is told to use, where there are any.
    pub fn rtc_apply_codecs(&self, rtc_config: &mut RtcTrackConfig)
        ensures
            self.config.codecs matches Some(names) ==> lowered_plainly(names@),
            *final(rtc_config) == (RtcTrackConfig {
                codecs: final(rtc_config).codecs,
                preferred_codec: final(rtc_config).preferred_codec,
                ..*old(rtc_config)
            }),
            ({
                let list = self.configured_codecs();
                if list.len() > 0 {
                    &&& final(rtc_config).codecs@ == list
                    &&& final(rtc_config).preferred_codec == Some(list[0])
                } else {
                    *final(rtc_config) == *old(rtc_config)
                }
            }),
    {
        if let Some(names) = &self.config.codecs {
            let list: Vec<CodecType> = codec_list(names);
            if list.len() != 0 {
                rtc_config.preferred_codec = Some(list[0]);
                rtc_config.codecs = list;
            }
        }
    }

    /// Takes over the addresses that the node is told to use.
    pub fn rtc_apply_network(&self, rtc_config: &mut RtcTrackConfig)
        ensures
            *final(rtc_config) == (RtcTrackConfig {
                external_ip: crate::media::ambiance::or_else(
                    self.config.external_ip,
                    old(rtc_config).external_ip,
                ),
                bind_ip: crate::media::ambiance::or_else(
                    self.config.rtp_bind_ip,
                    old(rtc_config).bind_ip,
                ),
                ..*old(rtc_config)
            }),
    {
        if let Some(ip) = &self.config.external_ip {
            rtc_config.external_ip = Some(ip.clone());
        }
        if let Some(ip) = &self.config.rtp_bind_ip {
            rtc_config.bind_ip = Some(ip.clone());
        }
    }

    /// Takes over the settings for latching and ICE-lite.
    pub fn rtc_apply_latching(&self, legs: &LegTable, rtc_config: &mut RtcTrackConfig)
        requires
            self.leg.held(*legs),
        ensures
            *final(rtc_config) == (RtcTrackConfig {
                enable_latching: self.config.enable_rtp_latching,
                enable_ice_lite: self.ice_lite(*legs),
                ..*old(rtc_config)
            }),
    {
        rtc_config.enable_latching = self.config.enable_rtp_latching;
        let own: Option<bool> = match &legs.legs[self.leg.place].progress.option {
            Some(o) => o.enable_ice_lite,
            None => None,
        };
        rtc_config.enable_ice_lite = match own {
            Some(b) => Some(b),
            None => self.config.enable_ice_lite,
        };
    }

    /// A track that plays a file where the node is heard.
    pub fn make_file_track(&self, path: String, ssrc: u32) -> (r: FileTrack)
        ensures
            r == (FileTrack {
                track_id: self.server_side_track_id,
                play_id: Some(path),
                ssrc,
                path,
            }),
    {
        FileTrack {
            track_id: self.server_side_track_id.clone(),
            play_id: Some(path.clone()),
            ssrc,
            path,
        }
    }

    /// The event that reports that the other side refused; other failures are
    /// not reported.
    pub fn emit_reject_from_rsip_error(
        &self,
        track_id: String,
        refer: bool,
        e: &SipError,
        timestamp: u64,
    ) -> (r: Option<SessionEvent>)
        ensures
            match *e {
                SipError::DialogError { reason, code, .. } => r is Some && r->0@ == (
                SessionEventView::Reject {
                    track_id: track_id@,
                    timestamp,
                    reason: reason@,
                    code: Some(code as u32),
                    refer: Some(refer),
                }),
                SipError::Error { .. } => r is None,
            },
    {
        match e {
            SipError::DialogError { reason, dialog_id: _, code } => Some(
                SessionEvent::Reject {
                    track_id,
                    timestamp,
                    reason: reason.clone(),
                    code: Some(*code as u32),
                    refer: Some(refer),
                },
            ),
            SipError::Error { .. } => None,
        }
    }

    /// The dialog of this call that waits to be accepted, taken out of those
    /// that wait.
    pub fn try_prepare_incoming_sip_track(&self, invitation: &mut Invitation) -> (r: Option<
        (DialogId, u64),
    >)
        requires
            old(invitation).wf(),
        ensures
            final(invitation).wf(),
            match r {
                Some((id, number)) => {
                    &&& id.text_of() == self.session_id@
                    &&& old(invitation).pending(&id)
                    &&& number == old(invitation).number_of(&id)
                    &&& !final(invitation).pending(&id)
                    &&& forall|other: DialogId|
                        !#[trigger] other.same(&id) ==> final(invitation).pending(&other) == old(
                            invitation,
                        ).pending(&other) && (old(invitation).pending(&other)
                            ==> final(invitation).number_of(&other) == old(invitation).number_of(
                            &other,
                        ))
                },
                None => {
                    &&& *final(invitation) == *old(invitation)
                    &&& forall|i: int|
                        0 <= i < old(invitation).pending_dialogs@.len() ==> (#[trigger] old(
                            invitation,
                        ).pending_dialogs@[i]).0.text_of() != self.session_id@
                },
            },
    {
        invitation.take_by_session_id(self.session_id.as_str())
    }

    /// The settings of a track for a SIP call.
    pub open spec fn rtp_config(
        &self,
        legs: LegTable,
        enable_srtp: Option<bool>,
        c: RtcTrackConfig,
    ) -> bool {
        let list = self.configured_codecs();
        &&& c.mode == if crate::media::ambiance::or_else(enable_srtp, self.config.enable_srtp)
            == Some(true) {
            TransportMode::Srtp
        } else {
            TransportMode::Rtp
        }
        &&& c.codecs@ == list
        &&& c.preferred_codec == Some(
            if list.len() > 0 {
                list[0]
            } else {
                self.codec
            },
        )
        &&& c.rtp_port_range == match (self.config.rtp_start_port, self.config.rtp_end_port) {
            (Some(a), Some(b)) => Some((a, b)),
            _ => None,
        }
        &&& c.external_ip == self.config.external_ip
        &&& c.bind_ip == self.config.rtp_bind_ip
        &&& c.enable_latching == self.config.enable_rtp_latching
        &&& c.enable_ice_lite == self.ice_lite(legs)
        &&& c.ice_servers is None
    }

    /// A track for a SIP call; the setting of the call goes before that of the
    /// node.
    pub fn create_rtp_track(
        &self,
        legs: &LegTable,
        track_id: String,
        ssrc: u32,
        enable_srtp: Option<bool>,
    ) -> (r: RtcTrackPlan)
        requires
            self.leg.held(*legs),
        ensures
            self.config.codecs matches Some(names) ==> lowered_plainly(names@),
            r.track_id == track_id,
            r.ssrc == ssrc,
            self.rtp_config(*legs, enable_srtp, r.config),
    {
        let wanted: Option<bool> = match enable_srtp {
            Some(b) => Some(b),
            None => self.config.enable_srtp,
        };
        let use_srtp: bool = match wanted {
            Some(b) => b,
            None => false,
        };
        let mut rtc_config: RtcTrackConfig = RtcTrackConfig::new(
            if use_srtp {
                TransportMode::Srtp
            } else {
                TransportMode::Rtp
            },
        );
        self.rtc_apply_codecs(&mut rtc_config);
        assert(rtc_config.codecs@ =~= self.configured_codecs());
        if rtc_config.preferred_codec.is_none() {
            rtc_config.preferred_codec = Some(self.codec);
        }
        rtc_config.rtp_port_range =
        match (self.config.rtp_start_port, self.config.rtp_end_port) {
            (Some(a), Some(b)) => Some((a, b)),
            _ => None,
        };
        self.rtc_apply_network(&mut rtc_config);
        self.rtc_apply_latching(legs, &mut rtc_config);
        RtcTrackPlan { track_id, ssrc, config: rtc_config }
    }

    /// The processors that were made for a track, as members of its chain.
    pub open spec fn stream_processors(made: Option<Vec<u64>>) -> Seq<ChainProcessor> {
        match made {
            Some(ids) => Seq::new(
                ids@.len(),
                |i: int| ChainProcessor::External { tag: STREAM_TAG, id: ids@[i] },
            ),
            None => Seq::empty(),
        }
    }

    /// Puts the processors that were made for a track behind its others; where
    /// they could not be made, the track goes without.
    pub fn setup_track_with_stream(
        &self,
        chains: &mut ChainTable,
        track: &TrackEntry,
        made: Option<Vec<u64>>,
    )
        requires
            track.chain.held(old(chains)@),
        ensures
            final(chains)@ == processor::rechained(
                old(chains)@,
                track.chain.place as int,
                track.chain.seen(old(chains)@).processors + Self::stream_processors(made),
            ),
    {
        let ghost before = chains@;
        let ghost own = track.chain.seen(before).processors;
        let ghost place = track.chain.place as int;
        if let Some(ids) = made {
            let ghost all = Self::stream_processors(made);
            let n: usize = ids.len();
            let mut i: usize = 0;
            assert(own + all.take(0) =~= own);
            assert(before =~= processor::rechained(before, place, own));
            while i < n
                invariant
                    0 <= i <= n,
                    n == ids@.len(),
                    made == Some(ids),
                    all == Self::stream_processors(made),
                    place == track.chain.place,
                    place < before.len(),
                    own == track.chain.seen(before).processors,
                    chains@ == processor::rechained(before, place, own + all.take(i as int)),
                decreases n - i,
            {
                track.chain.append_processor(
                    chains,
                    ChainProcessor::External { tag: STREAM_TAG, id: ids[i] },
                );
                assert((own + all.take(i as int)).push(all[i as int]) =~= own + all.take(i + 1));
                assert(chains@ =~= processor::rechained(before, place, own + all.take(i + 1)));
                i = i + 1;
            }
            assert(all.take(n as int) =~= all);
        } else {
            assert(own + Self::stream_processors(made) =~= own);
            assert(before =~= processor::rechained(before, place, own));
        }
    }

    /// The background sound of the call: what the call leaves open comes from
    /// the node.
    pub fn ambiance_option(&self, legs: &LegTable) -> (r: AmbianceOption)
        requires
            self.leg.held(*legs),
        ensures
            r == self.ambiance_of(*legs),
    {
        let mut opt: AmbianceOption = match &legs.legs[self.leg.place].progress.option {
            Some(o) => match &o.ambiance {
                Some(a) => a.clone(),
                None => AmbianceOption::default(),
            },
            None => AmbianceOption::default(),
        };
        if let Some(global) = &self.config.ambiance {
            opt.merge(global);
        }
        opt
    }

    /// The background sound that the call itself asks for.
    pub open spec fn own_ambiance(&self, legs: LegTable) -> AmbianceOption {
        match self.option_in(legs) {
            Some(CallOption { ambiance: Some(a), .. }) => a,
            _ => AmbianceOption {
                path: None,
                duck_level: None,
                normal_level: None,
                transition_speed: None,
                enabled: None,
            },
        }
    }

    /// The background sound of the call: what the call leaves open comes from
    /// the node.
    pub open spec fn ambiance_of(&self, legs: LegTable) -> AmbianceOption {
        let own = self.own_ambiance(legs);
        match self.config.ambiance {
            Some(g) => AmbianceOption {
                path: crate::media::ambiance::or_else(own.path, g.path),
                duck_level: crate::media::ambiance::or_else(own.duck_level, g.duck_level),
                normal_level: crate::media::ambiance::or_else(own.normal_level, g.normal_level),
                transition_speed: crate::media::ambiance::or_else(
                    own.transition_speed,
                    g.transition_speed,
                ),
                enabled: crate::media::ambiance::or_else(own.enabled, g.enabled),
            },
            None => own,
        }
    }

    /// The client gets the audio of the call.
    pub open spec fn subscribes(&self, legs: LegTable) -> bool {
        &&& self.option_in(legs) matches Some(o) && o.subscribe == Some(true)
        &&& self.call_type != ActiveCallType::WebSocket
    }

    /// The processors that a track of the call gets behind its own: the
    /// background sound where the node is heard, and a copy for the client.
    pub open spec fn added_processors(
        &self,
        legs: LegTable,
        track_id: Seq<char>,
        ambiance: Option<u64>,
    ) -> Seq<ChainProcessor> {
        let server_side = track_id == self.server_side_track_id@;
        let sound = match ambiance {
            Some(id) if server_side => seq![ChainProcessor::External { tag: AMBIANCE_TAG, id }],
            _ => Seq::empty(),
        };
        let copy = if !self.subscribes(legs) {
            Seq::empty()
        } else if server_side {
            seq![
                ChainProcessor::Subscribe(
                    SubscribeProcessor { track_id: self.server_side_track_id, track_index: 0 },
                ),
            ]
        } else {
            seq![
                ChainProcessor::Subscribe(
                    SubscribeProcessor { track_id: self.session_id, track_index: 1 },
                ),
            ]
        };
        sound + copy
    }

    /// Readies a track for the stream, with the background sound that was
    /// loaded, and notes what is played.
    pub fn update_track_wrapper(
        &mut self,
        legs: &LegTable,
        chains: &mut ChainTable,
        track: &TrackEntry,
        play_id: Option<String>,
        ambiance: Option<u64>,
    )
        requires
            old(self).leg.held(*legs),
            track.chain.held(old(chains)@),
        ensures
            *final(self) == (ActiveCall { current_play: play_id, ..*old(self) }),
            final(chains)@ == processor::rechained(
                old(chains)@,
                track.chain.place as int,
                track.chain.seen(old(chains)@).processors + old(self).added_processors(
                    *legs,
                    track@.track_id,
                    ambiance,
                ),
            ),
    {
        let ghost before = chains@;
        let ghost own = track.chain.seen(before).processors;
        let ghost added = self.added_processors(*legs, track@.track_id, ambiance);
        let server_side: bool = text::str_eq(
            track.track_id.as_str(),
            self.server_side_track_id.as_str(),
        );
        if server_side {
            if let Some(id) = ambiance {
                track.chain.append_processor(
                    chains,
                    ChainProcessor::External { tag: AMBIANCE_TAG, id },
                );
            }
        }
        let subscribe: bool = match &legs.legs[self.leg.place].progress.option {
            Some(o) => match o.subscribe {
                Some(b) => b,
                None => false,
            },
            None => false,
        };
        if subscribe && self.call_type != ActiveCallType::WebSocket {
            let processor: SubscribeProcessor = if server_side {
                SubscribeProcessor { track_id: self.server_side_track_id.clone(), track_index: 0 }
            } else {
                SubscribeProcessor { track_id: self.session_id.clone(), track_index: 1 }
            };
            track.chain.append_processor(chains, ChainProcessor::Subscribe(processor));
        }
        assert(track.chain.seen(chains@).processors =~= own + added);
        assert(chains@ =~= processor::rechained(before, track.chain.place as int, own + added));
        self.current_play = play_id;
    }

    /// The codec of a track over the client's own connection. The call is
    /// answered without a session description.
    pub fn create_websocket_track(&self, legs: &mut LegTable) -> (r: String)
        requires
            self.leg.held(*old(legs)),
        ensures
            r@ == match self.option_in(*old(legs)) {
                Some(o) => o.codec@,
                None => Seq::empty(),
            },
            answered_now(
                self.leg.seen(*old(legs)),
                Some(Seq::empty()),
                self.leg.seen(*final(legs)),
            ),
            state::only_leg(*old(legs), *final(legs), self.leg.place),
    {
        let now: Timestamp = clock::utc_now();
        let codec: String = self.create_websocket_track_at(legs, now);
        assert(self.leg.seen(*legs) == answered_leg(
            self.leg.seen(*old(legs)),
            Some(Seq::empty()),
            now,
        ));
        codec
    }

    /// The codec of a track over the client's own connection. The call is
    /// answered, as of `now`, without a session description.
    pub fn create_websocket_track_at(&self, legs: &mut LegTable, now: Timestamp) -> (r: String)
        requires
            self.leg.held(*old(legs)),
        ensures
            r@ == match self.option_in(*old(legs)) {
                Some(o) => o.codec@,
                None => Seq::empty(),
            },
            self.leg.seen(*final(legs)) == answered_leg(
                self.leg.seen(*old(legs)),
                Some(Seq::empty()),
                now,
            ),
            state::only_leg(*old(legs), *final(legs), self.leg.place),
    {
        let codec: String = match &legs.legs[self.leg.place].progress.option {
            Some(o) => o.codec.clone(),
            None => String::new(),
        };
        self.leg.update_progress(
            legs,
            ProgressUpdate::Answered { answer: Some(String::new()), now },
        );
        codec
    }

    /// The settings of a track for a browser, without those for codecs and
    /// latching.
    fn webrtc_config(&self) -> (r: RtcTrackConfig)
        ensures
            r.mode == TransportMode::WebRtc,
            config::opt_ice(r.ice_servers) == config::opt_ice(self.config.ice_servers),
            r.codecs@.len() == 0,
            r.preferred_codec is None,
            r.rtp_port_range is None,
            r.external_ip == self.config.external_ip,
            r.bind_ip == self.config.rtp_bind_ip,
            r.enable_latching is None,
            r.enable_ice_lite is None,
    {
        let mut rtc_config: RtcTrackConfig = RtcTrackConfig::new(TransportMode::WebRtc);
        rtc_config.ice_servers = config::copy_ice(&self.config.ice_servers);
        self.rtc_apply_network(&mut rtc_config);
        rtc_config
    }

    /// A track for a browser, and the offer that it gets.
    pub fn create_webrtc_track(&self, legs: &LegTable) -> (r: WebrtcPlan)
        requires
            self.leg.held(*legs),
        ensures
            self.config.codecs matches Some(names) ==> lowered_plainly(names@),
            r.track.track_id == self.session_id,
            r.track.ssrc == self.ssrc,
            ({
                let c = r.track.config;
                let list = self.configured_codecs();
                &&& c.mode == TransportMode::WebRtc
                &&& config::opt_ice(c.ice_servers) == config::opt_ice(self.config.ice_servers)
                &&& c.codecs@ == list
                &&& c.preferred_codec == if list.len() > 0 {
                    Some(list[0])
                } else {
                    None
                }
                &&& c.rtp_port_range is None
                &&& c.external_ip == self.config.external_ip
                &&& c.bind_ip == self.config.rtp_bind_ip
                &&& c.enable_latching is None
                &&& c.enable_ice_lite is None
            }),
            match self.option_in(*legs) {
                Some(o) => {
                    &&& r.timeout == opt_secs(o.handshake_timeout)
                    &&& r.offer@ == state::text_or_empty(o.offer)
                    &&& r.strip_ipv6 == strips_ipv6(o)
                },
                None => r.timeout is None && r.offer@.len() == 0 && r.strip_ipv6,
            },
    {
        let mut rtc_config: RtcTrackConfig = self.webrtc_config();
        self.rtc_apply_codecs(&mut rtc_config);
        assert(rtc_config.codecs@ =~= self.configured_codecs());
        let track: RtcTrackPlan = RtcTrackPlan {
            track_id: self.session_id.clone(),
            ssrc: self.ssrc,
            config: rtc_config,
        };
        match &legs.legs[self.leg.place].progress.option {
            Some(o) => WebrtcPlan {
                track,
                timeout: handshake_timeout(o),
                offer: match &o.offer {
                    Some(offer) => offer.clone(),
                    None => String::new(),
                },
                strip_ipv6: strip_ipv6(o),
            },
            None => WebrtcPlan { track, timeout: None, offer: String::new(), strip_ipv6: true },
        }
    }

    /// What comes of the handshake with a browser: the call is answered, or the
    /// failure is put in words.
    pub fn webrtc_answered(&self, legs: &mut LegTable, answer: Result<String, String>) -> (r: Result<
        (),
        String,
    >)
        requires
            self.leg.held(*old(legs)),
        ensures
            match answer {
                Ok(sdp) => {
                    &&& r is Ok
                    &&& answered_now(
                        self.leg.seen(*old(legs)),
                        Some(sdp@),
                        self.leg.seen(*final(legs)),
                    )
                    &&& state::only_leg(*old(legs), *final(legs), self.leg.place)
                },
                Err(e) => {
                    &&& r is Err && r->Err_0@ == "Failed to setup track: "@ + e@
                    &&& *final(legs) == *old(legs)
                },
            },
    {
        let now: Timestamp = clock::utc_now();
        let ghost words = answer;
        let r: Result<(), String> = self.webrtc_answered_at(legs, answer, now);
        assert(words matches Ok(sdp) ==> self.leg.seen(*legs) == answered_leg(
            self.leg.seen(*old(legs)),
            Some(sdp@),
            now,
        ));
        r
    }

    /// What comes of the handshake with a browser: the call is answered, as of
    /// `now`, or the failure is put in words.
    pub fn webrtc_answered_at(
        &self,
        legs: &mut LegTable,
        answer: Result<String, String>,
        now: Timestamp,
    ) -> (r: Result<(), String>)
        requires
            self.leg.held(*old(legs)),
        ensures
            match answer {
                Ok(sdp) => {
                    &&& r is Ok
                    &&& self.leg.seen(*final(legs)) == answered_leg(
                        self.leg.seen(*old(legs)),
                        Some(sdp@),
                        now,
                    )
                    &&& state::only_leg(*old(legs), *final(legs), self.leg.place)
                },
                Err(e) => {
                    &&& r is Err && r->Err_0@ == "Failed to setup track: "@ + e@
                    &&& *final(legs) == *old(legs)
                },
            },
    {
        match answer {
            Ok(sdp) => {
                self.leg.update_progress(
                    legs,
                    ProgressUpdate::Answered { answer: Some(sdp), now },
                );
                Ok(())
            },
            Err(e) => Err(text::concat2("Failed to setup track: ", e.as_str())),
        }
    }

    /// The first step of an outgoing call: the trunk rules rewrite it, and its
    /// track is planned.
    pub fn create_outgoing_sip_track(
        &self,
        legs: &LegTable,
        ssrc: u32,
        track_id: &String,
        invite_option: &mut InviteOption,
        call_option: &CallOption,
    ) -> (r: RtcTrackPlan)
        requires
            self.leg.held(*legs),
        ensures
            self.config.codecs matches Some(names) ==> lowered_plainly(names@),
            final(invite_option)@ == match self.config.trunk_rules {
                Some(rules) => crate::config::trunk::trunk_applied(rules@, old(invite_option)@),
                None => old(invite_option)@,
            },
            r.track_id == *track_id,
            r.ssrc == ssrc,
            self.rtp_config(*legs, srtp_of(*call_option), r.config),
    {
        self.config.apply_trunk_rules(invite_option);
        self.create_rtp_track(legs, track_id.clone(), ssrc, srtp_setting(call_option))
    }

    /// The second step of an outgoing call: its track made an offer.
    pub fn outgoing_offer(
        legs: &mut LegTable,
        leg: &LegShared,
        invite_option: &mut InviteOption,
        offer: String,
    )
        requires
            leg.held(*old(legs)),
        ensures
            dialled_now(leg.seen(*old(legs)), offer, leg.seen(*final(legs))),
            state::only_leg(*old(legs), *final(legs), leg.place),
            final(invite_option)@ == (crate::config::trunk::InviteView {
                offer: Some(vstd::utf8::encode_utf8(offer@)),
                ..old(invite_option)@
            }),
    {
        let now: Timestamp = clock::utc_now();
        let ghost words = offer;
        Self::outgoing_offer_at(legs, leg, invite_option, offer, now);
        assert(leg.seen(*legs) == dialled_leg(leg.seen(*old(legs)), words, now));
    }

    /// The second step of an outgoing call: its track made an offer, as of
    /// `now`.
    pub fn outgoing_offer_at(
        legs: &mut LegTable,
        leg: &LegShared,
        invite_option: &mut InviteOption,
        offer: String,
        now: Timestamp,
    )
        requires
            leg.held(*old(legs)),
        ensures
            leg.seen(*final(legs)) == dialled_leg(leg.seen(*old(legs)), offer, now),
            state::only_leg(*old(legs), *final(legs), leg.place),
            final(invite_option)@ == (crate::config::trunk::InviteView {
                offer: Some(vstd::utf8::encode_utf8(offer@)),
                ..old(invite_option)@
            }),
    {
        let bytes: Vec<u8> = offer.as_str().as_bytes_vec();
        leg.update_progress(legs, ProgressUpdate::Dialled { offer, now });
        invite_option.offer = Some(bytes);
    }

    /// The third step of an outgoing call: its contact. A contact that others
    /// cannot reach is made anew, for the user of the contact or else of the
    /// caller; that takes a local address for the callee's transport.
    pub fn outgoing_contact(
        invite_option: &InviteOption,
        needs_contact: bool,
        has_local_addr: bool,
        callee_text: &str,
    ) -> (r: Result<ContactStep, SipError>)
        ensures
            if !needs_contact {
                r == Ok::<ContactStep, SipError>(ContactStep::Keep)
            } else if has_local_addr {
                &&& r matches Ok(ContactStep::Build { user })
                &&& text::opt_view(user) == match (
                    invite_option@.contact.auth,
                    invite_option@.caller.auth,
                ) {
                    (Some(a), _) => Some(a.0),
                    (None, Some(a)) => Some(a.0),
                    (None, None) => None,
                }
            } else {
                r is Err && r->Err_0@ == (SipErrorView::Error {
                    message: "missing local SIP address for callee transport: "@ + callee_text@,
                })
            },
    {
        if !needs_contact {
            return Ok(ContactStep::Keep);
        }
        if !has_local_addr {
            return Err(
                SipError::Error {
                    message: text::concat2(
                        "missing local SIP address for callee transport: ",
                        callee_text,
                    ),
                },
            );
        }
        let user: Option<String> = match &invite_option.contact.auth {
            Some(auth) => Some(auth.user.clone()),
            None => match &invite_option.caller.auth {
                Some(auth) => Some(auth.user.clone()),
                None => None,
            },
        };
        Ok(ContactStep::Build { user })
    }

    /// The fourth step of an outgoing call, given a number for the stream of
    /// the music.
    pub fn outgoing_music_with(&mut self, moh: Option<String>, ssrc: u32) -> (r: MusicStep)
        ensures
            match moh {
                Some(path) => {
                    &&& *final(self) == (ActiveCall { moh: Some(path), ..*old(self) })
                    &&& r == if old(self).current_play is None {
                        MusicStep::Play {
                            track: FileTrack {
                                track_id: old(self).server_side_track_id,
                                play_id: Some(path),
                                ssrc,
                                path,
                            },
                        }
                    } else {
                        MusicStep::Wait
                    }
                },
                None => *final(self) == *old(self) && r == MusicStep::SetUpTrack,
            },
    {
        match moh {
            Some(path) => {
                self.moh = Some(path.clone());
                if self.current_play.is_none() {
                    MusicStep::Play { track: self.make_file_track(path, ssrc) }
                } else {
                    MusicStep::Wait
                }
            },
            None => MusicStep::SetUpTrack,
        }
    }

    /// The fourth step of an outgoing call: what is heard while it rings. Music
    /// starts at once, unless something else plays.
    pub fn outgoing_music(&mut self, moh: Option<String>) -> (r: MusicStep)
        ensures
            match moh {
                Some(path) => {
                    &&& *final(self) == (ActiveCall { moh: Some(path), ..*old(self) })
                    &&& if old(self).current_play is None {
                        r matches MusicStep::Play { track } && track == (FileTrack {
                            track_id: old(self).server_side_track_id,
                            play_id: Some(path),
                            ssrc: track.ssrc,
                            path,
                        }) && crate::chance::is_drawn_number(track.ssrc)
                    } else {
                        r == MusicStep::Wait
                    }
                },
                None => *final(self) == *old(self) && r == MusicStep::SetUpTrack,
            },
    {
        let ssrc: u32 = random_ssrc();
        self.outgoing_music_with(moh, ssrc)
    }

    /// The fifth step of an outgoing call: it was accepted. The music ends, and
    /// the track is set up where that waited for the music.
    pub fn outgoing_accepted(&mut self, had_music: bool) -> (r: AnsweredStep)
        ensures
            *final(self) == (ActiveCall { moh: None, ..*old(self) }),
            r.set_up_track == had_music,
            match r.remove {
                Some(command) => had_music && command@ == (TrackCommandView::RemoveTrack {
                    track_id: old(self).server_side_track_id@,
                    graceful: false,
                }),
                None => !had_music,
            },
    {
        self.moh = None;
        AnsweredStep {
            remove: if had_music {
                Some(
                    TrackCommand::RemoveTrack {
                        track_id: self.server_side_track_id.clone(),
                        graceful: false,
                    },
                )
            } else {
                None
            },
            set_up_track: had_music,
        }
    }

    /// The last step of an outgoing call: its answer, and the command that hands
    /// it to the track where the track does not have it yet.
    pub fn outgoing_answer(
        legs: &mut LegTable,
        leg: &LegShared,
        track_id: &String,
        dialog_id: DialogId,
        body: Option<Vec<u8>>,
    ) -> (r: Result<(String, Option<TrackCommand>), SipError>)
        requires
            leg.held(*old(legs)),
        ensures
            body matches Some(bytes) ==> state::read_plainly(bytes@),
            match state::final_answer(state::body_text(body), leg.seen(*old(legs)).progress.answer) {
                Some((answer, applied)) => {
                    &&& r is Ok
                    &&& r->Ok_0.0@ == answer
                    &&& match r->Ok_0.1 {
                        Some(command) => !applied && command@ == (
                        TrackCommandView::UpdateRemoteDescription {
                            track_id: track_id@,
                            answer,
                            force: false,
                        }),
                        None => applied,
                    }
                    &&& leg.seen(*final(legs)) == (LegView {
                        progress: leg.seen(*old(legs)).progress.with_answer(answer),
                        ..leg.seen(*old(legs))
                    })
                    &&& state::only_leg(*old(legs), *final(legs), leg.place)
                },
                None => {
                    &&& r is Err && r->Err_0@ == (SipErrorView::DialogError {
                        reason: "No answer received"@,
                        dialog_id: dialog_id@,
                        code: crate::sip::NOT_ACCEPTABLE_HERE,
                    })
                    &&& *final(legs) == *old(legs)
                },
            },
    {
        let early: Option<String> = legs.legs[leg.place].progress.answer.clone();
        match state::resolve_final_answer(body, early.as_ref()) {
            Ok((answer, applied)) => {
                leg.update_progress(legs, ProgressUpdate::Answer { sdp: answer.clone() });
                let command: Option<TrackCommand> = if applied {
                    None
                } else {
                    Some(
                        TrackCommand::UpdateRemoteDescription {
                            track_id: track_id.clone(),
                            answer: answer.clone(),
                            force: false,
                        },
                    )
                };
                Ok((answer, command))
            },
            Err(_) => Err(
                SipError::DialogError {
                    reason: "No answer received".to_string(),
                    dialog_id,
                    code: crate::sip::NOT_ACCEPTABLE_HERE,
                },
            ),
        }
    }

    /// Whether a session description is one that browsers send.
    pub fn is_webrtc_sdp(sdp: &str) -> (r: bool)
        ensures
            r == webrtc_sdp(sdp@),
    {
        (text::contains(sdp, "a=ice-ufrag:") || text::contains(sdp, "a=ice-pwd:"))
            && text::contains(sdp, "a=fingerprint:")
    }

    /// The track that answers an offer, and how long its handshake may take.
    /// IPv6 candidates have left the offer where they are to leave.
    pub fn setup_answer_track(
        &self,
        legs: &LegTable,
        ssrc: u32,
        option: &CallOption,
        offer: &str,
    ) -> (r: (RtcTrackPlan, Option<TimeSpan>))
        requires
            self.leg.held(*legs),
        ensures
            !webrtc_sdp(offer@) ==> (self.config.codecs matches Some(names) ==> lowered_plainly(
                names@,
            )),
            r.1 == opt_secs(option.handshake_timeout),
            r.0.track_id == self.session_id,
            r.0.ssrc == ssrc,
            if webrtc_sdp(offer@) {
                let c = r.0.config;
                &&& c.mode == TransportMode::WebRtc
                &&& config::opt_ice(c.ice_servers) == config::opt_ice(self.config.ice_servers)
                &&& c.codecs@.len() == 0 && c.preferred_codec is None
                &&& c.rtp_port_range is None
                &&& c.external_ip == self.config.external_ip
                &&& c.bind_ip == self.config.rtp_bind_ip
                &&& c.enable_latching == self.config.enable_rtp_latching
                &&& c.enable_ice_lite == self.ice_lite(*legs)
            } else {
                self.rtp_config(*legs, srtp_of(*option), r.0.config)
            },
    {
        let timeout: Option<TimeSpan> = handshake_timeout(option);
        if Self::is_webrtc_sdp(offer) {
            let mut rtc_config: RtcTrackConfig = self.webrtc_config();
            self.rtc_apply_latching(legs, &mut rtc_config);
            let track: RtcTrackPlan = RtcTrackPlan {
                track_id: self.session_id.clone(),
                ssrc,
                config: rtc_config,
            };
            (track, timeout)
        } else {
            let track: RtcTrackPlan = self.create_rtp_track(
                legs,
                self.session_id.clone(),
                ssrc,
                srtp_setting(option),
            );
            (track, timeout)
        }
    }

    /// The event that reports an incoming call, given the URIs that were read in
    /// its `From` and `To` headers. Headers that SIP does not name itself are
    /// passed on.
    pub fn incoming_event(
        &self,
        caller: Option<String>,
        callee: Option<String>,
        body: &Vec<u8>,
        headers: &Vec<Header>,
        timestamp: u64,
    ) -> (r: SessionEvent)
        ensures
            state::read_plainly(body@),
            r@ == self.incoming_of(
                text::opt_view(caller),
                text::opt_view(callee),
                body@,
                headers@,
                timestamp,
            ),
    {
        let passed: StringMap = other_header_map(headers);
        SessionEvent::Incoming {
            track_id: self.session_id.clone(),
            timestamp,
            caller: match caller {
                Some(c) => c,
                None => String::new(),
            },
            callee: match callee {
                Some(c) => c,
                None => String::new(),
            },
            sdp: state::utf8_lossy(body),
            headers: if passed.is_empty() {
                None
            } else {
                Some(passed)
            },
        }
    }

    /// The event that reports an incoming call.
    pub open spec fn incoming_of(
        &self,
        caller: Option<Seq<char>>,
        callee: Option<Seq<char>>,
        body: Seq<u8>,
        headers: Seq<Header>,
        timestamp: u64,
    ) -> SessionEventView {
        SessionEventView::Incoming {
            track_id: self.session_id@,
            timestamp,
            caller: match caller {
                Some(c) => c,
                None => Seq::empty(),
            },
            callee: match callee {
                Some(c) => c,
                None => Seq::empty(),
            },
            sdp: state::lossy_text(body),
            headers: if other_pairs(headers).len() == 0 {
                None
            } else {
                Some(other_pairs(headers))
            },
        }
    }

    /// The event that reports an incoming call. Its caller and its callee are the
    /// URIs in the first `From` and `To` headers; where one cannot be read, the
    /// event names none.
    pub fn prepare_incoming_sip_track(
        &self,
        body: &Vec<u8>,
        headers: &Vec<Header>,
        timestamp: u64,
    ) -> (r: SessionEvent)
        ensures
            state::read_plainly(body@),
            r@ == self.incoming_of(
                caller_in(headers@),
                callee_in(headers@),
                body@,
                headers@,
                timestamp,
            ),
    {
        let caller: Option<String> = match sip::find_value(headers, HeaderName::From) {
            Some(value) => sip::from_uri(value.as_str()),
            None => None,
        };
        let callee: Option<String> = match sip::find_value(headers, HeaderName::To) {
            Some(value) => sip::to_uri(value.as_str()),
            None => None,
        };
        self.incoming_event(caller, callee, body, headers, timestamp)
    }
}

/// The URI of the caller among the headers of a request.
pub open spec fn caller_in(headers: Seq<Header>) -> Option<Seq<char>> {
    match sip::first_value(headers, HeaderName::From) {
        Some(value) => sip::from_uri_in(value),
        None => None,
    }
}

/// The URI of the callee among the headers of a request.
pub open spec fn callee_in(headers: Seq<Header>) -> Option<Seq<char>> {
    match sip::first_value(headers, HeaderName::To) {
        Some(value) => sip::to_uri_in(value),
        None => None,
    }
}

/// What comes of the track for an incoming call: it waits to be accepted, or
/// the failure is put in words.
pub fn incoming_ready(
    runtime: &mut CallRuntime,
    answer: Result<String, String>,
    dialog_id: DialogId,
) -> (r: Result<(), String>)
    ensures
        match answer {
            Ok(sdp) => {
                &&& r is Ok
                &&& *final(runtime) == (CallRuntime {
                    ready_to_answer: Some(
                        (sdp, PendingCallerTrack::StartedForEarlyMedia, dialog_id),
                    ),
                    ..*old(runtime)
                })
            },
            Err(e) => {
                &&& r is Err && r->Err_0@ == "error creating track: "@ + e@
                &&& *final(runtime) == *old(runtime)
            },
        },
{
    match answer {
        Ok(sdp) => {
            runtime.ready_to_answer =
            Some((sdp, PendingCallerTrack::StartedForEarlyMedia, dialog_id));
            Ok(())
        },
        Err(e) => Err(text::concat2("error creating track: ", e.as_str())),
    }
}

/// The headers that the settings of a call name for its hangup.
pub fn option_hangup_headers(option: &CallOption) -> (r: Option<Vec<Header>>)
    ensures
        match (option.sip, r) {
            (Some(SipOption { hangup_headers: Some(m), .. }), Some(h)) => sip_util::other_headers(
                h@,
                m.pairs(),
            ),
            (Some(SipOption { hangup_headers: Some(m), .. }), None) => false,
            (_, r) => r is None,
        },
{
    match &option.sip {
        Some(sip) => match &sip.hangup_headers {
            Some(m) => Some(sip_util::sip_headers_from_map(m)),
            None => None,
        },
        None => None,
    }
}

/// The SRTP setting of a call.
fn srtp_setting(option: &CallOption) -> (r: Option<bool>)
    ensures
        r == srtp_of(*option),
{
    match &option.sip {
        Some(sip) => sip.enable_srtp,
        None => None,
    }
}

/// How long the handshake of a call may take.
fn handshake_timeout(option: &CallOption) -> (r: Option<TimeSpan>)
    ensures
        r == opt_secs(option.handshake_timeout),
{
    match option.handshake_timeout {
        Some(secs) => Some(TimeSpan::from_secs(secs)),
        None => None,
    }
}

/// Whether IPv6 candidates leave the session descriptions of a call.
pub fn strip_ipv6(option: &CallOption) -> (r: bool)
    ensures
        r == strips_ipv6(*option),
{
    match option.enable_ipv6 {
        Some(b) => !b,
        None => true,
    }
}

/// The names and values of headers that SIP does not name itself; of two with
/// one name the later counts.
pub open spec fn other_pairs(headers: Seq<Header>) -> Seq<(Seq<char>, Seq<char>)>
    decreases headers.len(),
{
    if headers.len() == 0 {
        Seq::empty()
    } else {
        let rest = other_pairs(headers.drop_last());
        match headers.last() {
            Header::Other(name, value) => maps::pairs_insert(rest, name@, value@),
            _ => rest,
        }
    }
}

/// The names and values of headers that SIP does not name itself.
fn other_header_map(headers: &Vec<Header>) -> (r: StringMap)
    ensures
        r.wf(),
        r.pairs() == other_pairs(headers@),
{
    let n: usize = headers.len();
    let mut out: StringMap = StringMap::new();
    let mut i: usize = 0;
    while i < n
        invariant
            0 <= i <= n,
            n == headers@.len(),
            out.wf(),
            out.pairs() == other_pairs(headers@.take(i as int)),
        decreases n - i,
    {
        proof {
            assert(headers@.take(i + 1).drop_last() =~= headers@.take(i as int));
            assert(headers@.take(i + 1).last() == headers@[i as int]);
        }
        if let Header::Other(name, value) = &headers[i] {
            out.insert(name.clone(), value.clone());
        }
        i = i + 1;
    }
    assert(headers@.take(n as int) =~= headers@);
    out
}

/// The codec that a track prefers is one that it offers, unless the node is
/// told of none.
pub proof fn law_preferred_codec_is_offered(
    call: ActiveCall,
    legs: LegTable,
    enable_srtp: Option<bool>,
    c: RtcTrackConfig,
)
    requires
        call.rtp_config(legs, enable_srtp, c),
        call.configured_codecs().len() > 0,
    ensures
        c.preferred_codec is Some,
        c.codecs@.contains(c.preferred_codec->0),
{
    assert(c.codecs@[0] == c.preferred_codec->0);
}

/// Each codec has its name, the one for digits has three, and no other name stands
/// for a codec.
#[verifier::spinoff_prover]
pub proof fn law_codecs_have_their_names(name: Seq<char>)
    ensures
        codec_of(name) == Some(CodecType::PCMU) <==> name == "pcmu"@,
        codec_of(name) == Some(CodecType::PCMA) <==> name == "pcma"@,
        codec_of(name) == Some(CodecType::G722) <==> name == "g722"@,
        codec_of(name) == Some(CodecType::G729) <==> name == "g729"@,
        codec_of(name) == Some(CodecType::Opus) <==> name == "opus"@,
        codec_of(name) == Some(CodecType::TelephoneEvent) <==> name == "dtmf"@ || name == "2833"@
            || name == "telephone_event"@,
{
    reveal_strlit("pcmu");
    reveal_strlit("pcma");
    reveal_strlit("g722");
    reveal_strlit("g729");
    reveal_strlit("opus");
    reveal_strlit("dtmf");
    reveal_strlit("2833");
    reveal_strlit("telephone_event");
    assert("pcmu"@[3] == 'u' && "pcma"@[3] == 'a');
    assert("g722"@[2] == '2' && "g722"@[3] == '2' && "g729"@[3] == '9');
    assert("opus"@[0] == 'o' && "dtmf"@[0] == 'd' && "2833"@[0] == '2');
    assert("pcmu"@[0] == 'p' && "pcma"@[0] == 'p' && "g722"@[0] == 'g' && "g729"@[0] == 'g');
}

/// The codecs that a node is told of come in the order of their names; a name that
/// stands for none is left out.
pub proof fn law_codecs_come_in_order(names: Seq<String>, name: String)
    ensures
        codecs_of(Seq::empty()) == Seq::<CodecType>::empty(),
        codec_of(lower_text(name@)) matches Some(c) ==> codecs_of(names.push(name)) == codecs_of(
            names,
        ).push(c),
        codec_of(lower_text(name@)) is None ==> codecs_of(names.push(name)) == codecs_of(names),
{
    assert(names.push(name).drop_last() =~= names);
}

/// Whether the media of a SIP call are encrypted goes by the call where it says so,
/// else by the node, and they are not where neither says so.
pub proof fn law_call_decides_on_encryption(
    call: ActiveCall,
    legs: LegTable,
    enable_srtp: Option<bool>,
    c: RtcTrackConfig,
)
    requires
        call.rtp_config(legs, enable_srtp, c),
    ensures
        enable_srtp == Some(true) ==> c.mode == TransportMode::Srtp,
        enable_srtp == Some(false) ==> c.mode == TransportMode::Rtp,
        enable_srtp is None && call.config.enable_srtp == Some(true) ==> c.mode
            == TransportMode::Srtp,
        enable_srtp is None && call.config.enable_srtp != Some(true) ==> c.mode
            == TransportMode::Rtp,
{
}

/// A track for a SIP call takes the addresses and the ports that the node is told
/// to use, the ports only where both ends of the range are named. Where the node
/// is told of no codec, the track prefers that of the call.
pub proof fn law_node_decides_on_the_network(
    call: ActiveCall,
    legs: LegTable,
    enable_srtp: Option<bool>,
    c: RtcTrackConfig,
)
    requires
        call.rtp_config(legs, enable_srtp, c),
    ensures
        c.external_ip == call.config.external_ip,
        c.bind_ip == call.config.rtp_bind_ip,
        c.enable_latching == call.config.enable_rtp_latching,
        c.enable_ice_lite == call.ice_lite(legs),
        c.rtp_port_range matches Some((a, b)) ==> call.config.rtp_start_port == Some(a)
            && call.config.rtp_end_port == Some(b),
        call.config.rtp_start_port is Some && call.config.rtp_end_port is Some
            ==> c.rtp_port_range is Some,
        call.config.codecs is None ==> c.codecs@.len() == 0 && c.preferred_codec == Some(
            call.codec,
        ),
        call.config.codecs matches Some(names) ==> c.codecs@ == codecs_of(names@),
        c.ice_servers is None,
{
}

/// The setting for ICE-lite is that of the call where it has one, else that of the
/// node.
pub proof fn law_call_decides_on_ice(call: ActiveCall, legs: LegTable, option: CallOption)
    requires
        call.option_in(legs) == Some(option),
    ensures
        option.enable_ice_lite is Some ==> call.ice_lite(legs) == option.enable_ice_lite,
        option.enable_ice_lite is None ==> call.ice_lite(legs) == call.config.enable_ice_lite,
{
}

/// A leg that is answered has the words of the answer, the time of its first
/// answer and the code 200; one that is dialled has the offer and the time at
/// which it was dialled. Its other progress, its names and its extra values stay.
pub proof fn law_answer_and_dialling_are_noted(
    leg: LegView,
    words: Option<Seq<char>>,
    offer: String,
    now: Timestamp,
)
    ensures
        ({
            let p = answered_leg(leg, words, now).progress;
            &&& p.answer == words && p.last_status_code == 200
            &&& leg.progress.answer_time is None ==> p.answer_time == Some(now)
            &&& leg.progress.answer_time is Some ==> p.answer_time == leg.progress.answer_time
            &&& p.start_time == leg.progress.start_time && p.ring_time == leg.progress.ring_time
            &&& p.session_id == leg.progress.session_id && p.option == leg.progress.option
            &&& p.hangup_reason == leg.progress.hangup_reason
            &&& answered_leg(leg, words, now) == (LegView { progress: p, ..leg })
        }),
        ({
            let p = dialled_leg(leg, offer, now).progress;
            &&& p.start_time == Some(now)
            &&& p.option is Some <==> leg.progress.option is Some
            &&& p.option matches Some(o) ==> o.offer == Some(offer) && o.caller
                == leg.progress.option->0.caller && o.callee == leg.progress.option->0.callee
            &&& p.answer == leg.progress.answer && p.answer_time == leg.progress.answer_time
            &&& p.last_status_code == leg.progress.last_status_code
            &&& p.ring_time == leg.progress.ring_time && p.session_id == leg.progress.session_id
            &&& dialled_leg(leg, offer, now) == (LegView { progress: p, ..leg })
        }),
{
}

/// The background sound of a call is what the call asks for; what it leaves open
/// is as the node has it, setting by setting.
pub proof fn law_call_decides_on_its_sound(
    call: ActiveCall,
    legs: LegTable,
    option: CallOption,
    own: AmbianceOption,
    node: AmbianceOption,
)
    requires
        call.option_in(legs) == Some(option),
        option.ambiance == Some(own),
        call.config.ambiance == Some(node),
    ensures
        ({
            let a = call.ambiance_of(legs);
            &&& own.path is Some ==> a.path == own.path
            &&& own.path is None ==> a.path == node.path
            &&& own.duck_level is Some ==> a.duck_level == own.duck_level
            &&& own.duck_level is None ==> a.duck_level == node.duck_level
            &&& own.normal_level is Some ==> a.normal_level == own.normal_level
            &&& own.normal_level is None ==> a.normal_level == node.normal_level
            &&& own.transition_speed is Some ==> a.transition_speed == own.transition_speed
            &&& own.transition_speed is None ==> a.transition_speed == node.transition_speed
            &&& own.enabled is Some ==> a.enabled == own.enabled
            &&& own.enabled is None ==> a.enabled == node.enabled
        }),
{
}

/// Where only one of the call and the node asks for a background sound, that is
/// the sound; where neither does, there is none.
pub proof fn law_sound_from_one_side(call: ActiveCall, legs: LegTable)
    ensures
        call.config.ambiance is None ==> (call.option_in(legs) matches Some(o) ==> (o.ambiance
            matches Some(own) ==> call.ambiance_of(legs) == own)),
        call.config.ambiance matches Some(node) ==> ((call.option_in(legs) matches Some(o)
            ==> o.ambiance is None) ==> call.ambiance_of(legs) == node),
        call.config.ambiance is None ==> ((call.option_in(legs) matches Some(o)
            ==> o.ambiance is None) ==> call.ambiance_of(legs).path is None && call.ambiance_of(
            legs,
        ).enabled is None),
{
}

/// The client gets a copy of a track's audio where the call asks for it and the
/// client is not the other end itself: under number 0 where the node is heard,
/// under number 1 from the other side. The background sound goes under what the
/// node says and nowhere else, and in front of the copy.
pub proof fn law_copies_and_sound(
    call: ActiveCall,
    legs: LegTable,
    track_id: Seq<char>,
    ambiance: Option<u64>,
)
    ensures
        ({
            let added = call.added_processors(legs, track_id, ambiance);
            let node_side = track_id == call.server_side_track_id@;
            let asked = call.option_in(legs) matches Some(o) && o.subscribe == Some(true);
            let copied = asked && call.call_type != ActiveCallType::WebSocket;
            &&& call.subscribes(legs) == copied
            &&& !copied && (!node_side || ambiance is None) ==> added.len() == 0
            &&& node_side ==> (ambiance matches Some(id) ==> added.len() > 0 && added[0] == (
            ChainProcessor::External { tag: 1, id }))
            &&& !node_side ==> forall|i: int|
                0 <= i < added.len() ==> (#[trigger] added[i]) !is External
            &&& copied ==> added.len() > 0 && (added.last() matches ChainProcessor::Subscribe(s) && {
                &&& node_side ==> s.track_index == 0 && s.track_id == call.server_side_track_id
                &&& !node_side ==> s.track_index == 1 && s.track_id == call.session_id
            })
            &&& added.len() == (if copied {
                1int
            } else {
                0
            }) + (if node_side && ambiance is Some {
                1int
            } else {
                0
            })
        }),
{
}

/// The processors that were made for a track join its chain in their order.
pub proof fn law_made_processors_join_in_order(ids: Vec<u64>, i: int)
    requires
        0 <= i < ids@.len(),
    ensures
        ActiveCall::stream_processors(None).len() == 0,
        ActiveCall::stream_processors(Some(ids)).len() == ids@.len(),
        ActiveCall::stream_processors(Some(ids))[i] == (ChainProcessor::External {
            tag: 2,
            id: ids@[i],
        }),
{
}

/// A description with a user or a password for the search for a path, and with a
/// fingerprint, is one that browsers send; without the fingerprint, or without
/// both of the others, it is not.
pub proof fn law_browsers_send_fingerprints(sdp: Seq<char>)
    ensures
        !text::occurs_in("a=fingerprint:"@, sdp) ==> !webrtc_sdp(sdp),
        !text::occurs_in("a=ice-ufrag:"@, sdp) && !text::occurs_in("a=ice-pwd:"@, sdp)
            ==> !webrtc_sdp(sdp),
        text::occurs_in("a=fingerprint:"@, sdp) && text::occurs_in("a=ice-ufrag:"@, sdp)
            ==> webrtc_sdp(sdp),
        text::occurs_in("a=fingerprint:"@, sdp) && text::occurs_in("a=ice-pwd:"@, sdp)
            ==> webrtc_sdp(sdp),
{
}

/// The event of an incoming call has the call's name, the words of its body and
/// the two parties; one that is not known has an empty name. Headers that SIP does
/// not name come along, where there are any.
pub proof fn law_incoming_call_is_told(
    call: ActiveCall,
    caller: Option<Seq<char>>,
    callee: Option<Seq<char>>,
    body: Seq<u8>,
    headers: Seq<Header>,
    at: u64,
)
    ensures
        ({
            let event = call.incoming_of(caller, callee, body, headers, at);
            &&& event matches SessionEventView::Incoming {
                track_id,
                timestamp,
                caller: from,
                callee: to,
                sdp,
                headers: passed,
            }
            &&& track_id == call.session_id@ && timestamp == at && sdp == state::lossy_text(body)
            &&& caller matches Some(c) ==> from == c
            &&& caller is None ==> from.len() == 0
            &&& callee matches Some(c) ==> to == c
            &&& callee is None ==> to.len() == 0
            &&& other_pairs(headers).len() > 0 ==> passed == Some(other_pairs(headers))
            &&& other_pairs(headers).len() == 0 ==> passed is None
        }),
{
}

/// The caller is the URI in the first `From` header, the callee that in the first
/// `To` header.
pub proof fn law_parties_are_in_their_headers(headers: Seq<Header>)
    ensures
        sip::first_value(headers, HeaderName::From) matches Some(v) ==> caller_in(headers)
            == sip::from_uri_in(v),
        sip::first_value(headers, HeaderName::From) is None ==> caller_in(headers) is None,
        sip::first_value(headers, HeaderName::To) matches Some(v) ==> callee_in(headers)
            == sip::to_uri_in(v),
        sip::first_value(headers, HeaderName::To) is None ==> callee_in(headers) is None,
{
}

/// Every header that SIP does not name is passed on under its name, the later of
/// two with one name; no other header is, and no name comes twice.
pub proof fn law_other_headers_are_passed_on(headers: Seq<Header>, header: Header)
    ensures
        ({
            let all = other_pairs(headers.push(header));
            &&& maps::distinct_names(all)
            &&& header matches Header::Other(name, value) ==> maps::pairs_map(all)
                == maps::pairs_map(other_pairs(headers)).insert(name@, value@)
            &&& header !is Other ==> all == other_pairs(headers)
        }),
        other_pairs(Seq::empty()).len() == 0,
    decreases headers.len(),
{
    assert(headers.push(header).drop_last() =~= headers);
    lemma_other_names_distinct(headers);
    if let Header::Other(name, value) = header {
        maps::law_insert_changes_one(other_pairs(headers), name@, value@);
    }
}

proof fn lemma_other_names_distinct(headers: Seq<Header>)
    ensures
        maps::distinct_names(other_pairs(headers)),
    decreases headers.len(),
{
    if headers.len() > 0 {
        lemma_other_names_distinct(headers.drop_last());
        if let Header::Other(name, value) = headers.last() {
            maps::law_insert_changes_one(other_pairs(headers.drop_last()), name@, value@);
        }
    }
}

/// A number of seconds is a span of as many seconds, and none is no limit; IPv6
/// stays only where the call asks for it; the encryption that a call asks for is
/// in its SIP settings.
pub proof fn law_settings_are_read(option: CallOption, secs: u64)
    ensures
        opt_secs(Some(secs)) matches Some(span) && span.total() == secs * 1_000_000_000,
        opt_secs(None) is None,
        strips_ipv6(option) <==> (option.enable_ipv6 matches Some(asked) ==> !asked),
        option.sip matches Some(s) ==> srtp_of(option) == s.enable_srtp,
        option.sip is None ==> srtp_of(option) is None,
{
}

/// A leg that was answered, or dialled, was so at a time that the clock showed.
pub proof fn law_times_are_of_the_clock(
    before: LegView,
    words: Option<Seq<char>>,
    offer: String,
    after: LegView,
)
    ensures
        answered_now(before, words, after) && before.progress.answer_time is None ==> (
        after.progress.answer_time matches Some(t) && clock::is_reading(t)),
        answered_now(before, words, after) ==> after.progress.answer == words
            && after.progress.last_status_code == 200,
        dialled_now(before, offer, after) ==> (after.progress.start_time matches Some(t)
            && clock::is_reading(t)),
{
}

/// The names of codecs in ASCII letters are read in letters of any size.
pub proof fn law_codec_names_in_any_size(names: Seq<String>, i: int)
    requires
        lowered_plainly(names),
        0 <= i < names.len(),
        forall|j: int| 0 <= j < names[i]@.len() ==> (#[trigger] names[i]@[j] as u32) < 0x80,
    ensures
        codec_of(lower_text(names[i]@)) == codec_of(text::ascii_lower_of(names[i]@)),
{
    assert(is_ascii_text(names[i]@));
}

}
