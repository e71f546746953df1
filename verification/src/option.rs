//! The settings with which a call is set up.
use crate::maps::StringMap;
use crate::media::ambiance::AmbianceOption;
use std::sync::Arc;
use vstd::prelude::*;

verus! {

/// The format of a recording.
#[derive(Debug, Clone, Copy, PartialEq, Eq, Structural)]
pub enum RecorderFormat {
    Wav,
    Ogg,
}

impl Default for RecorderFormat {
    fn default() -> (r: Self)
        ensures
            r == RecorderFormat::Wav,
    {
        RecorderFormat::Wav
    }
}

/// How a call is recorded.
#[derive(Debug, PartialEq, Eq)]
pub struct RecorderOption {
    pub recorder_file: String,
    pub samplerate: u32,
    pub ptime: u32,
    pub format: Option<RecorderFormat>,
    /// Record at the rate at which the frames come.
    pub native_samplerate: Option<bool>,
}

impl Clone for RecorderOption {
    fn clone(&self) -> (r: Self)
        ensures
            r == *self,
    {
        RecorderOption {
            recorder_file: self.recorder_file.clone(),
            samplerate: self.samplerate,
            ptime: self.ptime,
            format: self.format,
            native_samplerate: self.native_samplerate,
        }
    }
}

/// The SIP settings of a call.
#[derive(Debug, PartialEq, Eq)]
pub struct SipOption {
    pub enable_srtp: Option<bool>,
    /// Headers that are sent along when the call is hung up.
    pub hangup_headers: Option<Arc<StringMap>>,
}

impl Clone for SipOption {
    fn clone(&self) -> (r: Self)
        ensures
            r == *self,
    {
        SipOption {
            enable_srtp: self.enable_srtp,
            hangup_headers: match &self.hangup_headers {
                Some(h) => Some(h.clone()),
                None => None,
            },
        }
    }
}

/// The settings with which a call is set up. Those that other services read
/// (recognition, synthesis, detection) are carried as JSON texts.
#[derive(Debug, PartialEq, Eq)]
pub struct CallOption {
    pub caller: Option<String>,
    pub callee: Option<String>,
    pub offer: Option<String>,
    pub codec: String,
    pub subscribe: Option<bool>,
    pub handshake_timeout: Option<u64>,
    pub enable_ipv6: Option<bool>,
    pub enable_ice_lite: Option<bool>,
    pub denoise: Option<bool>,
    pub sip: Option<SipOption>,
    pub recorder: Option<RecorderOption>,
    pub ambiance: Option<AmbianceOption>,
    pub asr: Option<String>,
    pub tts: Option<String>,
    pub vad: Option<String>,
    pub agc: Option<String>,
    pub eou: Option<String>,
    pub extra: Option<String>,
    pub ringback_detection: Option<String>,
}

impl CallOption {
    /// Nothing is set.
    pub open spec fn unset(&self) -> bool {
        &&& self.caller is None && self.callee is None && self.offer is None
        &&& self.codec@ == Seq::<char>::empty()
        &&& self.subscribe is None && self.handshake_timeout is None
        &&& self.enable_ipv6 is None && self.enable_ice_lite is None && self.denoise is None
        &&& self.sip is None && self.recorder is None && self.ambiance is None
        &&& self.asr is None && self.tts is None && self.vad is None && self.agc is None
        &&& self.eou is None && self.extra is None && self.ringback_detection is None
    }
}

impl Default for CallOption {
    fn default() -> (r: Self)
        ensures
            r.unset(),
    {
        CallOption {
            caller: None,
            callee: None,
            offer: None,
            codec: String::new(),
            subscribe: None,
            handshake_timeout: None,
            enable_ipv6: None,
            enable_ice_lite: None,
            denoise: None,
            sip: None,
            recorder: None,
            ambiance: None,
            asr: None,
            tts: None,
            vad: None,
            agc: None,
            eou: None,
            extra: None,
            ringback_detection: None,
        }
    }
}

impl Clone for CallOption {
    fn clone(&self) -> (r: Self)
        ensures
            r == *self,
    {
        CallOption {
            caller: self.caller.clone(),
            callee: self.callee.clone(),
            offer: self.offer.clone(),
            codec: self.codec.clone(),
            subscribe: self.subscribe,
            handshake_timeout: self.handshake_timeout,
            enable_ipv6: self.enable_ipv6,
            enable_ice_lite: self.enable_ice_lite,
            denoise: self.denoise,
            sip: self.sip.clone(),
            recorder: self.recorder.clone(),
            ambiance: self.ambiance.clone(),
            asr: self.asr.clone(),
            tts: self.tts.clone(),
            vad: self.vad.clone(),
            agc: self.agc.clone(),
            eou: self.eou.clone(),
            extra: self.extra.clone(),
            ringback_detection: self.ringback_detection.clone(),
        }
    }
}

/// Settings in which nothing is set leave everything open.
pub proof fn law_unset_leaves_all_open(o: CallOption)
    requires
        o.unset(),
    ensures
        o.caller is None && o.callee is None && o.offer is None,
        o.codec@.len() == 0,
        o.subscribe is None && o.handshake_timeout is None && o.denoise is None,
        o.enable_ipv6 is None && o.enable_ice_lite is None,
        o.sip is None && o.recorder is None && o.ambiance is None && o.extra is None,
        o.asr is None && o.tts is None && o.vad is None && o.agc is None && o.eou is None,
        o.ringback_detection is None,
{
}

}
