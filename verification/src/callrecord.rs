//! What is kept of a call once it is over.
use crate::clock::Timestamp;
use crate::maps::StringMap;
use crate::option::CallOption;
use vstd::prelude::*;

verus! {

/// Who or what ended a call.
#[derive(Debug, Clone, Copy, PartialEq, Eq, Structural)]
pub enum CallRecordHangupReason {
    Canceled,
    ByCaller,
    ByCallee,
    BySystem,
}

impl CallRecordHangupReason {
    /// The name of the reason.
    pub open spec fn name_of(self) -> Seq<char> {
        match self {
            CallRecordHangupReason::Canceled => "Canceled"@,
            CallRecordHangupReason::ByCaller => "ByCaller"@,
            CallRecordHangupReason::ByCallee => "ByCallee"@,
            CallRecordHangupReason::BySystem => "BySystem"@,
        }
    }

    /// The name of the reason.
    pub fn name(&self) -> (r: String)
        ensures
            r@ == self.name_of(),
    {
        match self {
            CallRecordHangupReason::Canceled => "Canceled".to_string(),
            CallRecordHangupReason::ByCaller => "ByCaller".to_string(),
            CallRecordHangupReason::ByCallee => "ByCallee".to_string(),
            CallRecordHangupReason::BySystem => "BySystem".to_string(),
        }
    }
}

/// How a call came to this node.
#[derive(Debug, Clone, Copy, PartialEq, Eq, Structural)]
pub enum ActiveCallType {
    Webrtc,
    WebSocket,
    Sip,
    B2bua,
}

/// A recording of a call on disk.
#[derive(Debug, PartialEq, Eq)]
pub struct CallRecordMedia {
    pub track_id: String,
    pub path: String,
    pub size: u64,
    pub extra: Option<StringMap>,
}

/// What is kept of a call, with the leg to which it was referred.
#[derive(Debug, PartialEq, Eq)]
pub struct CallRecord {
    pub call_type: ActiveCallType,
    pub option: Option<CallOption>,
    pub call_id: String,
    pub start_time: Timestamp,
    pub ring_time: Option<Timestamp>,
    pub answer_time: Option<Timestamp>,
    pub end_time: Timestamp,
    pub caller: String,
    pub callee: String,
    pub status_code: u16,
    pub hangup_reason: Option<CallRecordHangupReason>,
    /// Messages that came with the hangup.
    pub hangup_messages: Vec<String>,
    /// Values as JSON texts.
    pub extras: Option<StringMap>,
    pub dump_event_file: Option<String>,
    pub recorder: Vec<CallRecordMedia>,
    pub refer_callrecord: Option<Box<CallRecord>>,
}

}
