//! The events that a call reports to its client.
use crate::callrecord::CallRecordHangupReason;
use crate::maps::StringMap;
use crate::{maps, text};
use vstd::prelude::*;

verus! {

/// An event of a call. Timestamps are in milliseconds since the Unix epoch.
#[allow(inconsistent_fields)]
#[derive(Debug, PartialEq, Eq)]
pub enum SessionEvent {
    Incoming {
        track_id: String,
        timestamp: u64,
        caller: String,
        callee: String,
        sdp: String,
        headers: Option<StringMap>,
    },
    Ringing { track_id: String, timestamp: u64, early_media: bool, refer: Option<bool> },
    Reject {
        track_id: String,
        timestamp: u64,
        reason: String,
        code: Option<u32>,
        refer: Option<bool>,
    },
    Hold { track_id: String, timestamp: u64, on_hold: bool, refer: Option<bool> },
    Dtmf { track_id: String, timestamp: u64, digit: String, refer: Option<bool> },
    Message {
        track_id: String,
        timestamp: u64,
        body: String,
        content_type: Option<String>,
        refer: Option<bool>,
    },
    TransferRequest {
        track_id: String,
        timestamp: u64,
        refer_to: String,
        referred_by: Option<String>,
        refer: Option<bool>,
    },
    TrackStart { track_id: String, timestamp: u64, play_id: Option<String> },
    TrackEnd {
        track_id: String,
        timestamp: u64,
        duration: u64,
        ssrc: u32,
        play_id: Option<String>,
        auto_hangup: Option<CallRecordHangupReason>,
    },
    Hangup {
        track_id: String,
        timestamp: u64,
        reason: Option<String>,
        initiator: Option<String>,
        start_time: String,
        hangup_time: String,
        answer_time: Option<String>,
        ringing_time: Option<String>,
        from: Option<String>,
        to: Option<String>,
        /// Values as JSON texts.
        extra: Option<StringMap>,
        refer: Option<bool>,
    },
}

/// What a [`SessionEvent`] holds.
#[allow(inconsistent_fields)]
#[verifier::ext_equal]
pub enum SessionEventView {
    Incoming {
        track_id: Seq<char>,
        timestamp: u64,
        caller: Seq<char>,
        callee: Seq<char>,
        sdp: Seq<char>,
        headers: Option<Seq<(Seq<char>, Seq<char>)>>,
    },
    Ringing { track_id: Seq<char>, timestamp: u64, early_media: bool, refer: Option<bool> },
    Reject {
        track_id: Seq<char>,
        timestamp: u64,
        reason: Seq<char>,
        code: Option<u32>,
        refer: Option<bool>,
    },
    Hold { track_id: Seq<char>, timestamp: u64, on_hold: bool, refer: Option<bool> },
    Dtmf { track_id: Seq<char>, timestamp: u64, digit: Seq<char>, refer: Option<bool> },
    Message {
        track_id: Seq<char>,
        timestamp: u64,
        body: Seq<char>,
        content_type: Option<Seq<char>>,
        refer: Option<bool>,
    },
    TransferRequest {
        track_id: Seq<char>,
        timestamp: u64,
        refer_to: Seq<char>,
        referred_by: Option<Seq<char>>,
        refer: Option<bool>,
    },
    TrackStart { track_id: Seq<char>, timestamp: u64, play_id: Option<Seq<char>> },
    TrackEnd {
        track_id: Seq<char>,
        timestamp: u64,
        duration: u64,
        ssrc: u32,
        play_id: Option<Seq<char>>,
        auto_hangup: Option<CallRecordHangupReason>,
    },
    Hangup {
        track_id: Seq<char>,
        timestamp: u64,
        reason: Option<Seq<char>>,
        initiator: Option<Seq<char>>,
        start_time: Seq<char>,
        hangup_time: Seq<char>,
        answer_time: Option<Seq<char>>,
        ringing_time: Option<Seq<char>>,
        from: Option<Seq<char>>,
        to: Option<Seq<char>>,
        extra: Option<Seq<(Seq<char>, Seq<char>)>>,
        refer: Option<bool>,
    },
}

impl View for SessionEvent {
    type V = SessionEventView;

    open spec fn view(&self) -> SessionEventView {
        match *self {
            SessionEvent::Incoming { track_id, timestamp, caller, callee, sdp, headers } =>
                SessionEventView::Incoming {
                track_id: track_id@,
                timestamp,
                caller: caller@,
                callee: callee@,
                sdp: sdp@,
                headers: maps::opt_pairs(headers),
            },
            SessionEvent::Ringing { track_id, timestamp, early_media, refer } =>
                SessionEventView::Ringing { track_id: track_id@, timestamp, early_media, refer },
            SessionEvent::Reject { track_id, timestamp, reason, code, refer } =>
                SessionEventView::Reject {
                track_id: track_id@,
                timestamp,
                reason: reason@,
                code,
                refer,
            },
            SessionEvent::Hold { track_id, timestamp, on_hold, refer } => SessionEventView::Hold {
                track_id: track_id@,
                timestamp,
                on_hold,
                refer,
            },
            SessionEvent::Dtmf { track_id, timestamp, digit, refer } => SessionEventView::Dtmf {
                track_id: track_id@,
                timestamp,
                digit: digit@,
                refer,
            },
            SessionEvent::Message { track_id, timestamp, body, content_type, refer } =>
                SessionEventView::Message {
                track_id: track_id@,
                timestamp,
                body: body@,
                content_type: text::opt_view(content_type),
                refer,
            },
            SessionEvent::TransferRequest { track_id, timestamp, refer_to, referred_by, refer } =>
                SessionEventView::TransferRequest {
                track_id: track_id@,
                timestamp,
                refer_to: refer_to@,
                referred_by: text::opt_view(referred_by),
                refer,
            },
            SessionEvent::TrackStart { track_id, timestamp, play_id } =>
                SessionEventView::TrackStart {
                track_id: track_id@,
                timestamp,
                play_id: text::opt_view(play_id),
            },
            SessionEvent::TrackEnd { track_id, timestamp, duration, ssrc, play_id, auto_hangup } =>
                SessionEventView::TrackEnd {
                track_id: track_id@,
                timestamp,
                duration,
                ssrc,
                play_id: text::opt_view(play_id),
                auto_hangup,
            },
            SessionEvent::Hangup {
                track_id,
                timestamp,
                reason,
                initiator,
                start_time,
                hangup_time,
                answer_time,
                ringing_time,
                from,
                to,
                extra,
                refer,
            } => SessionEventView::Hangup {
                track_id: track_id@,
                timestamp,
                reason: text::opt_view(reason),
                initiator: text::opt_view(initiator),
                start_time: start_time@,
                hangup_time: hangup_time@,
                answer_time: text::opt_view(answer_time),
                ringing_time: text::opt_view(ringing_time),
                from: text::opt_view(from),
                to: text::opt_view(to),
                extra: maps::opt_pairs(extra),
                refer,
            },
        }
    }
}

/// What is seen of a [`SessionEvent`] is all that it holds, and nothing else.
pub proof fn law_view_of_session_event(it: SessionEvent)
    ensures
        it matches SessionEvent::Incoming {
            track_id,
            timestamp,
            caller,
            callee,
            sdp,
            headers,
        } ==> it@ == (
        SessionEventView::Incoming {
            track_id: track_id@,
            timestamp,
            caller: caller@,
            callee: callee@,
            sdp: sdp@,
            headers: maps::opt_pairs(headers),
        }),
        it matches SessionEvent::Ringing { track_id, timestamp, early_media, refer } ==> it@ == (
        SessionEventView::Ringing {
            track_id: track_id@,
            timestamp,
            early_media,
            refer,
        }),
        it matches SessionEvent::Reject { track_id, timestamp, reason, code, refer } ==> it@ == (
        SessionEventView::Reject {
            track_id: track_id@,
            timestamp,
            reason: reason@,
            code,
            refer,
        }),
        it matches SessionEvent::Hold { track_id, timestamp, on_hold, refer } ==> it@ == (
        SessionEventView::Hold {
            track_id: track_id@,
            timestamp,
            on_hold,
            refer,
        }),
        it matches SessionEvent::Dtmf { track_id, timestamp, digit, refer } ==> it@ == (
        SessionEventView::Dtmf {
            track_id: track_id@,
            timestamp,
            digit: digit@,
            refer,
        }),
        it matches SessionEvent::Message {
            track_id,
            timestamp,
            body,
            content_type,
            refer,
        } ==> it@ == (
        SessionEventView::Message {
            track_id: track_id@,
            timestamp,
            body: body@,
            content_type: text::opt_view(content_type),
            refer,
        }),
        it matches SessionEvent::TransferRequest {
            track_id,
            timestamp,
            refer_to,
            referred_by,
            refer,
        } ==> it@ == (
        SessionEventView::TransferRequest {
            track_id: track_id@,
            timestamp,
            refer_to: refer_to@,
            referred_by: text::opt_view(referred_by),
            refer,
        }),
        it matches SessionEvent::TrackStart { track_id, timestamp, play_id } ==> it@ == (
        SessionEventView::TrackStart {
            track_id: track_id@,
            timestamp,
            play_id: text::opt_view(play_id),
        }),
        it matches SessionEvent::TrackEnd {
            track_id,
            timestamp,
            duration,
            ssrc,
            play_id,
            auto_hangup,
        } ==> it@ == (
        SessionEventView::TrackEnd {
            track_id: track_id@,
            timestamp,
            duration,
            ssrc,
            play_id: text::opt_view(play_id),
            auto_hangup,
        }),
        it matches SessionEvent::Hangup {
            track_id,
            timestamp,
            reason,
            initiator,
            start_time,
            hangup_time,
            answer_time,
            ringing_time,
            from,
            to,
            extra,
            refer,
        } ==> it@ == (
        SessionEventView::Hangup {
            track_id: track_id@,
            timestamp,
            reason: text::opt_view(reason),
            initiator: text::opt_view(initiator),
            start_time: start_time@,
            hangup_time: hangup_time@,
            answer_time: text::opt_view(answer_time),
            ringing_time: text::opt_view(ringing_time),
            from: text::opt_view(from),
            to: text::opt_view(to),
            extra: maps::opt_pairs(extra),
            refer,
        }),
{
}

}
