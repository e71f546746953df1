//! What is known of a leg of a call, and the reports that are made of it.
use crate::callrecord::{ActiveCallType, CallRecord, CallRecordHangupReason, CallRecordMedia};
use crate::clock::Timestamp;
use crate::event::{SessionEvent, SessionEventView};
use crate::maps::StringMap;
use crate::option::CallOption;
use crate::sip::{DialogId, SipError, TerminatedReason};
use crate::{clock, text};
use vstd::prelude::*;
use vstd::string::*;

verus! {

/// How far a leg has come.
#[derive(Debug, PartialEq, Eq)]
pub struct CallProgress {
    pub session_id: String,
    pub start_time: Option<Timestamp>,
    pub ring_time: Option<Timestamp>,
    pub answer_time: Option<Timestamp>,
    pub answer: Option<String>,
    pub last_status_code: u16,
    pub hangup_reason: Option<CallRecordHangupReason>,
    pub option: Option<CallOption>,
}

/// What a [`CallProgress`] holds.
#[verifier::ext_equal]
pub struct ProgressView {
    pub session_id: Seq<char>,
    pub start_time: Option<Timestamp>,
    pub ring_time: Option<Timestamp>,
    pub answer_time: Option<Timestamp>,
    pub answer: Option<Seq<char>>,
    pub last_status_code: u16,
    pub hangup_reason: Option<CallRecordHangupReason>,
    pub option: Option<CallOption>,
}

impl View for CallProgress {
    type V = ProgressView;

    open spec fn view(&self) -> ProgressView {
        ProgressView {
            session_id: self.session_id@,
            start_time: self.start_time,
            ring_time: self.ring_time,
            answer_time: self.answer_time,
            answer: text::opt_view(self.answer),
            last_status_code: self.last_status_code,
            hangup_reason: self.hangup_reason,
            option: self.option,
        }
    }
}

/// The value that is there, else a new one.
pub open spec fn first<T>(there: Option<T>, new: T) -> Option<T> {
    if there is Some {
        there
    } else {
        Some(new)
    }
}

/// An optional time is a time of the calendar.
pub open spec fn time_ok(t: Option<Timestamp>) -> bool {
    t matches Some(t) ==> t.wf()
}

impl ProgressView {
    /// All times are times of the calendar.
    pub open spec fn times_ok(self) -> bool {
        time_ok(self.start_time) && time_ok(self.ring_time) && time_ok(self.answer_time)
    }

    /// The leg rings.
    pub open spec fn early(self, code: u16, now: Timestamp) -> ProgressView {
        ProgressView {
            ring_time: first(self.ring_time, now),
            last_status_code: code,
            ..self
        }
    }

    /// The leg was answered.
    pub open spec fn answered(self, now: Timestamp) -> ProgressView {
        ProgressView {
            answer_time: first(self.answer_time, now),
            last_status_code: 200,
            ..self
        }
    }

    /// The dialog of the leg is established.
    pub open spec fn confirmed(self, session_id: Seq<char>, now: Timestamp) -> ProgressView {
        ProgressView { session_id, ..self.answered(now) }
    }

    /// The first answer stays.
    pub open spec fn with_answer(self, sdp: Seq<char>) -> ProgressView {
        ProgressView { answer: first(self.answer, sdp), ..self }
    }

    /// The first reason stays.
    pub open spec fn with_hangup(self, reason: CallRecordHangupReason) -> ProgressView {
        ProgressView { hangup_reason: first(self.hangup_reason, reason), ..self }
    }

    /// The leg is over.
    pub open spec fn terminated(self, code: u16, reason: CallRecordHangupReason) -> ProgressView {
        ProgressView { last_status_code: code, ..self.with_hangup(reason) }
    }
}

/// How a leg ended.
#[derive(Debug, Clone, Copy, PartialEq, Eq)]
pub struct TerminationInfo {
    pub status_code: u16,
    pub hangup_reason: CallRecordHangupReason,
    pub initiator: &'static str,
}

impl TerminationInfo {
    fn new(
        status_code: u16,
        hangup_reason: CallRecordHangupReason,
        initiator: &'static str,
    ) -> (r: Self)
        ensures
            r.status_code == status_code,
            r.hangup_reason == hangup_reason,
            r.initiator@ == initiator@,
    {
        TerminationInfo { status_code, hangup_reason, initiator }
    }
}

/// The status code, the reason and the initiator that stand for the end of a
/// dialog.
pub open spec fn termination_of(reason: Option<TerminatedReason>) -> (
    u16,
    CallRecordHangupReason,
    Seq<char>,
) {
    match reason {
        Some(TerminatedReason::UacCancel) => (487, CallRecordHangupReason::Canceled, "caller"@),
        Some(TerminatedReason::UacBye) => (200, CallRecordHangupReason::ByCaller, "caller"@),
        Some(TerminatedReason::UacBusy) => (486, CallRecordHangupReason::ByCaller, "caller"@),
        Some(TerminatedReason::UasBye) => (200, CallRecordHangupReason::ByCallee, "callee"@),
        Some(TerminatedReason::UasBusy) => (486, CallRecordHangupReason::ByCallee, "callee"@),
        Some(TerminatedReason::UasDecline) => (603, CallRecordHangupReason::ByCallee, "callee"@),
        Some(TerminatedReason::UacOther(code)) => (
            code,
            CallRecordHangupReason::ByCaller,
            "system"@,
        ),
        Some(TerminatedReason::UasOther(code)) => (
            code,
            CallRecordHangupReason::ByCallee,
            "system"@,
        ),
        _ => (500, CallRecordHangupReason::BySystem, "system"@),
    }
}

/// Settings, filled up from earlier ones where they leave something open.
pub open spec fn merged(option: CallOption, existing: Option<CallOption>) -> CallOption {
    match existing {
        Some(e) => CallOption {
            asr: crate::media::ambiance::or_else(option.asr, e.asr),
            tts: crate::media::ambiance::or_else(option.tts, e.tts),
            vad: crate::media::ambiance::or_else(option.vad, e.vad),
            denoise: crate::media::ambiance::or_else(option.denoise, e.denoise),
            agc: crate::media::ambiance::or_else(option.agc, e.agc),
            recorder: crate::media::ambiance::or_else(option.recorder, e.recorder),
            eou: crate::media::ambiance::or_else(option.eou, e.eou),
            extra: crate::media::ambiance::or_else(option.extra, e.extra),
            ambiance: crate::media::ambiance::or_else(option.ambiance, e.ambiance),
            ringback_detection: crate::media::ambiance::or_else(
                option.ringback_detection,
                e.ringback_detection,
            ),
            ..option
        },
        None => option,
    }
}

/// Filling settings up twice from the same source is filling them up once.
pub proof fn law_merge_twice(option: CallOption, existing: Option<CallOption>)
    ensures
        merged(merged(option, existing), existing) == merged(option, existing),
{
}

impl Default for CallProgress {
    fn default() -> (r: Self)
        ensures
            r@ == (ProgressView {
                session_id: Seq::empty(),
                start_time: None,
                ring_time: None,
                answer_time: None,
                answer: None,
                last_status_code: 0,
                hangup_reason: None,
                option: None,
            }),
    {
        CallProgress {
            session_id: String::new(),
            start_time: None,
            ring_time: None,
            answer_time: None,
            answer: None,
            last_status_code: 0,
            hangup_reason: None,
            option: None,
        }
    }
}

impl Clone for CallProgress {
    fn clone(&self) -> (r: Self)
        ensures
            r == *self,
    {
        CallProgress {
            session_id: self.session_id.clone(),
            start_time: self.start_time,
            ring_time: self.ring_time,
            answer_time: self.answer_time,
            answer: self.answer.clone(),
            last_status_code: self.last_status_code,
            hangup_reason: self.hangup_reason,
            option: self.option.clone(),
        }
    }
}

impl CallProgress {
    /// The leg rings, as of `now`.
    pub fn on_early_at(&mut self, code: u16, now: Timestamp)
        ensures
            final(self)@ == old(self)@.early(code, now),
    {
        if self.ring_time.is_none() {
            self.ring_time = Some(now);
        }
        self.last_status_code = code;
    }

    /// The leg rings.
    pub fn on_early(&mut self, code: u16)
        ensures
            exists|now: Timestamp|
                now.wf() && clock::is_reading(now) && final(self)@
                    == #[trigger] old(self)@.early(code, now),
    {
        let now: Timestamp = clock::utc_now();
        self.on_early_at(code, now);
        assert(now.wf() && self@ == old(self)@.early(code, now));
    }

    /// The dialog of the leg is established, as of `now`.
    pub fn on_confirmed_at(&mut self, session_id: String, now: Timestamp)
        ensures
            final(self)@ == old(self)@.confirmed(session_id@, now),
    {
        self.session_id = session_id;
        self.on_answered_at(now);
    }

    /// The dialog of the leg is established.
    pub fn on_confirmed(&mut self, session_id: String)
        ensures
            exists|now: Timestamp|
                now.wf() && clock::is_reading(now) && final(self)@
                    == #[trigger] old(self)@.confirmed(session_id@, now),
    {
        let now: Timestamp = clock::utc_now();
        let ghost id = session_id@;
        self.on_confirmed_at(session_id, now);
        assert(now.wf() && self@ == old(self)@.confirmed(id, now));
    }

    /// The leg was answered, as of `now`.
    pub fn on_answered_at(&mut self, now: Timestamp)
        ensures
            final(self)@ == old(self)@.answered(now),
    {
        if self.answer_time.is_none() {
            self.answer_time = Some(now);
        }
        self.last_status_code = 200;
    }

    /// The leg was answered.
    pub fn on_answered(&mut self)
        ensures
            exists|now: Timestamp|
                now.wf() && clock::is_reading(now) && final(self)@
                    == #[trigger] old(self)@.answered(now),
    {
        let now: Timestamp = clock::utc_now();
        self.on_answered_at(now);
        assert(now.wf() && self@ == old(self)@.answered(now));
    }

    /// Keeps an answer, unless there is one.
    pub fn try_set_answer(&mut self, sdp: &str)
        ensures
            final(self)@ == old(self)@.with_answer(sdp@),
    {
        if self.answer.is_none() {
            self.answer = Some(sdp.to_string());
        }
    }

    /// Keeps the reason for the end of the leg, unless there is one.
    pub fn set_hangup_reason(&mut self, reason: CallRecordHangupReason)
        ensures
            final(self)@ == old(self)@.with_hangup(reason),
    {
        if self.hangup_reason.is_none() {
            self.hangup_reason = Some(reason);
        }
    }

    /// Settings, filled up from those of the leg where they leave something
    /// open.
    pub fn merge_option(&self, option: CallOption) -> (r: CallOption)
        ensures
            r == merged(option, self.option),
    {
        let mut option: CallOption = option;
        if let Some(existing) = &self.option {
            if option.asr.is_none() {
                option.asr = existing.asr.clone();
            }
            if option.tts.is_none() {
                option.tts = existing.tts.clone();
            }
            if option.vad.is_none() {
                option.vad = existing.vad.clone();
            }
            if option.denoise.is_none() {
                option.denoise = existing.denoise;
            }
            if option.agc.is_none() {
                option.agc = existing.agc.clone();
            }
            if option.recorder.is_none() {
                option.recorder = existing.recorder.clone();
            }
            if option.eou.is_none() {
                option.eou = existing.eou.clone();
            }
            if option.extra.is_none() {
                option.extra = existing.extra.clone();
            }
            if option.ambiance.is_none() {
                option.ambiance = existing.ambiance.clone();
            }
            if option.ringback_detection.is_none() {
                option.ringback_detection = existing.ringback_detection.clone();
            }
        }
        option
    }

    /// What the end of a dialog stands for.
    pub fn termination(reason: Option<&TerminatedReason>) -> (r: TerminationInfo)
        ensures
            (r.status_code, r.hangup_reason, r.initiator@) == termination_of(
                match reason {
                    Some(x) => Some(*x),
                    None => None,
                },
            ),
    {
        match reason {
            Some(TerminatedReason::UacCancel) => TerminationInfo::new(
                487,
                CallRecordHangupReason::Canceled,
                "caller",
            ),
            Some(TerminatedReason::UacBye) => TerminationInfo::new(
                200,
                CallRecordHangupReason::ByCaller,
                "caller",
            ),
            Some(TerminatedReason::UacBusy) => TerminationInfo::new(
                486,
                CallRecordHangupReason::ByCaller,
                "caller",
            ),
            Some(TerminatedReason::UasBye) => TerminationInfo::new(
                200,
                CallRecordHangupReason::ByCallee,
                "callee",
            ),
            Some(TerminatedReason::UasBusy) => TerminationInfo::new(
                486,
                CallRecordHangupReason::ByCallee,
                "callee",
            ),
            Some(TerminatedReason::UasDecline) => TerminationInfo::new(
                603,
                CallRecordHangupReason::ByCallee,
                "callee",
            ),
            Some(TerminatedReason::UacOther(code)) => TerminationInfo::new(
                *code,
                CallRecordHangupReason::ByCaller,
                "system",
            ),
            Some(TerminatedReason::UasOther(code)) => TerminationInfo::new(
                *code,
                CallRecordHangupReason::ByCallee,
                "system",
            ),
            _ => TerminationInfo::new(500, CallRecordHangupReason::BySystem, "system"),
        }
    }
}

/// The times of ringing and of the answer, the answer and the reason for the
/// end stay as they came first, whatever is reported later.
pub proof fn law_firsts_stay(
    p: ProgressView,
    code: u16,
    id: Seq<char>,
    sdp: Seq<char>,
    reason: CallRecordHangupReason,
    t: Timestamp,
)
    ensures
        p.ring_time is Some ==> p.early(code, t).ring_time == p.ring_time,
        p.answer_time is Some ==> p.confirmed(id, t).answer_time == p.answer_time,
        p.answer_time is Some ==> p.answered(t).answer_time == p.answer_time,
        p.answer is Some ==> p.with_answer(sdp) == p,
        p.hangup_reason is Some ==> p.with_hangup(reason) == p,
{
}

/// What happens to the progress of a leg.
#[derive(Debug, PartialEq, Eq)]
pub enum ProgressUpdate {
    /// The dialog got a name.
    Session { session_id: String },
    Early { code: u16, now: Timestamp },
    Confirmed { session_id: String, now: Timestamp },
    /// An answer came.
    Answer { sdp: String },
    /// The leg was answered with these words, or without any.
    Answered { answer: Option<String>, now: Timestamp },
    /// The leg is dialled with this offer.
    Dialled { offer: String, now: Timestamp },
    Terminated { status_code: u16, hangup_reason: CallRecordHangupReason },
}

impl ProgressView {
    /// The progress after an update.
    pub open spec fn updated(self, update: ProgressUpdate) -> ProgressView {
        match update {
            ProgressUpdate::Session { session_id } => ProgressView {
                session_id: session_id@,
                ..self
            },
            ProgressUpdate::Early { code, now } => self.early(code, now),
            ProgressUpdate::Confirmed { session_id, now } => self.confirmed(session_id@, now),
            ProgressUpdate::Answer { sdp } => self.with_answer(sdp@),
            ProgressUpdate::Answered { answer, now } => ProgressView {
                answer: text::opt_view(answer),
                ..self.answered(now)
            },
            ProgressUpdate::Dialled { offer, now } => ProgressView {
                option: match self.option {
                    Some(o) => Some(CallOption { offer: Some(offer), ..o }),
                    None => None,
                },
                start_time: Some(now),
                ..self
            },
            ProgressUpdate::Terminated { status_code, hangup_reason } => self.terminated(
                status_code,
                hangup_reason,
            ),
        }
    }
}

/// The time in an update is a time of the calendar.
pub open spec fn update_ok(update: ProgressUpdate) -> bool {
    match update {
        ProgressUpdate::Early { now, .. } => now.wf(),
        ProgressUpdate::Confirmed { now, .. } => now.wf(),
        ProgressUpdate::Answered { now, .. } => now.wf(),
        ProgressUpdate::Dialled { now, .. } => now.wf(),
        _ => true,
    }
}

impl CallProgress {
    /// Takes in what happened to the leg.
    pub fn update(&mut self, update: ProgressUpdate)
        ensures
            final(self)@ == old(self)@.updated(update),
    {
        match update {
            ProgressUpdate::Session { session_id } => {
                self.session_id = session_id;
            },
            ProgressUpdate::Early { code, now } => {
                self.on_early_at(code, now);
            },
            ProgressUpdate::Confirmed { session_id, now } => {
                self.on_confirmed_at(session_id, now);
            },
            ProgressUpdate::Answer { sdp } => {
                self.try_set_answer(sdp.as_str());
            },
            ProgressUpdate::Answered { answer, now } => {
                self.answer = answer;
                self.on_answered_at(now);
            },
            ProgressUpdate::Dialled { offer, now } => {
                let mut option: Option<CallOption> = None;
                std::mem::swap(&mut option, &mut self.option);
                self.option = match option {
                    Some(o) => {
                        let mut o: CallOption = o;
                        o.offer = Some(offer);
                        Some(o)
                    },
                    None => None,
                };
                self.start_time = Some(now);
            },
            ProgressUpdate::Terminated { status_code, hangup_reason } => {
                self.last_status_code = status_code;
                self.set_hangup_reason(hangup_reason);
            },
        }
    }
}

/// What is known of a leg, whoever holds it.
#[derive(Debug, PartialEq, Eq)]
pub struct LegState {
    pub progress: CallProgress,
    /// Values as JSON texts.
    pub extras: StringMap,
}

/// The legs of a call, each kept once for all who hold it.
#[derive(Debug, PartialEq, Eq)]
pub struct LegTable {
    pub legs: Vec<LegState>,
}

/// A hold on a leg, which its call and its dialog share: the state of the leg is
/// kept in a [`LegTable`], at the place that is named here. A clone holds the
/// same leg, and sees what was done to it before and after it was made.
#[derive(Debug, Clone, Copy, PartialEq, Eq)]
pub struct LegShared {
    pub ssrc: u32,
    pub is_refer: bool,
    pub place: usize,
}

/// What is seen of a leg through a hold on it.
#[verifier::ext_equal]
pub struct LegView {
    pub ssrc: u32,
    pub is_refer: bool,
    pub progress: ProgressView,
    pub extras: Seq<(Seq<char>, Seq<char>)>,
}

impl LegTable {
    /// No leg is kept yet.
    pub fn new() -> (r: Self)
        ensures
            r.legs@.len() == 0,
    {
        LegTable { legs: Vec::new() }
    }
}

/// From one table to the other nothing changed but the leg at a place.
pub open spec fn only_leg(before: LegTable, after: LegTable, place: usize) -> bool {
    &&& after.legs@.len() == before.legs@.len()
    &&& forall|i: int|
        0 <= i < before.legs@.len() && i != place ==> #[trigger] after.legs@[i] == before.legs@[i]
}

/// Whoever holds a leg sees the same progress and the same extra values.
pub proof fn law_holders_share(a: LegShared, b: LegShared, legs: LegTable)
    requires
        a.place == b.place,
    ensures
        a.seen(legs).progress == b.seen(legs).progress,
        a.seen(legs).extras == b.seen(legs).extras,
{
}

/// Once a leg is over, the reason for its end stays, whatever else its holders
/// report of it; its status code stays unless they report one.
pub proof fn law_end_outlives_updates(p: ProgressView, update: ProgressUpdate)
    requires
        p.hangup_reason is Some,
    ensures
        p.updated(update).hangup_reason == p.hangup_reason,
        match update {
            ProgressUpdate::Early { .. } => true,
            ProgressUpdate::Confirmed { .. } => true,
            ProgressUpdate::Answered { .. } => true,
            ProgressUpdate::Terminated { .. } => true,
            _ => p.updated(update).last_status_code == p.last_status_code,
        },
{
}

/// What is done to a leg is not seen by who holds another.
pub proof fn law_legs_are_apart(
    before: LegTable,
    after: LegTable,
    changed: LegShared,
    other: LegShared,
)
    requires
        only_leg(before, after, changed.place),
        other.held(before),
        other.place != changed.place,
    ensures
        other.held(after),
        other.seen(after) == other.seen(before),
{
}

/// What the surroundings know of the files of a call.
#[derive(Debug, PartialEq, Eq)]
pub struct CallFiles {
    pub recorder_file: String,
    /// Size of the recording; `None` where there is no such file.
    pub recorder_size: Option<u64>,
    pub dump_event_file: String,
    pub dump_event_exists: bool,
}

impl LegShared {
    /// The leg is kept in the table.
    pub open spec fn held(self, legs: LegTable) -> bool {
        self.place < legs.legs@.len()
    }

    /// The state of the leg.
    pub open spec fn state(self, legs: LegTable) -> LegState {
        legs.legs@[self.place as int]
    }

    /// What is seen of the leg.
    pub open spec fn seen(self, legs: LegTable) -> LegView {
        LegView {
            ssrc: self.ssrc,
            is_refer: self.is_refer,
            progress: self.state(legs).progress@,
            extras: self.state(legs).extras.pairs(),
        }
    }

    /// The leg is kept, its extra values have distinct names, and all its times
    /// are times of the calendar.
    pub open spec fn wf(self, legs: LegTable) -> bool {
        self.held(legs) && self.state(legs).extras.wf() && self.seen(legs).progress.times_ok()
    }

    /// A new leg without extra values.
    pub fn new(legs: &mut LegTable, ssrc: u32, is_refer: bool, progress: CallProgress) -> (r: Self)
        ensures
            r.place == old(legs).legs@.len(),
            final(legs).legs@.len() == old(legs).legs@.len() + 1,
            forall|i: int|
                0 <= i < old(legs).legs@.len() ==> #[trigger] final(legs).legs@[i] == old(
                    legs,
                ).legs@[i],
            r.held(*final(legs)),
            r.seen(*final(legs)) == (LegView {
                ssrc,
                is_refer,
                progress: progress@,
                extras: Seq::empty(),
            }),
            r.wf(*final(legs)) == progress@.times_ok(),
    {
        let place: usize = legs.legs.len();
        legs.legs.push(LegState { progress, extras: StringMap::new() });
        LegShared { ssrc, is_refer, place }
    }

    /// Changes the progress of the leg.
    pub fn update_progress(&self, legs: &mut LegTable, update: ProgressUpdate)
        requires
            self.held(*old(legs)),
        ensures
            self.held(*final(legs)),
            self.seen(*final(legs)) == (LegView {
                progress: self.seen(*old(legs)).progress.updated(update),
                ..self.seen(*old(legs))
            }),
            only_leg(*old(legs), *final(legs), self.place),
            self.wf(*old(legs)) && update_ok(update) ==> self.wf(*final(legs)),
    {
        legs.legs[self.place].progress.update(update);
    }

    /// Keeps an extra value, given as a JSON text.
    pub fn set_extra(&self, legs: &mut LegTable, key: &str, value: String)
        requires
            self.held(*old(legs)),
            self.state(*old(legs)).extras.wf(),
        ensures
            self.held(*final(legs)),
            self.state(*final(legs)).extras.wf(),
            self.state(*final(legs)).extras@ == self.state(*old(legs)).extras@.insert(
                key@,
                value@,
            ),
            self.seen(*final(legs)) == (LegView {
                extras: crate::maps::pairs_insert(self.seen(*old(legs)).extras, key@, value@),
                ..self.seen(*old(legs))
            }),
            only_leg(*old(legs), *final(legs), self.place),
    {
        legs.legs[self.place].extras.insert(key.to_string(), value);
    }

    /// The event that reports the end of the leg, as of `now`.
    pub fn build_hangup_event_at(
        &self,
        legs: &LegTable,
        track_id: String,
        initiator: Option<String>,
        now: Timestamp,
        timestamp: u64,
    ) -> (r: SessionEvent)
        requires
            self.wf(*legs),
            now.wf(),
        ensures
            r@ == hangup_event_of(
                self.seen(*legs).progress,
                self.seen(*legs).extras,
                self.is_refer,
                track_id@,
                text::opt_view(initiator),
                now,
                timestamp,
            ),
    {
        let leg: &LegState = &legs.legs[self.place];
        build_hangup_event_at(
            &leg.progress,
            &leg.extras,
            self.is_refer,
            track_id,
            initiator,
            now,
            timestamp,
        )
    }

    /// The event that reports the end of the leg.
    pub fn build_hangup_event(
        &self,
        legs: &LegTable,
        track_id: String,
        initiator: Option<String>,
        timestamp: u64,
    ) -> (r: SessionEvent)
        requires
            self.wf(*legs),
        ensures
            exists|now: Timestamp|
                now.wf() && clock::is_reading(now) && r@ == #[trigger] hangup_event_of(
                    self.seen(*legs).progress,
                    self.seen(*legs).extras,
                    self.is_refer,
                    track_id@,
                    text::opt_view(initiator),
                    now,
                    timestamp,
                ),
    {
        let now: Timestamp = clock::utc_now();
        self.build_hangup_event_at(legs, track_id, initiator, now, timestamp)
    }

    /// The record of the leg under the name of its dialog.
    pub fn build_callrecord(
        &self,
        legs: &LegTable,
        files: CallFiles,
        call_type: ActiveCallType,
    ) -> (r: CallRecord)
        requires
            self.held(*legs),
        ensures
            r.call_id@ == self.seen(*legs).progress.session_id,
            r.end_time.wf(),
            clock::is_reading(r.end_time),
            record_of(
                r,
                self.state(*legs).progress,
                self.seen(*legs).extras,
                files,
                call_type,
                r.end_time,
            ),
            r.refer_callrecord is None,
    {
        let session_id: String = legs.legs[self.place].progress.session_id.clone();
        self.build_callrecord_with_id(legs, files, call_type, session_id)
    }

    /// The record of the leg under a name.
    pub fn build_callrecord_with_id(
        &self,
        legs: &LegTable,
        files: CallFiles,
        call_type: ActiveCallType,
        session_id: String,
    ) -> (r: CallRecord)
        requires
            self.held(*legs),
        ensures
            r.call_id == session_id,
            r.end_time.wf(),
            clock::is_reading(r.end_time),
            record_of(
                r,
                self.state(*legs).progress,
                self.seen(*legs).extras,
                files,
                call_type,
                r.end_time,
            ),
            r.refer_callrecord is None,
    {
        let now: Timestamp = clock::utc_now();
        let leg: &LegState = &legs.legs[self.place];
        build_callrecord_at(&leg.progress, &leg.extras, None, files, session_id, call_type, now)
    }
}

/// The event that reports the end of a leg.
pub open spec fn hangup_event_of(
    progress: ProgressView,
    extras: Seq<(Seq<char>, Seq<char>)>,
    is_refer: bool,
    track_id: Seq<char>,
    initiator: Option<Seq<char>>,
    now: Timestamp,
    timestamp: u64,
) -> SessionEventView {
    SessionEventView::Hangup {
        track_id,
        timestamp,
        reason: match progress.hangup_reason {
            Some(reason) => Some(reason.name_of()),
            None => None,
        },
        initiator,
        start_time: match progress.start_time {
            Some(t) => clock::rfc3339_of(t.secs, t.nanos),
            None => clock::rfc3339_of(0, 0),
        },
        hangup_time: clock::rfc3339_of(now.secs, now.nanos),
        answer_time: clock::opt_rfc3339(progress.answer_time),
        ringing_time: clock::opt_rfc3339(progress.ring_time),
        from: match progress.option {
            Some(o) => text::opt_view(o.caller),
            None => None,
        },
        to: match progress.option {
            Some(o) => text::opt_view(o.callee),
            None => None,
        },
        extra: Some(extras),
        refer: Some(is_refer),
    }
}

/// The event that reports the end of a leg, as of `now`.
pub fn build_hangup_event_at(
    progress: &CallProgress,
    extras: &StringMap,
    is_refer: bool,
    track_id: String,
    initiator: Option<String>,
    now: Timestamp,
    timestamp: u64,
) -> (r: SessionEvent)
    requires
        progress@.times_ok(),
        now.wf(),
    ensures
        r@ == hangup_event_of(
            progress@,
            extras.pairs(),
            is_refer,
            track_id@,
            text::opt_view(initiator),
            now,
            timestamp,
        ),
{
    let (from, to): (Option<String>, Option<String>) = match &progress.option {
        Some(o) => (o.caller.clone(), o.callee.clone()),
        None => (None, None),
    };
    let reason: Option<String> = match &progress.hangup_reason {
        Some(reason) => Some(reason.name()),
        None => None,
    };
    let start: Timestamp = match progress.start_time {
        Some(t) => t,
        None => Timestamp::epoch(),
    };
    SessionEvent::Hangup {
        track_id,
        timestamp,
        reason,
        initiator,
        start_time: clock::rfc3339(start),
        hangup_time: clock::rfc3339(now),
        answer_time: clock::rfc3339_opt(progress.answer_time),
        ringing_time: clock::rfc3339_opt(progress.ring_time),
        from,
        to,
        extra: Some(extras.clone()),
        refer: Some(is_refer),
    }
}

/// The event that reports the end of a leg.
pub fn build_hangup_event(
    progress: &CallProgress,
    extras: &StringMap,
    is_refer: bool,
    track_id: String,
    initiator: Option<String>,
    timestamp: u64,
) -> (r: SessionEvent)
    requires
        progress@.times_ok(),
    ensures
        exists|now: Timestamp|
            now.wf() && clock::is_reading(now) && r@ == #[trigger] hangup_event_of(
                progress@,
                extras.pairs(),
                is_refer,
                track_id@,
                text::opt_view(initiator),
                now,
                timestamp,
            ),
{
    let now: Timestamp = clock::utc_now();
    build_hangup_event_at(progress, extras, is_refer, track_id, initiator, now, timestamp)
}

/// An optional text, or the empty one.
pub open spec fn text_or_empty(t: Option<String>) -> Seq<char> {
    match t {
        Some(t) => t@,
        None => Seq::empty(),
    }
}

/// A text that is there, or the empty one.
fn or_empty(t: &Option<String>) -> (r: String)
    ensures
        r@ == text_or_empty(*t),
{
    match t {
        Some(t) => t.clone(),
        None => String::new(),
    }
}

/// A record tells of a leg what was known of it, apart from the leg to which
/// it was referred.
pub open spec fn record_of(
    r: CallRecord,
    progress: CallProgress,
    extras: Seq<(Seq<char>, Seq<char>)>,
    files: CallFiles,
    call_type: ActiveCallType,
    now: Timestamp,
) -> bool {
    &&& r.call_type == call_type
    &&& r.option is Some
    &&& match progress.option {
        Some(o) => r.option->0 == o,
        None => r.option->0.unset(),
    }
    &&& r.start_time == match progress.start_time {
        Some(t) => t,
        None => (Timestamp { secs: 0, nanos: 0 }),
    }
    &&& r.ring_time == progress.ring_time
    &&& r.answer_time == progress.answer_time
    &&& r.end_time == now
    &&& r.caller@ == text_or_empty(r.option->0.caller)
    &&& r.callee@ == text_or_empty(r.option->0.callee)
    &&& r.status_code == progress.last_status_code
    &&& r.hangup_reason == progress.hangup_reason
    &&& r.hangup_messages@.len() == 0
    &&& crate::maps::opt_pairs(r.extras) == Some(extras)
    &&& r.dump_event_file == if files.dump_event_exists {
        Some(files.dump_event_file)
    } else {
        None
    }
    &&& if r.option->0.recorder is Some && files.recorder_size is Some {
        r.recorder@ == seq![
            CallRecordMedia {
                track_id: r.call_id,
                path: files.recorder_file,
                size: files.recorder_size->0,
                extra: None,
            },
        ]
    } else {
        r.recorder@.len() == 0
    }
}

/// The record of a call, as of `now`, with the record of the leg to which it
/// was referred.
pub fn build_callrecord_at(
    progress: &CallProgress,
    extras: &StringMap,
    refer_callrecord: Option<CallRecord>,
    files: CallFiles,
    session_id: String,
    call_type: ActiveCallType,
    now: Timestamp,
) -> (r: CallRecord)
    ensures
        r.call_id == session_id,
        record_of(r, *progress, extras.pairs(), files, call_type, now),
        match (refer_callrecord, r.refer_callrecord) {
            (Some(leg), Some(kept)) => *kept == leg,
            (None, None) => true,
            _ => false,
        },
{
    let option: CallOption = match &progress.option {
        Some(o) => o.clone(),
        None => CallOption::default(),
    };
    let mut recorder: Vec<CallRecordMedia> = Vec::new();
    if option.recorder.is_some() {
        if let Some(size) = files.recorder_size {
            recorder.push(
                CallRecordMedia {
                    track_id: session_id.clone(),
                    path: files.recorder_file,
                    size,
                    extra: None,
                },
            );
        }
    }
    assert(option.recorder is Some && files.recorder_size is Some ==> recorder@ =~= seq![
        CallRecordMedia {
            track_id: session_id,
            path: files.recorder_file,
            size: files.recorder_size->0,
            extra: None,
        },
    ]);
    let dump_event_file: Option<String> = if files.dump_event_exists {
        Some(files.dump_event_file)
    } else {
        None
    };
    let caller: String = or_empty(&option.caller);
    let callee: String = or_empty(&option.callee);
    let start_time: Timestamp = match progress.start_time {
        Some(t) => t,
        None => Timestamp::epoch(),
    };
    CallRecord {
        call_type,
        option: Some(option),
        call_id: session_id,
        start_time,
        ring_time: progress.ring_time,
        answer_time: progress.answer_time,
        end_time: now,
        caller,
        callee,
        status_code: progress.last_status_code,
        hangup_reason: progress.hangup_reason,
        hangup_messages: Vec::new(),
        extras: Some(extras.clone()),
        dump_event_file,
        recorder,
        refer_callrecord: match refer_callrecord {
            Some(leg) => Some(Box::new(leg)),
            None => None,
        },
    }
}

/// The record of a call. The leg to which it was referred is recorded first,
/// as a bridged call of its own.
pub fn build_callrecord(
    progress: &CallProgress,
    extras: &StringMap,
    legs: &LegTable,
    refer_leg: Option<(&LegShared, CallFiles)>,
    files: CallFiles,
    session_id: String,
    call_type: ActiveCallType,
) -> (r: CallRecord)
    requires
        refer_leg matches Some((leg, _)) ==> leg.held(*legs),
    ensures
        r.call_id == session_id,
        r.end_time.wf(),
        clock::is_reading(r.end_time),
        record_of(r, *progress, extras.pairs(), files, call_type, r.end_time),
        match (refer_leg, r.refer_callrecord) {
            (Some((leg, leg_files)), Some(kept)) => {
                &&& kept.call_id@ == leg.seen(*legs).progress.session_id
                &&& kept.end_time.wf()
                &&& clock::is_reading(kept.end_time)
                &&& record_of(
                    *kept,
                    leg.state(*legs).progress,
                    leg.seen(*legs).extras,
                    leg_files,
                    ActiveCallType::B2bua,
                    kept.end_time,
                )
                &&& kept.refer_callrecord is None
            },
            (None, None) => true,
            _ => false,
        },
{
    let refer_callrecord: Option<CallRecord> = match refer_leg {
        Some((leg, leg_files)) => Some(
            leg.build_callrecord(legs, leg_files, ActiveCallType::B2bua),
        ),
        None => None,
    };
    let now: Timestamp = clock::utc_now();
    build_callrecord_at(progress, extras, refer_callrecord, files, session_id, call_type, now)
}

/// The text that [`utf8_lossy`] reads in bytes.
pub uninterp spec fn lossy_text(bytes: Seq<u8>) -> Seq<char>;

/// Reads bytes as UTF-8 with `String::from_utf8_lossy`, which puts replacement
/// characters where the bytes are no UTF-8. Bytes that are UTF-8 are read as
/// they stand; how many replacement characters come otherwise is left open
/// here.
#[verifier::external_body]
pub(crate) fn utf8_lossy(bytes: &Vec<u8>) -> (r: String)
    ensures
        r@ == lossy_text(bytes@),
        vstd::utf8::valid_utf8(bytes@) ==> r@ == vstd::utf8::decode_utf8(bytes@),
{
    String::from_utf8_lossy(bytes).to_string()
}

/// Bytes that are UTF-8 are read as they stand.
pub open spec fn read_plainly(bytes: Seq<u8>) -> bool {
    vstd::utf8::valid_utf8(bytes) ==> lossy_text(bytes) == vstd::utf8::decode_utf8(bytes)
}

/// The words of an error that says that no answer came.
pub const NO_ANSWER: &'static str = "no answer received";

/// The answer of a call, and whether it was in force already: the body of the
/// final response, or the early answer where that body is blank or missing.
pub open spec fn final_answer(raw: Option<Seq<char>>, early: Option<Seq<char>>) -> Option<
    (Seq<char>, bool),
> {
    let early = match early {
        Some(e) if e.len() > 0 => Some((e, true)),
        _ => None,
    };
    match raw {
        Some(s) => if text::trim_of(s).len() == 0 && early is Some {
            early
        } else {
            Some((s, false))
        },
        None => early,
    }
}

/// The answer of a call whose final response has been read as text.
pub fn choose_answer(raw: Option<String>, early: Option<&String>) -> (r: Result<
    (String, bool),
    &'static str,
>)
    ensures
        match (r, final_answer(
            text::opt_view(raw),
            match early {
                Some(e) => Some(e@),
                None => None,
            },
        )) {
            (Ok((sdp, applied)), Some((a, b))) => sdp@ == a && applied == b,
            (Err(e), None) => e@ == NO_ANSWER@,
            _ => false,
        },
{
    match raw {
        Some(s) => {
            if text::trim(s.as_str()).as_str().unicode_len() == 0 {
                if let Some(e) = early {
                    if e.as_str().unicode_len() != 0 {
                        return Ok((e.clone(), true));
                    }
                }
            }
            Ok((s, false))
        },
        None => {
            if let Some(e) = early {
                if e.as_str().unicode_len() != 0 {
                    return Ok((e.clone(), true));
                }
            }
            Err(NO_ANSWER)
        },
    }
}

/// The text of an optional body.
pub open spec fn body_text(raw: Option<Vec<u8>>) -> Option<Seq<char>> {
    match raw {
        Some(bytes) => Some(lossy_text(bytes@)),
        None => None,
    }
}

/// The answer of a call, and whether it was in force already.
pub fn resolve_final_answer(raw: Option<Vec<u8>>, early: Option<&String>) -> (r: Result<
    (String, bool),
    &'static str,
>)
    ensures
        match (r, final_answer(
            body_text(raw),
            match early {
                Some(e) => Some(e@),
                None => None,
            },
        )) {
            (Ok((sdp, applied)), Some((a, b))) => sdp@ == a && applied == b,
            (Err(e), None) => e@ == NO_ANSWER@,
            _ => false,
        },
        raw matches Some(bytes) ==> read_plainly(bytes@),
        raw is Some ==> r is Ok,
        raw is Some && raw->0@.len() == 0 && early is Some && early->0@.len() > 0 ==> (r matches Ok(
            (sdp, applied),
        ) && sdp@ == early->0@ && applied),
{
    let body: Option<String> = match raw {
        Some(bytes) => {
            let body: String = utf8_lossy(&bytes);
            assert(bytes@.len() == 0 ==> body@ =~= Seq::<char>::empty());
            Some(body)
        },
        None => None,
    };
    choose_answer(body, early)
}

/// An early answer is never lost: unless the final response brings another, it
/// is the answer of the call.
pub proof fn law_early_answer_stays(raw: Option<Seq<char>>, early: Seq<char>)
    requires
        early.len() > 0,
        raw matches Some(s) ==> text::trim_of(s).len() == 0,
    ensures
        final_answer(raw, Some(early)) == Some((early, true)),
{
}

/// A message to the one task that runs a call.
#[derive(Debug, PartialEq, Eq)]
pub enum ActorMsg {
    /// A referred leg was set up, or failed.
    ReferDone { track_id: String, forward_dtmf: bool, result: Result<String, SipError> },
}

/// Where the track of an incoming call stands.
#[derive(Debug, Clone, Copy, PartialEq, Eq, Structural)]
pub enum PendingCallerTrack {
    /// It plays early media; its processors are still to be made.
    StartedForEarlyMedia,
}

/// What the task that runs a call keeps for itself.
#[derive(Debug, PartialEq, Eq)]
pub struct CallRuntime {
    pub input_timeout_expire: (u64, u32),
    /// The answer, the track and the dialog of an incoming call that waits to
    /// be accepted.
    pub ready_to_answer: Option<(String, PendingCallerTrack, DialogId)>,
}

impl CallRuntime {
    /// A call without a time limit for input, and without a caller who waits.
    pub fn new() -> (r: Self)
        ensures
            r.input_timeout_expire == (0u64, 0u32),
            r.ready_to_answer is None,
    {
        CallRuntime { input_timeout_expire: (0, 0), ready_to_answer: None }
    }
}

/// What is reported of a leg is noted where nothing was noted before, and nothing
/// else of its progress changes. A status code is noted always.
pub proof fn law_reports_are_noted(
    p: ProgressView,
    code: u16,
    id: Seq<char>,
    sdp: Seq<char>,
    reason: CallRecordHangupReason,
    now: Timestamp,
)
    ensures
        p.ring_time is None ==> p.early(code, now) == (ProgressView {
            ring_time: Some(now),
            last_status_code: code,
            ..p
        }),
        p.ring_time is Some ==> p.early(code, now) == (ProgressView {
            last_status_code: code,
            ..p
        }),
        p.answer_time is None ==> p.answered(now) == (ProgressView {
            answer_time: Some(now),
            last_status_code: 200,
            ..p
        }),
        p.answer_time is Some ==> p.answered(now) == (ProgressView { last_status_code: 200, ..p }),
        p.confirmed(id, now) == (ProgressView { session_id: id, ..p.answered(now) }),
        p.answer is None ==> p.with_answer(sdp) == (ProgressView { answer: Some(sdp), ..p }),
        p.hangup_reason is None ==> p.with_hangup(reason) == (ProgressView {
            hangup_reason: Some(reason),
            ..p
        }),
        p.hangup_reason is None ==> p.terminated(code, reason) == (ProgressView {
            hangup_reason: Some(reason),
            last_status_code: code,
            ..p
        }),
        p.hangup_reason is Some ==> p.terminated(code, reason) == (ProgressView {
            last_status_code: code,
            ..p
        }),
{
}

/// An update notes what it brings: a name, the words of an answer, which take the
/// place of others, or the offer with which the leg is dialled, which starts the
/// time of the leg anew. Its other settings and all else stay.
pub proof fn law_updates_are_noted(
    p: ProgressView,
    name: String,
    words: Option<String>,
    offer: String,
    now: Timestamp,
)
    ensures
        p.updated(ProgressUpdate::Session { session_id: name }) == (ProgressView {
            session_id: name@,
            ..p
        }),
        words matches Some(w) ==> p.updated(ProgressUpdate::Answered { answer: words, now })
            == (ProgressView { answer: Some(w@), ..p.answered(now) }),
        words is None ==> p.updated(ProgressUpdate::Answered { answer: words, now }) == (
        ProgressView { answer: None, ..p.answered(now) }),
        p.option matches Some(o) ==> p.updated(ProgressUpdate::Dialled { offer, now }) == (
        ProgressView {
            option: Some(CallOption { offer: Some(offer), ..o }),
            start_time: Some(now),
            ..p
        }),
        p.option is None ==> p.updated(ProgressUpdate::Dialled { offer, now }) == (ProgressView {
            start_time: Some(now),
            ..p
        }),
{
}

/// Whoever ends a dialog is taken for the one who ended the call: the side that
/// called by hanging up, giving up or being busy, the side that was called by
/// hanging up, declining or being busy. A code that stands for another end is
/// kept, and the system ends what neither side did.
pub proof fn law_end_names_its_side(reason: TerminatedReason, code: u16)
    ensures
        ({
            let (status, side, initiator) = termination_of(Some(reason));
            &&& reason is UacBye || reason is UacBusy || reason is UacOther ==> side
                == CallRecordHangupReason::ByCaller
            &&& reason is UasBye || reason is UasBusy || reason is UasDecline || reason is UasOther
                ==> side == CallRecordHangupReason::ByCallee
            &&& reason is UacCancel <==> side == CallRecordHangupReason::Canceled
            &&& reason is UacCancel || reason is UacBye || reason is UacBusy <==> initiator
                == "caller"@
            &&& reason is UasBye || reason is UasBusy || reason is UasDecline <==> initiator
                == "callee"@
            &&& reason is UacBye || reason is UasBye ==> status == 200
            &&& reason is UacBusy || reason is UasBusy ==> status == 486
            &&& reason is UasDecline ==> status == 603
            &&& reason is UacCancel ==> status == 487
            &&& reason == TerminatedReason::UacOther(code) || reason == TerminatedReason::UasOther(
                code,
            ) ==> status == code && initiator == "system"@
            &&& reason is Timeout || reason is ProxyError || reason is ProxyAuthRequired ==> status
                == 500 && side == CallRecordHangupReason::BySystem && initiator == "system"@
        }),
        termination_of(None) == (500u16, CallRecordHangupReason::BySystem, "system"@),
{
    reveal_strlit("caller");
    reveal_strlit("callee");
    reveal_strlit("system");
    assert("caller"@[5] == 'r');
    assert("callee"@[5] == 'e');
    assert("system"@[0] == 's');
}

/// Settings that a call brings win over those that are there; of those that it
/// leaves open, these ten are filled from what is there. All others stay as the
/// call has them.
pub proof fn law_own_settings_win(option: CallOption, existing: CallOption)
    ensures
        ({
            let m = merged(option, Some(existing));
            &&& option.asr is Some ==> m.asr == option.asr
            &&& option.asr is None ==> m.asr == existing.asr
            &&& option.tts is Some ==> m.tts == option.tts
            &&& option.tts is None ==> m.tts == existing.tts
            &&& option.vad is Some ==> m.vad == option.vad
            &&& option.vad is None ==> m.vad == existing.vad
            &&& option.denoise is Some ==> m.denoise == option.denoise
            &&& option.denoise is None ==> m.denoise == existing.denoise
            &&& option.agc is Some ==> m.agc == option.agc
            &&& option.agc is None ==> m.agc == existing.agc
            &&& option.recorder is Some ==> m.recorder == option.recorder
            &&& option.recorder is None ==> m.recorder == existing.recorder
            &&& option.eou is Some ==> m.eou == option.eou
            &&& option.eou is None ==> m.eou == existing.eou
            &&& option.extra is Some ==> m.extra == option.extra
            &&& option.extra is None ==> m.extra == existing.extra
            &&& option.ambiance is Some ==> m.ambiance == option.ambiance
            &&& option.ambiance is None ==> m.ambiance == existing.ambiance
            &&& option.ringback_detection is Some ==> m.ringback_detection
                == option.ringback_detection
            &&& option.ringback_detection is None ==> m.ringback_detection
                == existing.ringback_detection
            &&& m == (CallOption {
                asr: m.asr,
                tts: m.tts,
                vad: m.vad,
                denoise: m.denoise,
                agc: m.agc,
                recorder: m.recorder,
                eou: m.eou,
                extra: m.extra,
                ambiance: m.ambiance,
                ringback_detection: m.ringback_detection,
                ..option
            })
        }),
        merged(option, None) == option,
{
}

/// The answer of a call is what its final response says, and is then still to be
/// put in force; an early answer takes its place only where the response says
/// nothing. Where neither says anything, there is no answer.
pub proof fn law_final_answer_wins(words: Seq<char>, early: Option<Seq<char>>)
    ensures
        text::trim_of(words).len() > 0 ==> final_answer(Some(words), early) == Some((words, false)),
        (early matches Some(e) ==> e.len() == 0) ==> final_answer(Some(words), early) == Some(
            (words, false),
        ),
        (early matches Some(e) ==> e.len() == 0) ==> final_answer(None, early) is None,
        early matches Some(e) ==> (e.len() > 0 ==> final_answer(None, early) == Some((e, true))),
{
}

/// A record tells how a leg went: its times, its end, its parties, its settings
/// and its extra values, each as the progress of the leg has it.
pub proof fn law_record_tells_how_it_went(
    r: CallRecord,
    progress: CallProgress,
    extras: Seq<(Seq<char>, Seq<char>)>,
    files: CallFiles,
    call_type: ActiveCallType,
    now: Timestamp,
)
    requires
        record_of(r, progress, extras, files, call_type, now),
    ensures
        r.call_type == call_type,
        r.end_time == now,
        r.ring_time == progress.ring_time,
        r.answer_time == progress.answer_time,
        progress.start_time matches Some(t) ==> r.start_time == t,
        progress.start_time is None ==> r.start_time.secs == 0 && r.start_time.nanos == 0,
        r.status_code == progress.last_status_code,
        r.hangup_reason == progress.hangup_reason,
        progress.option matches Some(o) ==> {
            &&& r.option == Some(o)
            &&& o.caller matches Some(c) ==> r.caller@ == c@
            &&& o.caller is None ==> r.caller@.len() == 0
            &&& o.callee matches Some(c) ==> r.callee@ == c@
            &&& o.callee is None ==> r.callee@.len() == 0
        },
        r.extras matches Some(e) && e.pairs() == extras,
        r.hangup_messages@.len() == 0,
{
}

/// A record names the recording where one was asked for and is there, with its
/// path and its size under the name of the record, and names the dump of events
/// where it is there; it names no others.
pub proof fn law_record_names_its_files(
    r: CallRecord,
    progress: CallProgress,
    extras: Seq<(Seq<char>, Seq<char>)>,
    files: CallFiles,
    call_type: ActiveCallType,
    now: Timestamp,
)
    requires
        record_of(r, progress, extras, files, call_type, now),
    ensures
        files.dump_event_exists ==> r.dump_event_file == Some(files.dump_event_file),
        !files.dump_event_exists ==> r.dump_event_file is None,
        files.recorder_size is None ==> r.recorder@.len() == 0,
        progress.option matches Some(o) ==> (o.recorder is None ==> r.recorder@.len() == 0),
        progress.option matches Some(o) ==> (files.recorder_size matches Some(size) ==> (
        o.recorder is Some ==> r.recorder@.len() == 1 && r.recorder@[0].path == files.recorder_file
            && r.recorder@[0].size == size && r.recorder@[0].track_id == r.call_id)),
        progress.option is None ==> r.recorder@.len() == 0,
{
}

/// What is seen of the progress of a leg is what is known of it, and whoever holds
/// the leg sees that progress and the extra values that are kept with it.
pub proof fn law_view_of_leg(progress: CallProgress, leg: LegShared, legs: LegTable)
    ensures
        progress@.session_id == progress.session_id@ && progress@.start_time
            == progress.start_time,
        progress@.ring_time == progress.ring_time && progress@.answer_time == progress.answer_time,
        progress@.last_status_code == progress.last_status_code,
        progress@.hangup_reason == progress.hangup_reason && progress@.option == progress.option,
        progress.answer matches Some(a) ==> progress@.answer == Some(a@),
        progress.answer is None ==> progress@.answer is None,
        leg.seen(legs).ssrc == leg.ssrc && leg.seen(legs).is_refer == leg.is_refer,
        leg.seen(legs).progress == legs.legs@[leg.place as int].progress@,
        leg.seen(legs).extras == legs.legs@[leg.place as int].extras.pairs(),
{
}

/// Bytes that are UTF-8 are read as the text that they encode; a body that is not
/// there has no text.
pub proof fn law_bodies_are_read(body: Vec<u8>)
    ensures
        read_plainly(body@) && vstd::utf8::valid_utf8(body@) ==> body_text(Some(body)) == Some(
            vstd::utf8::decode_utf8(body@),
        ),
        body_text(Some(body)) == Some(lossy_text(body@)),
        body_text(None) is None,
{
}

/// The end of a leg is told with the names that it is given: the track, the time of
/// the event and whoever ended the leg, where that is known; and with the times and
/// the parties that its progress knows.
pub proof fn law_end_takes_its_names(
    progress: ProgressView,
    extras: Seq<(Seq<char>, Seq<char>)>,
    is_refer: bool,
    track: Seq<char>,
    by: Option<Seq<char>>,
    now: Timestamp,
    at: u64,
)
    ensures
        ({
            let event = hangup_event_of(progress, extras, is_refer, track, by, now, at);
            &&& event matches SessionEventView::Hangup {
                track_id,
                timestamp,
                reason,
                initiator,
                start_time,
                hangup_time,
                answer_time,
                ringing_time,
                from,
                to,
                extra,
                refer,
            }
            &&& progress.start_time matches Some(t) ==> start_time == clock::rfc3339_of(
                t.secs,
                t.nanos,
            )
            &&& progress.start_time is None ==> start_time == clock::rfc3339_of(0, 0)
            &&& answer_time == clock::opt_rfc3339(progress.answer_time)
            &&& ringing_time == clock::opt_rfc3339(progress.ring_time)
            &&& progress.option is None ==> from is None && to is None
            &&& progress.option matches Some(o) ==> from == text::opt_view(o.caller) && to
                == text::opt_view(o.callee)
            &&& track_id == track && timestamp == at && initiator == by
            &&& hangup_time == clock::rfc3339_of(now.secs, now.nanos)
            &&& extra == Some(extras) && refer == Some(is_refer)
            &&& progress.hangup_reason matches Some(known) ==> reason == Some(known.name_of())
            &&& progress.hangup_reason is None ==> reason is None
        }),
{
}

}
