//! The dialogs of a call: what their events do to the leg, and what they ask
//! of the surroundings.
use crate::call::state::{
    CallProgress, LegShared, LegTable, LegView, ProgressUpdate, ProgressView, TerminationInfo,
};
use crate::callrecord::CallRecordHangupReason;
use crate::clock::Timestamp;
use crate::event::{SessionEvent, SessionEventView};
use crate::media::track::{TrackCommand, TrackCommandView};
use crate::sip::{
    DialogId, Header, HeaderName, Method, SipError, SipErrorView, TerminatedReason,
};
use crate::{call::state, clock, sip, sip_util, text};
use vstd::prelude::*;
use vstd::string::*;

verus! {

/// What the dialog of a leg reports.
#[derive(Debug, PartialEq, Eq)]
pub enum DialogEvent {
    Calling { dialog_id: DialogId },
    Trying,
    Early { code: u16, body: Vec<u8> },
    Confirmed { dialog_id: DialogId, body: Vec<u8> },
    Info { body: Vec<u8> },
    Message { headers: Vec<Header>, body: Vec<u8> },
    /// A request within the dialog; `on_hold` tells whether the session
    /// description in its body puts this side on hold.
    Updated { method: Method, body: Vec<u8>, on_hold: bool },
    Options,
    Refer { headers: Vec<Header> },
    Terminated { reason: TerminatedReason },
    Other,
}

/// What the surroundings do for a dialog, one after the other. Where a step
/// that must succeed fails, the steps behind it are left out and the dialog is
/// given up.
#[derive(Debug, PartialEq, Eq)]
pub enum DialogAction {
    /// Report an event.
    Emit { event: SessionEvent, must: bool },
    /// The other side sent early media; see [`InviteDialogStates::on_early_media`].
    EarlyMedia { answer: String },
    /// Hand a command to the media stream.
    Command { command: TrackCommand, must: bool },
    /// Put the track on hold.
    HoldTrack { track_id: String },
    /// Let the track run again.
    ResumeTrack { track_id: String },
    /// Hand the offer to the track; see [`reinvite_reply`] for what comes next.
    Renegotiate { track_id: String, offer: String },
    /// Answer the request.
    Reply { code: u16 },
    /// Answer the request with a session description.
    ReplySdp { code: u16, sdp: String },
    /// The dialog is over.
    Stop,
}

/// What a [`DialogAction`] holds.
#[verifier::ext_equal]
pub enum DialogActionView {
    Emit { event: SessionEventView, must: bool },
    EarlyMedia { answer: Seq<char> },
    Command { command: TrackCommandView, must: bool },
    HoldTrack { track_id: Seq<char> },
    ResumeTrack { track_id: Seq<char> },
    Renegotiate { track_id: Seq<char>, offer: Seq<char> },
    Reply { code: u16 },
    ReplySdp { code: u16, sdp: Seq<char> },
    Stop,
}

impl View for DialogAction {
    type V = DialogActionView;

    open spec fn view(&self) -> DialogActionView {
        match *self {
            DialogAction::Emit { event, must } => DialogActionView::Emit { event: event@, must },
            DialogAction::EarlyMedia { answer } => DialogActionView::EarlyMedia {
                answer: answer@,
            },
            DialogAction::Command { command, must } => DialogActionView::Command {
                command: command@,
                must,
            },
            DialogAction::HoldTrack { track_id } => DialogActionView::HoldTrack {
                track_id: track_id@,
            },
            DialogAction::ResumeTrack { track_id } => DialogActionView::ResumeTrack {
                track_id: track_id@,
            },
            DialogAction::Renegotiate { track_id, offer } => DialogActionView::Renegotiate {
                track_id: track_id@,
                offer: offer@,
            },
            DialogAction::Reply { code } => DialogActionView::Reply { code },
            DialogAction::ReplySdp { code, sdp } => DialogActionView::ReplySdp { code, sdp: sdp@ },
            DialogAction::Stop => DialogActionView::Stop,
        }
    }
}

/// The views of a list of actions.
pub open spec fn action_views(actions: Seq<DialogAction>) -> Seq<DialogActionView> {
    Seq::new(actions.len(), |i: int| actions[i]@)
}

/// The state of a leg while its dialog lasts.
#[derive(Debug, PartialEq, Eq)]
pub struct InviteDialogStates {
    /// This side called.
    pub is_client: bool,
    pub session_id: String,
    pub track_id: String,
    /// The leg was told to end.
    pub cancelled: bool,
    pub leg: LegShared,
    pub terminated_reason: Option<TerminatedReason>,
    pub has_early_media: bool,
    /// Why the call is to be hung up once this leg ends.
    pub hangup_reason: Option<CallRecordHangupReason>,
}

/// What is seen of an [`InviteDialogStates`] and its leg.
#[verifier::ext_equal]
pub struct StatesView {
    pub is_client: bool,
    pub session_id: Seq<char>,
    pub track_id: Seq<char>,
    pub cancelled: bool,
    pub leg: LegView,
    pub terminated_reason: Option<TerminatedReason>,
    pub has_early_media: bool,
    pub hangup_reason: Option<CallRecordHangupReason>,
}

impl InviteDialogStates {
    /// What is seen of the state and its leg.
    pub open spec fn seen(&self, legs: LegTable) -> StatesView {
        StatesView {
            is_client: self.is_client,
            session_id: self.session_id@,
            track_id: self.track_id@,
            cancelled: self.cancelled,
            leg: self.leg.seen(legs),
            terminated_reason: self.terminated_reason,
            has_early_media: self.has_early_media,
            hangup_reason: self.hangup_reason,
        }
    }
}

impl StatesView {
    /// The state with another progress of the leg.
    pub open spec fn with_progress(self, progress: ProgressView) -> StatesView {
        StatesView { leg: LegView { progress, ..self.leg }, ..self }
    }

    /// The flag that events of a referred leg carry.
    pub open spec fn refer(self) -> Option<bool> {
        Some(self.leg.is_refer)
    }
}

/// A text without the given prefix, taken off as often as it stands there.
pub open spec fn strip_all(s: Seq<char>, prefix: Seq<char>) -> Seq<char>
    decreases s.len(),
{
    if prefix.len() > 0 && prefix.is_prefix_of(s) {
        strip_all(s.skip(prefix.len() as int), prefix)
    } else {
        s
    }
}

/// The digit in the body of an INFO request; `None` where there is none.
pub open spec fn signalled_digit(body: Seq<char>) -> Option<Seq<char>> {
    let rest = strip_all(body, "Signal="@);
    if "Signal="@.is_prefix_of(body) && rest.len() > 0 {
        Some(seq![rest[0]])
    } else {
        None
    }
}

/// Putting a leg on hold, or letting it run again.
pub open spec fn hold_actions(
    track_id: Seq<char>,
    is_refer: bool,
    on_hold: bool,
    timestamp: u64,
) -> Seq<DialogActionView> {
    seq![
        if on_hold {
            DialogActionView::HoldTrack { track_id }
        } else {
            DialogActionView::ResumeTrack { track_id }
        },
        DialogActionView::Emit {
            event: SessionEventView::Hold { track_id, timestamp, on_hold, refer: Some(is_refer) },
            must: false,
        },
    ]
}

/// What follows the acceptance of a call: the side that called hands the answer
/// to the track, where there is one.
pub open spec fn confirmed_actions(s: StatesView, answer: Seq<char>) -> Seq<DialogActionView> {
    if s.is_client && answer.len() > 0 {
        seq![
            DialogActionView::Command {
                command: TrackCommandView::UpdateRemoteDescription {
                    track_id: s.track_id,
                    answer,
                    force: s.has_early_media,
                },
                must: false,
            },
        ]
    } else {
        Seq::empty()
    }
}

/// What follows a request within the dialog: a new offer is negotiated, any
/// other description goes to the track.
pub open spec fn updated_actions(
    s: StatesView,
    method: Method,
    sdp: Seq<char>,
    on_hold: bool,
    timestamp: u64,
) -> Seq<DialogActionView> {
    if sdp.len() > 0 && (method == Method::Invite || method == Method::Update) {
        hold_actions(s.track_id, s.leg.is_refer, on_hold, timestamp) + seq![
            DialogActionView::Renegotiate { track_id: s.track_id, offer: sdp },
        ]
    } else {
        hold_actions(s.track_id, s.leg.is_refer, on_hold, timestamp) + seq![
            DialogActionView::Command {
                command: TrackCommandView::UpdateRemoteDescription {
                    track_id: s.track_id,
                    answer: sdp,
                    force: false,
                },
                must: true,
            },
            DialogActionView::Reply { code: 200 },
        ]
    }
}

/// The bytes that are read as text when an event of the dialog is taken in.
pub open spec fn body_read(is_client: bool, event: DialogEvent) -> Option<Seq<u8>> {
    match event {
        DialogEvent::Early { body, .. } => Some(body@),
        DialogEvent::Confirmed { body, .. } if is_client => Some(body@),
        DialogEvent::Info { body } => Some(body@),
        DialogEvent::Message { body, .. } => Some(body@),
        DialogEvent::Updated { body, .. } => Some(body@),
        _ => None,
    }
}

/// The state and the actions that an event of the dialog leads to.
pub open spec fn dialog_step(
    s: StatesView,
    event: DialogEvent,
    now: Timestamp,
    timestamp: u64,
) -> (StatesView, Seq<DialogActionView>) {
    let p = s.leg.progress;
    match event {
        DialogEvent::Calling { dialog_id } => (
            s.with_progress(ProgressView { session_id: dialog_id.text_of(), ..p }),
            Seq::empty(),
        ),
        DialogEvent::Early { code, body } => (
            s.with_progress(p.early(code, now)),
            if !s.is_client {
                Seq::empty()
            } else {
                let answer = state::lossy_text(body@);
                let ringing = DialogActionView::Emit {
                    event: SessionEventView::Ringing {
                        track_id: s.track_id,
                        timestamp,
                        early_media: answer.len() > 0,
                        refer: s.refer(),
                    },
                    must: true,
                };
                if answer.len() > 0 {
                    seq![ringing, DialogActionView::EarlyMedia { answer }]
                } else {
                    seq![ringing]
                }
            },
        ),
        DialogEvent::Confirmed { dialog_id, body } => (
            s.with_progress(p.confirmed(dialog_id.text_of(), now)),
            confirmed_actions(s, text::trim_of(state::lossy_text(body@))),
        ),
        DialogEvent::Info { body } => (
            s,
            match signalled_digit(state::lossy_text(body@)) {
                Some(digit) => seq![
                    DialogActionView::Emit {
                        event: SessionEventView::Dtmf {
                            track_id: s.track_id,
                            timestamp,
                            digit,
                            refer: s.refer(),
                        },
                        must: true,
                    },
                    DialogActionView::Reply { code: 200 },
                ],
                None => seq![DialogActionView::Reply { code: 200 }],
            },
        ),
        DialogEvent::Message { headers, body } => (
            s,
            seq![
                DialogActionView::Emit {
                    event: SessionEventView::Message {
                        track_id: s.track_id,
                        timestamp,
                        body: state::lossy_text(body@),
                        content_type: sip::first_value(headers@, HeaderName::ContentType),
                        refer: s.refer(),
                    },
                    must: false,
                },
                DialogActionView::Reply { code: 200 },
            ],
        ),
        DialogEvent::Updated { method, body, on_hold } => (
            s,
            updated_actions(s, method, state::lossy_text(body@), on_hold, timestamp),
        ),
        DialogEvent::Options => (s, seq![DialogActionView::Reply { code: 200 }]),
        DialogEvent::Refer { headers } => (
            s,
            seq![
                DialogActionView::Reply { code: 202 },
                DialogActionView::Emit {
                    event: SessionEventView::TransferRequest {
                        track_id: s.track_id,
                        timestamp,
                        refer_to: match sip::first_value(headers@, HeaderName::ReferTo) {
                            Some(v) => v,
                            None => Seq::empty(),
                        },
                        referred_by: sip::first_value(headers@, HeaderName::ReferredBy),
                        refer: s.refer(),
                    },
                    must: false,
                },
            ],
        ),
        DialogEvent::Terminated { reason } => (
            StatesView { terminated_reason: Some(reason), ..s },
            seq![DialogActionView::Stop],
        ),
        DialogEvent::Trying | DialogEvent::Other => (s, Seq::empty()),
    }
}

/// An event of the dialog changes nothing but the progress of the leg and the
/// reason for its end; the names of the leg, its flags, its settings, its answer
/// and its extra values stay.
pub proof fn law_step_keeps_identity(
    s: StatesView,
    event: DialogEvent,
    now: Timestamp,
    timestamp: u64,
)
    ensures
        ({
            let after = dialog_step(s, event, now, timestamp).0;
            &&& after.is_client == s.is_client
            &&& after.session_id == s.session_id
            &&& after.track_id == s.track_id
            &&& after.cancelled == s.cancelled
            &&& after.has_early_media == s.has_early_media
            &&& after.leg.ssrc == s.leg.ssrc
            &&& after.leg.is_refer == s.leg.is_refer
            &&& after.leg.extras == s.leg.extras
            &&& after.leg.progress.answer == s.leg.progress.answer
            &&& after.leg.progress.option == s.leg.progress.option
            &&& after.hangup_reason == s.hangup_reason
        }),
{
}

/// How many of the actions answer a request, by themselves or once the track has
/// taken an offer.
pub open spec fn replies(actions: Seq<DialogActionView>) -> nat
    decreases actions.len(),
{
    if actions.len() == 0 {
        0
    } else {
        replies(actions.drop_last()) + match actions.last() {
            DialogActionView::Reply { .. } => 1nat,
            DialogActionView::ReplySdp { .. } => 1nat,
            DialogActionView::Renegotiate { .. } => 1nat,
            _ => 0nat,
        }
    }
}

/// A request within a dialog is answered once, by the step itself or once the
/// track has taken the offer; nothing else is answered.
pub proof fn law_requests_are_answered_once(
    s: StatesView,
    event: DialogEvent,
    now: Timestamp,
    timestamp: u64,
)
    ensures
        replies(dialog_step(s, event, now, timestamp).1) == match event {
            DialogEvent::Info { .. } => 1nat,
            DialogEvent::Message { .. } => 1nat,
            DialogEvent::Updated { .. } => 1nat,
            DialogEvent::Options => 1nat,
            DialogEvent::Refer { .. } => 1nat,
            _ => 0nat,
        },
{
    reveal_with_fuel(replies, 6);
    let actions = dialog_step(s, event, now, timestamp).1;
    if actions.len() == 4 {
        assert(actions.drop_last().drop_last().drop_last().drop_last() =~= Seq::empty());
    }
}

/// Bytes from the other side, read as text, without the named prefix.
fn strip_prefix_all(s: String, prefix: &str) -> (r: String)
    requires
        prefix@.len() > 0,
    ensures
        r@ == strip_all(s@, prefix@),
{
    let mut rest: String = s;
    loop
        invariant
            prefix@.len() > 0,
            strip_all(rest@, prefix@) == strip_all(s@, prefix@),
        ensures
            rest@ == strip_all(s@, prefix@),
        decreases rest@.len(),
    {
        match text::strip_prefix(rest.as_str(), prefix) {
            Some(shorter) => {
                rest = shorter;
            },
            None => {
                break;
            },
        }
    }
    rest
}

/// The digit in the body of an INFO request.
fn digit_in(body: String) -> (r: Option<String>)
    ensures
        text::opt_view(r) == signalled_digit(body@),
{
    proof {
        reveal_strlit("Signal=");
    }
    if !text::starts_with(body.as_str(), "Signal=") {
        return None;
    }
    let rest: String = strip_prefix_all(body, "Signal=");
    if rest.as_str().unicode_len() == 0 {
        return None;
    }
    let digit: String = text::slice(rest.as_str(), 0, 1);
    assert(digit@ =~= seq![rest@[0]]);
    Some(digit)
}

/// Puts a leg on hold or lets it run again, and reports it.
pub fn apply_hold_state(states: &InviteDialogStates, is_on_hold: bool, timestamp: u64) -> (r: Vec<
    DialogAction,
>)
    ensures
        action_views(r@) == hold_actions(
            states.track_id@,
            states.leg.is_refer,
            is_on_hold,
            timestamp,
        ),
{
    let mut actions: Vec<DialogAction> = Vec::new();
    if is_on_hold {
        actions.push(DialogAction::HoldTrack { track_id: states.track_id.clone() });
    } else {
        actions.push(DialogAction::ResumeTrack { track_id: states.track_id.clone() });
    }
    actions.push(
        DialogAction::Emit {
            event: SessionEvent::Hold {
                track_id: states.track_id.clone(),
                timestamp,
                on_hold: is_on_hold,
                refer: Some(states.leg.is_refer),
            },
            must: false,
        },
    );
    assert(action_views(actions@) =~= hold_actions(
        states.track_id@,
        states.leg.is_refer,
        is_on_hold,
        timestamp,
    ));
    actions
}

/// The answer to a request that carried an offer: with the session description
/// that the track gave, or without one where the track refused.
pub fn reinvite_reply(answer: Option<String>) -> (r: DialogAction)
    ensures
        r@ == match answer {
            Some(sdp) => DialogActionView::ReplySdp { code: 200, sdp: sdp@ },
            None => DialogActionView::Reply { code: 200 },
        },
{
    match answer {
        Some(sdp) => DialogAction::ReplySdp { code: 200, sdp },
        None => DialogAction::Reply { code: 200 },
    }
}

/// A signed number of milliseconds as the counter of an event holds it: a
/// negative one wraps around.
pub open spec fn wrapped(ms: int) -> u64 {
    if ms >= 0 {
        ms as u64
    } else {
        (ms + 0x1_0000_0000_0000_0000) as u64
    }
}

/// How long a leg was answered.
pub open spec fn duration_of(p: ProgressView, now: Timestamp) -> u64 {
    match p.answer_time {
        Some(t) => wrapped(clock::millis_between(t, now)),
        None => 0,
    }
}

/// The state once a leg is over.
pub open spec fn ended(s: StatesView) -> StatesView {
    let end = state::termination_of(s.terminated_reason);
    s.with_progress(s.leg.progress.terminated(end.0, end.1))
}

/// The events that report that a leg is over.
pub open spec fn end_events(s: StatesView, now: Timestamp, timestamp: u64) -> (
    SessionEventView,
    SessionEventView,
) {
    let p = ended(s).leg.progress;
    (
        SessionEventView::TrackEnd {
            track_id: s.track_id,
            timestamp,
            duration: duration_of(p, now),
            ssrc: s.leg.ssrc,
            play_id: None,
            auto_hangup: s.hangup_reason,
        },
        state::hangup_event_of(
            p,
            s.leg.extras,
            s.leg.is_refer,
            s.track_id,
            Some(state::termination_of(s.terminated_reason).2),
            now,
            timestamp,
        ),
    )
}

impl InviteDialogStates {
    /// The state of the leg is kept, and can be reported.
    pub open spec fn wf(&self, legs: LegTable) -> bool {
        self.leg.wf(legs)
    }

    /// The state of a leg whose dialog begins.
    pub fn new(
        is_client: bool,
        session_id: String,
        track_id: String,
        leg: LegShared,
        hangup_reason: Option<CallRecordHangupReason>,
    ) -> (r: Self)
        ensures
            r == (InviteDialogStates {
                is_client,
                session_id,
                track_id,
                cancelled: false,
                leg,
                terminated_reason: None,
                has_early_media: false,
                hangup_reason,
            }),
    {
        InviteDialogStates {
            is_client,
            session_id,
            track_id,
            cancelled: false,
            leg,
            terminated_reason: None,
            has_early_media: false,
            hangup_reason,
        }
    }

    /// Takes in an event of the dialog, as of `now`.
    pub fn on_dialog_event_at(
        &mut self,
        legs: &mut LegTable,
        event: DialogEvent,
        now: Timestamp,
        timestamp: u64,
    ) -> (r: Vec<DialogAction>)
        requires
            old(self).wf(*old(legs)),
            now.wf(),
        ensures
            final(self).wf(*final(legs)),
            final(self).leg == old(self).leg,
            body_read(old(self).is_client, event) matches Some(bytes) ==> state::read_plainly(bytes),
            state::only_leg(*old(legs), *final(legs), old(self).leg.place),
            (final(self).seen(*final(legs)), action_views(r@)) == dialog_step(old(self).seen(*old(legs)), event, now, timestamp),
    {
        let ghost before = self.seen(*legs);
        let ghost wanted = dialog_step(before, event, now, timestamp).1;
        let mut actions: Vec<DialogAction> = Vec::new();
        match event {
            DialogEvent::Calling { dialog_id } => {
                self.leg.update_progress(
                    legs,
                    ProgressUpdate::Session { session_id: dialog_id.text() },
                );
            },
            DialogEvent::Trying => {},
            DialogEvent::Early { code, body } => {
                let answer: String = state::utf8_lossy(&body);
                let has_sdp: bool = answer.as_str().unicode_len() != 0;
                self.leg.update_progress(legs, ProgressUpdate::Early { code, now });
                if self.is_client {
                    actions.push(
                        DialogAction::Emit {
                            event: SessionEvent::Ringing {
                                track_id: self.track_id.clone(),
                                timestamp,
                                early_media: has_sdp,
                                refer: Some(self.leg.is_refer),
                            },
                            must: true,
                        },
                    );
                    if has_sdp {
                        actions.push(DialogAction::EarlyMedia { answer });
                    }
                }
            },
            DialogEvent::Confirmed { dialog_id, body } => {
                self.leg.update_progress(
                    legs,
                    ProgressUpdate::Confirmed { session_id: dialog_id.text(), now },
                );
                if self.is_client {
                    let body_text: String = state::utf8_lossy(&body);
                    let answer: String = text::trim(body_text.as_str());
                    if answer.as_str().unicode_len() != 0 {
                        actions.push(
                            DialogAction::Command {
                                command: TrackCommand::UpdateRemoteDescription {
                                    track_id: self.track_id.clone(),
                                    answer,
                                    force: self.has_early_media,
                                },
                                must: false,
                            },
                        );
                    }
                }
            },
            DialogEvent::Info { body } => {
                let body_text: String = state::utf8_lossy(&body);
                if let Some(digit) = digit_in(body_text) {
                    actions.push(
                        DialogAction::Emit {
                            event: SessionEvent::Dtmf {
                                track_id: self.track_id.clone(),
                                timestamp,
                                digit,
                                refer: Some(self.leg.is_refer),
                            },
                            must: true,
                        },
                    );
                }
                actions.push(DialogAction::Reply { code: 200 });
            },
            DialogEvent::Message { headers, body } => {
                let body_text: String = state::utf8_lossy(&body);
                actions.push(
                    DialogAction::Emit {
                        event: SessionEvent::Message {
                            track_id: self.track_id.clone(),
                            timestamp,
                            body: body_text,
                            content_type: sip::find_value(&headers, HeaderName::ContentType),
                            refer: Some(self.leg.is_refer),
                        },
                        must: false,
                    },
                );
                actions.push(DialogAction::Reply { code: 200 });
            },
            DialogEvent::Updated { method, body, on_hold } => {
                let sdp: String = state::utf8_lossy(&body);
                actions = apply_hold_state(self, on_hold, timestamp);
                let track_id: String = self.track_id.clone();
                if sdp.as_str().unicode_len() != 0 && (method == Method::Invite || method
                    == Method::Update) {
                    actions.push(DialogAction::Renegotiate { track_id, offer: sdp });
                } else {
                    actions.push(
                        DialogAction::Command {
                            command: TrackCommand::UpdateRemoteDescription {
                                track_id,
                                answer: sdp,
                                force: false,
                            },
                            must: true,
                        },
                    );
                    actions.push(DialogAction::Reply { code: 200 });
                }
            },
            DialogEvent::Options => {
                actions.push(DialogAction::Reply { code: 200 });
            },
            DialogEvent::Refer { headers } => {
                let refer_to: String = match sip::find_value(&headers, HeaderName::ReferTo) {
                    Some(v) => v,
                    None => String::new(),
                };
                let referred_by: Option<String> = sip::find_value(&headers, HeaderName::ReferredBy);
                actions.push(DialogAction::Reply { code: 202 });
                actions.push(
                    DialogAction::Emit {
                        event: SessionEvent::TransferRequest {
                            track_id: self.track_id.clone(),
                            timestamp,
                            refer_to,
                            referred_by,
                            refer: Some(self.leg.is_refer),
                        },
                        must: false,
                    },
                );
            },
            DialogEvent::Terminated { reason } => {
                self.terminated_reason = Some(reason);
                actions.push(DialogAction::Stop);
            },
            DialogEvent::Other => {},
        }
        assert(action_views(actions@) =~= wanted);
        actions
    }

    /// Takes in an event of the dialog.
    pub fn on_dialog_event(
        &mut self,
        legs: &mut LegTable,
        event: DialogEvent,
        timestamp: u64,
    ) -> (r: Vec<DialogAction>)
        requires
            old(self).wf(*old(legs)),
        ensures
            final(self).wf(*final(legs)),
            final(self).leg == old(self).leg,
            body_read(old(self).is_client, event) matches Some(bytes) ==> state::read_plainly(bytes),
            state::only_leg(*old(legs), *final(legs), old(self).leg.place),
            exists|now: Timestamp|
                now.wf() && clock::is_reading(now) && (
                final(self).seen(*final(legs)), action_views(r@)) == #[trigger] dialog_step(
                    old(self).seen(*old(legs)),
                    event,
                    now,
                    timestamp,
                ),
    {
        let now: Timestamp = clock::utc_now();
        self.on_dialog_event_at(legs, event, now, timestamp)
    }

    /// Takes in the answer that came with early media; the track gets it.
    pub fn on_early_media(&mut self, legs: &mut LegTable, answer: String) -> (r: TrackCommand)
        requires
            old(self).leg.held(*old(legs)),
        ensures
            final(self).seen(*final(legs)) == (StatesView {
                has_early_media: true,
                ..old(self).seen(*old(legs)).with_progress(
                    old(self).seen(*old(legs)).leg.progress.with_answer(answer@),
                )
            }),
            old(self).wf(*old(legs)) ==> final(self).wf(*final(legs)),
            final(self).leg == old(self).leg,
            state::only_leg(*old(legs), *final(legs), old(self).leg.place),
            r@ == (TrackCommandView::UpdateRemoteDescription {
                track_id: old(self).seen(*old(legs)).track_id,
                answer: answer@,
                force: false,
            }),
    {
        self.has_early_media = true;
        self.leg.update_progress(legs, ProgressUpdate::Answer { sdp: answer.clone() });
        TrackCommand::UpdateRemoteDescription {
            track_id: self.track_id.clone(),
            answer,
            force: false,
        }
    }

    /// The leg was told to end before its dialog was over.
    pub fn on_cancelled(&mut self)
        ensures
            *final(self) == (InviteDialogStates {
                terminated_reason: Some(TerminatedReason::UacCancel),
                ..*old(self)
            }),
    {
        self.terminated_reason = Some(TerminatedReason::UacCancel);
    }

    /// Records how the leg ended, as of `now`, and reports that its track ended
    /// and that it was hung up.
    pub fn on_terminated_at(
        &mut self,
        legs: &mut LegTable,
        now: Timestamp,
        timestamp: u64,
    ) -> (r: (SessionEvent, SessionEvent))
        requires
            old(self).wf(*old(legs)),
            now.wf(),
        ensures
            final(self).wf(*final(legs)),
            final(self).leg == old(self).leg,
            state::only_leg(*old(legs), *final(legs), old(self).leg.place),
            final(self).seen(*final(legs)) == ended(old(self).seen(*old(legs))),
            (r.0@, r.1@) == end_events(old(self).seen(*old(legs)), now, timestamp),
    {
        let term: TerminationInfo = CallProgress::termination(self.terminated_reason.as_ref());
        self.leg.update_progress(
            legs,
            ProgressUpdate::Terminated {
                status_code: term.status_code,
                hangup_reason: term.hangup_reason,
            },
        );
        let duration: u64 = match legs.legs[self.leg.place].progress.answer_time {
            Some(t) => {
                let ms: i64 = clock::millis_since(t, now);
                assert(ms < 0 ==> (ms as u64) == ms + 0x1_0000_0000_0000_0000) by (bit_vector);
                ms as u64
            },
            None => 0,
        };
        let track_end: SessionEvent = SessionEvent::TrackEnd {
            track_id: self.track_id.clone(),
            timestamp,
            duration,
            ssrc: self.leg.ssrc,
            play_id: None,
            auto_hangup: self.hangup_reason,
        };
        let hangup: SessionEvent = self.leg.build_hangup_event_at(
            legs,
            self.track_id.clone(),
            Some(term.initiator.to_string()),
            now,
            timestamp,
        );
        (track_end, hangup)
    }

    /// Records how the leg ended, and reports that its track ended and that it
    /// was hung up.
    pub fn on_terminated(&mut self, legs: &mut LegTable, timestamp: u64) -> (r: (
        SessionEvent,
        SessionEvent,
    ))
        requires
            old(self).wf(*old(legs)),
        ensures
            final(self).wf(*final(legs)),
            final(self).leg == old(self).leg,
            state::only_leg(*old(legs), *final(legs), old(self).leg.place),
            final(self).seen(*final(legs)) == ended(old(self).seen(*old(legs))),
            exists|now: Timestamp|
                now.wf() && clock::is_reading(now) && (r.0@, r.1@) == #[trigger] end_events(
                    old(self).seen(*old(legs)),
                    now,
                    timestamp,
                ),
    {
        let now: Timestamp = clock::utc_now();
        self.on_terminated_at(legs, now, timestamp)
    }
}

/// However a dialog ended, the leg has a status code and a reason afterwards,
/// and both events name its track.
pub proof fn law_end_is_recorded(s: StatesView, now: Timestamp, timestamp: u64)
    ensures
        ended(s).leg.progress.hangup_reason is Some,
        ended(s).leg.progress.last_status_code == state::termination_of(s.terminated_reason).0,
        end_events(s, now, timestamp).0 matches SessionEventView::TrackEnd { track_id, .. }
            && track_id == s.track_id,
        end_events(s, now, timestamp).1 matches SessionEventView::Hangup { track_id, refer, .. }
            && track_id == s.track_id && refer == s.refer(),
{
}

/// Follows a dialog, and hangs it up in the end.
#[derive(Debug, PartialEq, Eq)]
pub struct DialogStateReceiverGuard {
    pub dialog_id: Option<DialogId>,
    pub hangup_headers: Option<Vec<Header>>,
}

/// The headers of an optional list.
pub open spec fn opt_headers(h: Option<Vec<Header>>) -> Option<Seq<Header>> {
    match h {
        Some(h) => Some(h@),
        None => None,
    }
}

/// Headers with others behind them.
pub open spec fn joined(there: Option<Seq<Header>>, more: Option<Seq<Header>>) -> Option<
    Seq<Header>,
> {
    match (there, more) {
        (Some(a), Some(b)) => Some(a + b),
        (None, Some(b)) => Some(b),
        (a, None) => a,
    }
}

impl DialogStateReceiverGuard {
    /// A guard that has seen no event yet.
    pub fn new(hangup_headers: Option<Vec<Header>>) -> (r: Self)
        ensures
            r == (DialogStateReceiverGuard { dialog_id: None, hangup_headers }),
    {
        DialogStateReceiverGuard { dialog_id: None, hangup_headers }
    }

    /// Notes the dialog of an event.
    pub fn recv(&mut self, dialog_id: &DialogId)
        ensures
            *final(self) == (DialogStateReceiverGuard {
                dialog_id: Some(*dialog_id),
                ..*old(self)
            }),
    {
        self.dialog_id = Some(dialog_id.clone());
    }

    /// The dialog that is still to be hung up; asked again, there is none.
    pub fn take_dialog(&mut self) -> (r: Option<DialogId>)
        ensures
            r == old(self).dialog_id,
            *final(self) == (DialogStateReceiverGuard { dialog_id: None, ..*old(self) }),
    {
        let mut taken: Option<DialogId> = None;
        std::mem::swap(&mut taken, &mut self.dialog_id);
        taken
    }

    /// The dialog to hang up, and the headers to send along. `known` tells
    /// whether the dialog is still there.
    pub fn drop_async(&mut self, known: bool) -> (r: Option<(DialogId, Option<Vec<Header>>)>)
        ensures
            final(self).dialog_id is None,
            match old(self).dialog_id {
                Some(id) if known => {
                    &&& r == Some((id, old(self).hangup_headers))
                    &&& final(self).hangup_headers is None
                },
                _ => r is None && final(self).hangup_headers == old(self).hangup_headers,
            },
    {
        match self.take_dialog() {
            Some(id) => {
                if !known {
                    return None;
                }
                let mut headers: Option<Vec<Header>> = None;
                std::mem::swap(&mut headers, &mut self.hangup_headers);
                Some((id, headers))
            },
            None => None,
        }
    }

    /// Adds headers to those that are sent along with the hangup.
    pub fn add_hangup_headers(&mut self, found: Option<Vec<Header>>)
        ensures
            final(self).dialog_id == old(self).dialog_id,
            opt_headers(final(self).hangup_headers) == joined(
                opt_headers(old(self).hangup_headers),
                opt_headers(found),
            ),
    {
        if let Some(more) = found {
            let mut more: Vec<Header> = more;
            let mut there: Option<Vec<Header>> = None;
            std::mem::swap(&mut there, &mut self.hangup_headers);
            self.hangup_headers = match there {
                Some(list) => {
                    let mut list: Vec<Header> = list;
                    list.append(&mut more);
                    Some(list)
                },
                None => Some(more),
            };
        }
    }

    /// What is left to do once the dialog of a leg is over: the headers that
    /// the leg keeps for its hangup join those of the guard.
    pub fn process_dialog(&mut self, legs: &LegTable, states: &InviteDialogStates)
        requires
            states.wf(*legs),
        ensures
            final(self).dialog_id == old(self).dialog_id,
            ({
                let kept = sip_util::kept_hangup_headers(states.leg.state(*legs).extras@);
                let before = opt_headers(old(self).hangup_headers);
                let after = opt_headers(final(self).hangup_headers);
                if kept is Some && kept->0.len() > 0 {
                    exists|more: Seq<Header>|
                        #[trigger] sip_util::other_headers(more, kept->0) && after == joined(
                            before,
                            Some(more),
                        )
                } else {
                    after == before
                }
            }),
    {
        let found: Option<Vec<Header>> = sip_util::hangup_headers_from_extras(
            &legs.legs[states.leg.place].extras,
        );
        let ghost more = opt_headers(found);
        self.add_hangup_headers(found);
        proof {
            if more is Some {
                assert(sip_util::other_headers(
                    more->0,
                    sip_util::kept_hangup_headers(states.leg.state(*legs).extras@)->0,
                ));
            }
        }
    }
}

/// The incoming calls that wait to be accepted: their dialogs, and the numbers
/// under which the surroundings keep them. No dialog waits twice.
#[derive(Debug, PartialEq, Eq)]
pub struct Invitation {
    pub pending_dialogs: Vec<(DialogId, u64)>,
}

/// The response to an INVITE.
#[derive(Debug, PartialEq, Eq)]
pub struct InviteResponse {
    pub code: u16,
    /// The words of the status line.
    pub words: String,
    pub headers: Vec<Header>,
    pub body: Vec<u8>,
}

impl Invitation {
    /// A dialog waits.
    pub open spec fn pending(&self, id: &DialogId) -> bool {
        exists|i: int|
            0 <= i < self.pending_dialogs@.len() && #[trigger] self.pending_dialogs@[i].0.same(id)
    }

    /// The number under which a dialog waits.
    pub open spec fn number_of(&self, id: &DialogId) -> u64 {
        self.pending_dialogs@[choose|i: int|
            0 <= i < self.pending_dialogs@.len() && #[trigger] self.pending_dialogs@[i].0.same(
                id,
            )].1
    }

    /// No dialog waits twice.
    pub open spec fn wf(&self) -> bool {
        forall|i: int, j: int|
            0 <= i < j < self.pending_dialogs@.len() ==> !(#[trigger] self.pending_dialogs@[i]).0.same(
                &(#[trigger] self.pending_dialogs@[j]).0,
            )
    }

    /// Nobody waits.
    pub fn new() -> (r: Self)
        ensures
            r.wf(),
            r.pending_dialogs@.len() == 0,
    {
        Invitation { pending_dialogs: Vec::new() }
    }

    /// The place of a dialog.
    fn find(&self, id: &DialogId) -> (r: Option<usize>)
        ensures
            match r {
                Some(i) => i < self.pending_dialogs@.len() && self.pending_dialogs@[i as int].0.same(
                    id,
                ),
                None => !self.pending(id),
            },
    {
        let n: usize = self.pending_dialogs.len();
        let mut i: usize = 0;
        while i < n
            invariant
                0 <= i <= n,
                n == self.pending_dialogs@.len(),
                forall|j: int|
                    0 <= j < i ==> !(#[trigger] self.pending_dialogs@[j]).0.same(id),
            decreases n - i,
        {
            if self.pending_dialogs[i].0.equals(id) {
                return Some(i);
            }
            i = i + 1;
        }
        None
    }

    /// Lets a dialog wait; one that waits already gets the new number.
    pub fn add_pending(&mut self, dialog_id: DialogId, number: u64)
        requires
            old(self).wf(),
        ensures
            final(self).wf(),
            final(self).pending(&dialog_id),
            final(self).number_of(&dialog_id) == number,
            forall|id: DialogId|
                !#[trigger] id.same(&dialog_id) ==> final(self).pending(&id) == old(self).pending(
                    &id,
                ) && (old(self).pending(&id) ==> final(self).number_of(&id) == old(
                    self,
                ).number_of(&id)),
    {
        let ghost before = self.pending_dialogs@;
        let ghost added = dialog_id;
        let ghost at: int;
        match self.find(&dialog_id) {
            Some(i) => {
                proof {
                    at = i as int;
                }
                self.pending_dialogs.set(i, (dialog_id, number));
            },
            None => {
                proof {
                    at = before.len() as int;
                }
                self.pending_dialogs.push((dialog_id, number));
            },
        }
        proof {
            let after = self.pending_dialogs@;
            assert(after[at].0 == added && after[at].1 == number);
            assert(after[at].0.same(&added));
            assert forall|i: int, j: int| 0 <= i < j < after.len() implies !(
            #[trigger] after[i]).0.same(&(#[trigger] after[j]).0) by {
                if i != at && j != at {
                    assert(!before[i].0.same(&before[j].0));
                } else if at < before.len() {
                    assert(!before[i].0.same(&before[j].0));
                } else {
                    assert(!before[i].0.same(&added));
                }
            }
            lemma_number(*self, added, at);
            assert forall|id: DialogId| !#[trigger] id.same(&added) implies self.pending(&id)
                == old(self).pending(&id) && (old(self).pending(&id) ==> self.number_of(&id)
                == old(self).number_of(&id)) by {
                if old(self).pending(&id) {
                    let i = choose|i: int|
                        0 <= i < before.len() && #[trigger] before[i].0.same(&id);
                    assert(i != at);
                    assert(after[i].0.same(&id));
                    lemma_number(*self, id, i);
                    lemma_number(*old(self), id, i);
                }
                if self.pending(&id) {
                    let i = choose|i: int| 0 <= i < after.len() && #[trigger] after[i].0.same(&id);
                    assert(i != at);
                    assert(before[i].0.same(&id));
                }
            }
        }
    }

    /// Takes a dialog out of those that wait, and gives its number.
    pub fn get_pending_call(&mut self, dialog_id: &DialogId) -> (r: Option<u64>)
        requires
            old(self).wf(),
        ensures
            final(self).wf(),
            r == if old(self).pending(dialog_id) {
                Some(old(self).number_of(dialog_id))
            } else {
                None
            },
            !final(self).pending(dialog_id),
            forall|id: DialogId|
                !#[trigger] id.same(dialog_id) ==> final(self).pending(&id) == old(self).pending(
                    &id,
                ) && (old(self).pending(&id) ==> final(self).number_of(&id) == old(
                    self,
                ).number_of(&id)),
    {
        let ghost before = self.pending_dialogs@;
        match self.find(dialog_id) {
            Some(at) => {
                let (_, number): (DialogId, u64) = self.pending_dialogs.remove(at);
                proof {
                    let after = self.pending_dialogs@;
                    lemma_number(*old(self), *dialog_id, at as int);
                    assert forall|i: int, j: int| 0 <= i < j < after.len() implies !(
                    #[trigger] after[i]).0.same(&(#[trigger] after[j]).0) by {
                        let p = if i < at { i } else { i + 1 };
                        let q = if j < at { j } else { j + 1 };
                        assert(!before[p].0.same(&before[q].0));
                    }
                    assert forall|i: int| 0 <= i < after.len() implies !(
                    #[trigger] after[i]).0.same(dialog_id) by {
                        if i < at {
                            assert(!before[i].0.same(&before[at as int].0));
                        } else {
                            assert(!before[at as int].0.same(&before[i + 1].0));
                        }
                    }
                    assert forall|id: DialogId| !#[trigger] id.same(dialog_id) implies
                        self.pending(&id) == old(self).pending(&id) && (old(self).pending(&id)
                        ==> self.number_of(&id) == old(self).number_of(&id)) by {
                        if old(self).pending(&id) {
                            let i = choose|i: int|
                                0 <= i < before.len() && #[trigger] before[i].0.same(&id);
                            assert(i != at);
                            let k = if i < at { i } else { i - 1 };
                            assert(after[k].0.same(&id));
                            lemma_number(*self, id, k);
                            lemma_number(*old(self), id, i);
                        }
                        if self.pending(&id) {
                            let k = choose|k: int|
                                0 <= k < after.len() && #[trigger] after[k].0.same(&id);
                            let i = if k < at { k } else { k + 1 };
                            assert(before[i].0.same(&id));
                        }
                    }
                }
                Some(number)
            },
            None => None,
        }
    }

    /// Whether a dialog waits.
    pub fn has_pending_call(&self, dialog_id: &DialogId) -> (r: bool)
        ensures
            r == self.pending(dialog_id),
    {
        self.find(dialog_id).is_some()
    }

    /// The first waiting dialog whose name is a session's.
    pub fn find_dialog_id_by_session_id(&self, session_id: &str) -> (r: Option<DialogId>)
        ensures
            match r {
                Some(id) => id.text_of() == session_id@ && self.pending(&id),
                None => forall|i: int|
                    0 <= i < self.pending_dialogs@.len() ==> (
                    #[trigger] self.pending_dialogs@[i]).0.text_of() != session_id@,
            },
    {
        let n: usize = self.pending_dialogs.len();
        let mut i: usize = 0;
        while i < n
            invariant
                0 <= i <= n,
                n == self.pending_dialogs@.len(),
                forall|j: int|
                    0 <= j < i ==> (#[trigger] self.pending_dialogs@[j]).0.text_of()
                        != session_id@,
            decreases n - i,
        {
            let name: String = self.pending_dialogs[i].0.text();
            if text::str_eq(name.as_str(), session_id) {
                assert(self.pending_dialogs@[i as int].0.same(&self.pending_dialogs@[i as int].0));
                return Some(self.pending_dialogs[i].0.clone());
            }
            i = i + 1;
        }
        None
    }

    /// Takes the dialog of a session out of those that wait.
    pub fn take_by_session_id(&mut self, session_id: &str) -> (r: Option<(DialogId, u64)>)
        requires
            old(self).wf(),
        ensures
            final(self).wf(),
            match r {
                Some((id, number)) => {
                    &&& id.text_of() == session_id@
                    &&& old(self).pending(&id)
                    &&& number == old(self).number_of(&id)
                    &&& !final(self).pending(&id)
                    &&& forall|other: DialogId|
                        !#[trigger] other.same(&id) ==> final(self).pending(&other) == old(
                            self,
                        ).pending(&other) && (old(self).pending(&other) ==> final(self).number_of(
                            &other,
                        ) == old(self).number_of(&other))
                },
                None => {
                    &&& *final(self) == *old(self)
                    &&& forall|i: int|
                        0 <= i < old(self).pending_dialogs@.len() ==> (#[trigger] old(
                            self,
                        ).pending_dialogs@[i]).0.text_of() != session_id@
                },
            },
    {
        match self.find_dialog_id_by_session_id(session_id) {
            Some(id) => match self.get_pending_call(&id) {
                Some(number) => Some((id, number)),
                None => None,
            },
            None => None,
        }
    }

    /// What is left of a dialog that is to be hung up: the number under which
    /// it waits, where it does, so that it can be rejected. Whether or not it
    /// waited, an established dialog of that name is hung up as well.
    pub fn hangup(&mut self, dialog_id: &DialogId) -> (r: Option<u64>)
        requires
            old(self).wf(),
        ensures
            final(self).wf(),
            r == if old(self).pending(dialog_id) {
                Some(old(self).number_of(dialog_id))
            } else {
                None
            },
            !final(self).pending(dialog_id),
            forall|id: DialogId|
                !#[trigger] id.same(dialog_id) ==> final(self).pending(&id) == old(self).pending(
                    &id,
                ) && (old(self).pending(&id) ==> final(self).number_of(&id) == old(
                    self,
                ).number_of(&id)),
    {
        self.get_pending_call(dialog_id)
    }

    /// What comes of an INVITE, given the text of the status line of its
    /// response: the dialog and the body of a response that says that the call
    /// was accepted, else an error. The error has the words of the first `Reason`
    /// header, or that text where there is none.
    pub fn invite_with(
        dialog_id: DialogId,
        response: Option<InviteResponse>,
        status_text: String,
    ) -> (r: Result<(DialogId, Option<Vec<u8>>), SipError>)
        ensures
            Self::invited(dialog_id, response, status_text@, r),
    {
        match response {
            Some(resp) => {
                if 200 <= resp.code && resp.code <= 299 {
                    Ok((dialog_id, Some(resp.body)))
                } else {
                    let reason: String = match sip::find_value(&resp.headers, HeaderName::Reason) {
                        Some(phrase) => phrase,
                        None => status_text,
                    };
                    Err(SipError::DialogError { reason, dialog_id, code: resp.code })
                }
            },
            None => Err(
                SipError::DialogError {
                    reason: "no response received".to_string(),
                    dialog_id,
                    code: crate::sip::NOT_ACCEPTABLE_HERE,
                },
            ),
        }
    }

    /// An INVITE came to a result, given the text of the status line.
    pub open spec fn invited(
        dialog_id: DialogId,
        response: Option<InviteResponse>,
        status_text: Seq<char>,
        r: Result<(DialogId, Option<Vec<u8>>), SipError>,
    ) -> bool {
        match response {
            Some(resp) if 200 <= resp.code <= 299 => r == Ok::<_, SipError>(
                (dialog_id, Some(resp.body)),
            ),
            Some(resp) => r is Err && r->Err_0@ == (SipErrorView::DialogError {
                reason: match sip::first_value(resp.headers@, HeaderName::Reason) {
                    Some(phrase) => phrase,
                    None => status_text,
                },
                dialog_id: dialog_id@,
                code: resp.code,
            }),
            None => r is Err && r->Err_0@ == (SipErrorView::DialogError {
                reason: "no response received"@,
                dialog_id: dialog_id@,
                code: crate::sip::NOT_ACCEPTABLE_HERE,
            }),
        }
    }

    /// What comes of an INVITE: the dialog and the body of a response that says
    /// that the call was accepted, else an error.
    pub fn invite(dialog_id: DialogId, response: Option<InviteResponse>) -> (r: Result<
        (DialogId, Option<Vec<u8>>),
        SipError,
    >)
        ensures
            Self::invited(
                dialog_id,
                response,
                match response {
                    Some(resp) => sip::status_text_in(resp.code, resp.words@),
                    None => Seq::empty(),
                },
                r,
            ),
    {
        let status_text: String = match &response {
            Some(resp) => sip::status_text(resp.code, resp.words.as_str()),
            None => String::new(),
        };
        Self::invite_with(dialog_id, response, status_text)
    }
}

proof fn lemma_number(table: Invitation, id: DialogId, at: int)
    requires
        table.wf(),
        0 <= at < table.pending_dialogs@.len(),
        table.pending_dialogs@[at].0.same(&id),
    ensures
        table.pending(&id),
        table.number_of(&id) == table.pending_dialogs@[at].1,
{
    let all = table.pending_dialogs@;
    let i = choose|i: int| 0 <= i < all.len() && #[trigger] all[i].0.same(&id);
    assert(0 <= i < all.len() && all[i].0.same(&id));
    if i < at {
        assert(!all[i].0.same(&all[at].0));
    } else if at < i {
        assert(!all[at].0.same(&all[i].0));
    }
}

/// An offer within the dialog is negotiated, whether or not it puts this side on
/// hold: a re-INVITE or an UPDATE with words in its body has the track take those
/// words, once. It is answered only when the track has taken them, so there is
/// neither a bare reply nor a command that takes the words for an answer.
#[verifier::spinoff_prover]
pub proof fn law_offers_are_negotiated(
    s: StatesView,
    method: Method,
    body: Vec<u8>,
    on_hold: bool,
    now: Timestamp,
    timestamp: u64,
)
    requires
        method == Method::Invite || method == Method::Update,
        state::lossy_text(body@).len() > 0,
    ensures
        ({
            let actions = dialog_step(
                s,
                DialogEvent::Updated { method, body, on_hold },
                now,
                timestamp,
            ).1;
            &&& actions.filter(|a: DialogActionView| a is Renegotiate) == seq![
                DialogActionView::Renegotiate {
                    track_id: s.track_id,
                    offer: state::lossy_text(body@),
                },
            ]
            &&& forall|i: int|
                0 <= i < actions.len() ==> (#[trigger] actions[i]) !is Reply && actions[i]
                    !is ReplySdp && actions[i] !is Command
        }),
{
    reveal_with_fuel(Seq::filter, 4);
    let actions = dialog_step(s, DialogEvent::Updated { method, body, on_hold }, now, timestamp).1;
    assert(actions.drop_last().drop_last().drop_last() =~= Seq::empty());
    assert(actions.filter(|a: DialogActionView| a is Renegotiate) =~= seq![actions[2]]);
}

/// Any other request within the dialog that was changed, and one without words,
/// has its words go to the track as an answer, once and before the reply, which
/// says 200. Nothing is negotiated.
#[verifier::spinoff_prover]
pub proof fn law_other_descriptions_are_answers(
    s: StatesView,
    method: Method,
    body: Vec<u8>,
    on_hold: bool,
    now: Timestamp,
    timestamp: u64,
)
    requires
        (method != Method::Invite && method != Method::Update) || state::lossy_text(body@).len()
            == 0,
    ensures
        ({
            let actions = dialog_step(
                s,
                DialogEvent::Updated { method, body, on_hold },
                now,
                timestamp,
            ).1;
            &&& actions.filter(|a: DialogActionView| a is Command) == seq![
                DialogActionView::Command {
                    command: TrackCommandView::UpdateRemoteDescription {
                        track_id: s.track_id,
                        answer: state::lossy_text(body@),
                        force: false,
                    },
                    must: true,
                },
            ]
            &&& actions.last() == (DialogActionView::Reply { code: 200 })
            &&& forall|i: int|
                0 <= i < actions.len() - 1 ==> (#[trigger] actions[i]) !is Reply && actions[i]
                    !is ReplySdp
            &&& forall|i: int| 0 <= i < actions.len() ==> (#[trigger] actions[i]) !is Renegotiate
        }),
{
    reveal_with_fuel(Seq::filter, 5);
    let actions = dialog_step(s, DialogEvent::Updated { method, body, on_hold }, now, timestamp).1;
    assert(actions.drop_last().drop_last().drop_last().drop_last() =~= Seq::empty());
    assert(actions.filter(|a: DialogActionView| a is Command) =~= seq![actions[2]]);
}

/// A request that changes the dialog first puts the leg's track on hold, or lets
/// it run, as its description says, and one event tells so.
pub proof fn law_hold_is_told(
    s: StatesView,
    method: Method,
    body: Vec<u8>,
    on_hold: bool,
    now: Timestamp,
    timestamp: u64,
)
    ensures
        ({
            let actions = dialog_step(
                s,
                DialogEvent::Updated { method, body, on_hold },
                now,
                timestamp,
            ).1;
            &&& on_hold ==> actions.first() == (DialogActionView::HoldTrack {
                track_id: s.track_id,
            })
            &&& !on_hold ==> actions.first() == (DialogActionView::ResumeTrack {
                track_id: s.track_id,
            })
            &&& forall|i: int|
                1 <= i < actions.len() ==> (#[trigger] actions[i]) !is HoldTrack && actions[i]
                    !is ResumeTrack
            &&& actions[1] == (DialogActionView::Emit {
                event: SessionEventView::Hold {
                    track_id: s.track_id,
                    timestamp,
                    on_hold,
                    refer: Some(s.leg.is_refer),
                },
                must: false,
            })
            &&& forall|i: int| 2 <= i < actions.len() ==> (#[trigger] actions[i]) !is Emit
        }),
{
}

/// To the side that called, a provisional response is reported as ringing, and it
/// is told whether words came with it; where they did, they are taken as early
/// media. The side that was called is told nothing.
pub proof fn law_ringing_is_told(
    s: StatesView,
    code: u16,
    body: Vec<u8>,
    now: Timestamp,
    timestamp: u64,
)
    ensures
        ({
            let words = state::lossy_text(body@);
            let (after, actions) = dialog_step(
                s,
                DialogEvent::Early { code, body },
                now,
                timestamp,
            );
            &&& !s.is_client ==> actions.len() == 0
            &&& s.is_client ==> actions.len() > 0 && actions[0] == (DialogActionView::Emit {
                event: SessionEventView::Ringing {
                    track_id: s.track_id,
                    timestamp,
                    early_media: words.len() > 0,
                    refer: Some(s.leg.is_refer),
                },
                must: true,
            })
            &&& s.is_client && words.len() == 0 ==> actions.len() == 1
            &&& s.is_client && words.len() > 0 ==> actions.len() == 2 && actions[1] == (
            DialogActionView::EarlyMedia { answer: words })
            &&& after.leg.progress.last_status_code == code
            &&& s.leg.progress.ring_time is None ==> after.leg.progress.ring_time == Some(now)
            &&& s.leg.progress.ring_time is Some ==> after.leg.progress.ring_time
                == s.leg.progress.ring_time
            &&& after.leg.progress.answer_time == s.leg.progress.answer_time
            &&& after.leg.progress.session_id == s.leg.progress.session_id
        }),
{
}

/// When a call is accepted, the side that called hands the words of the answer to
/// its track, and with force where early media came before. A blank answer goes
/// nowhere, and neither does one on the side that was called. The leg takes the
/// name of the dialog, the first time of an answer, and the code 200.
pub proof fn law_acceptance_reaches_the_track(
    s: StatesView,
    dialog_id: DialogId,
    body: Vec<u8>,
    now: Timestamp,
    timestamp: u64,
)
    ensures
        ({
            let words = text::trim_of(state::lossy_text(body@));
            let (after, actions) = dialog_step(
                s,
                DialogEvent::Confirmed { dialog_id, body },
                now,
                timestamp,
            );
            &&& s.is_client && words.len() > 0 ==> actions == seq![
                DialogActionView::Command {
                    command: TrackCommandView::UpdateRemoteDescription {
                        track_id: s.track_id,
                        answer: words,
                        force: s.has_early_media,
                    },
                    must: false,
                },
            ]
            &&& !s.is_client || words.len() == 0 ==> actions.len() == 0
            &&& after.leg.progress.session_id == dialog_id.call_id@ + "-"@ + dialog_id.local_tag@
                + "-"@ + dialog_id.remote_tag@
            &&& after.leg.progress.last_status_code == 200
            &&& s.leg.progress.answer_time is None ==> after.leg.progress.answer_time == Some(now)
            &&& s.leg.progress.answer_time is Some ==> after.leg.progress.answer_time
                == s.leg.progress.answer_time
            &&& after.leg.progress.ring_time == s.leg.progress.ring_time
        }),
{
}

/// The digit that an INFO request signals is the first character behind the word
/// that announces it, and nothing behind that character counts. The word may
/// stand there more than once; alone it announces nothing.
#[verifier::spinoff_prover]
pub proof fn law_digit_follows_its_word(digit: char, rest: Seq<char>, words: Seq<char>)
    ensures
        !"Signal="@.is_prefix_of(seq![digit] + rest) ==> signalled_digit(
            "Signal="@ + seq![digit] + rest,
        ) == Some(seq![digit]),
        "Signal="@.is_prefix_of(words) ==> signalled_digit("Signal="@ + words) == signalled_digit(
            words,
        ),
        !"Signal="@.is_prefix_of(words) ==> signalled_digit(words) is None,
        signalled_digit("Signal="@) is None,
{
    let word = "Signal="@;
    reveal_strlit("Signal=");
    reveal_with_fuel(strip_all, 2);
    assert(word.is_prefix_of(word + words)) by {
        assert(word =~= (word + words).take(word.len() as int));
    }
    assert((word + words).skip(word.len() as int) =~= words);
    let whole = word + seq![digit] + rest;
    assert(word.is_prefix_of(whole)) by {
        assert(word =~= whole.take(word.len() as int));
    }
    assert(whole.skip(word.len() as int) =~= seq![digit] + rest);
    assert(word.skip(word.len() as int) =~= Seq::empty());
}

/// A digit in an INFO request is reported once, as the digit alone; where there
/// is none, nothing is. Either way the request is answered with 200 in the end.
pub proof fn law_digit_is_told(s: StatesView, body: Vec<u8>, now: Timestamp, timestamp: u64)
    ensures
        ({
            let found = signalled_digit(state::lossy_text(body@));
            let (after, actions) = dialog_step(s, DialogEvent::Info { body }, now, timestamp);
            &&& after == s
            &&& actions.last() == (DialogActionView::Reply { code: 200 })
            &&& found is None ==> actions.len() == 1
            &&& found matches Some(digit) ==> actions.len() == 2 && digit.len() == 1 && actions[0]
                == (DialogActionView::Emit {
                event: SessionEventView::Dtmf {
                    track_id: s.track_id,
                    timestamp,
                    digit,
                    refer: Some(s.leg.is_refer),
                },
                must: true,
            })
        }),
{
}

/// The words of a MESSAGE request are reported as they came, with the type that
/// its first header of that name says, and the request is answered with 200.
pub proof fn law_message_is_told(
    s: StatesView,
    headers: Vec<Header>,
    body: Vec<u8>,
    now: Timestamp,
    timestamp: u64,
)
    ensures
        ({
            let (after, actions) = dialog_step(
                s,
                DialogEvent::Message { headers, body },
                now,
                timestamp,
            );
            &&& after == s
            &&& actions.len() == 2
            &&& actions[0] matches DialogActionView::Emit { event, must }
            &&& !must
            &&& event matches SessionEventView::Message {
                track_id,
                timestamp: at,
                body: words,
                content_type,
                refer,
            }
            &&& track_id == s.track_id && at == timestamp && refer == Some(s.leg.is_refer)
            &&& words == state::lossy_text(body@)
            &&& content_type == sip::first_value(headers@, HeaderName::ContentType)
            &&& actions[1] == (DialogActionView::Reply { code: 200 })
        }),
{
}

/// A request to transfer the call is accepted with 202 before it is reported with
/// the target and the one who asks, each from the first header of its name.
pub proof fn law_transfer_is_told(
    s: StatesView,
    headers: Vec<Header>,
    now: Timestamp,
    timestamp: u64,
)
    ensures
        ({
            let (after, actions) = dialog_step(s, DialogEvent::Refer { headers }, now, timestamp);
            let target = sip::first_value(headers@, HeaderName::ReferTo);
            &&& after == s
            &&& actions.len() == 2
            &&& actions[0] == (DialogActionView::Reply { code: 202 })
            &&& actions[1] matches DialogActionView::Emit { event, must }
            &&& !must
            &&& event matches SessionEventView::TransferRequest {
                track_id,
                timestamp: at,
                refer_to,
                referred_by,
                refer,
            }
            &&& track_id == s.track_id && at == timestamp && refer == Some(s.leg.is_refer)
            &&& target matches Some(value) ==> refer_to == value
            &&& target is None ==> refer_to.len() == 0
            &&& referred_by == sip::first_value(headers@, HeaderName::ReferredBy)
        }),
{
}

/// The end of the dialog, and nothing else, stops the following of it; its reason
/// is noted then and at no other time.
pub proof fn law_only_the_end_stops(
    s: StatesView,
    event: DialogEvent,
    now: Timestamp,
    timestamp: u64,
)
    ensures
        ({
            let (after, actions) = dialog_step(s, event, now, timestamp);
            &&& event matches DialogEvent::Terminated { reason } ==> {
                &&& actions == seq![DialogActionView::Stop]
                &&& after == (StatesView { terminated_reason: Some(reason), ..s })
            }
            &&& event !is Terminated ==> {
                &&& forall|i: int| 0 <= i < actions.len() ==> (#[trigger] actions[i]) !is Stop
                &&& after.terminated_reason == s.terminated_reason
            }
        }),
{
}

/// Where there is nothing to do, nothing is done: the start of a call only names
/// its dialog, a check of the line is only answered, and the rest leaves all as
/// it is.
pub proof fn law_quiet_events(
    s: StatesView,
    dialog_id: DialogId,
    event: DialogEvent,
    now: Timestamp,
    timestamp: u64,
)
    ensures
        ({
            let (after, actions) = dialog_step(s, event, now, timestamp);
            &&& event == (DialogEvent::Calling { dialog_id }) ==> {
                &&& actions.len() == 0
                &&& after.leg.progress == (ProgressView {
                    session_id: dialog_id.call_id@ + "-"@ + dialog_id.local_tag@ + "-"@
                        + dialog_id.remote_tag@,
                    ..s.leg.progress
                })
            }
            &&& event == DialogEvent::Trying || event == DialogEvent::Other ==> actions.len() == 0
                && after == s
            &&& event == DialogEvent::Options ==> after == s && actions == seq![
                DialogActionView::Reply { code: 200 },
            ]
        }),
{
}

/// How long a leg lasted: the whole milliseconds from its answer to its end, and
/// none for a leg that was never answered.
pub proof fn law_duration_runs_from_the_answer(s: StatesView, now: Timestamp, timestamp: u64)
    requires
        now.wf(),
        s.leg.progress.times_ok(),
    ensures
        end_events(s, now, timestamp).0 matches SessionEventView::TrackEnd { duration, .. } && {
            &&& s.leg.progress.answer_time is None ==> duration == 0
            &&& s.leg.progress.answer_time matches Some(t) ==> (t.total() <= now.total() ==> (duration
                * 1_000_000 <= now.total() - t.total() < (duration + 1) * 1_000_000))
        },
{
    if let Some(t) = s.leg.progress.answer_time {
        if t.total() <= now.total() {
            clock::law_whole_milliseconds(t, now);
        }
    }
}

/// The end of a leg is told at the time of its end, with the times and the two
/// parties that its progress knows, the extra values of the leg, and the reason
/// that came first. The track's end names the leg's stream and the reason for
/// which the whole call is to be hung up.
#[verifier::spinoff_prover]
pub proof fn law_end_is_told(s: StatesView, now: Timestamp, timestamp: u64)
    ensures
        ({
            let p = s.leg.progress;
            let (track_end, hangup) = end_events(s, now, timestamp);
            &&& track_end matches SessionEventView::TrackEnd {
                track_id: ended_track,
                timestamp: ended_at,
                duration: _,
                ssrc,
                play_id,
                auto_hangup,
            }
            &&& ended_track == s.track_id && ended_at == timestamp && ssrc == s.leg.ssrc
            &&& play_id is None && auto_hangup == s.hangup_reason
            &&& hangup matches SessionEventView::Hangup {
                track_id,
                timestamp: at,
                reason,
                initiator,
                start_time,
                hangup_time,
                answer_time,
                ringing_time,
                from,
                to,
                extra,
                refer,
            }
            &&& track_id == s.track_id && at == timestamp
            &&& hangup_time == clock::rfc3339_of(now.secs, now.nanos)
            &&& p.start_time matches Some(t) ==> start_time == clock::rfc3339_of(t.secs, t.nanos)
            &&& p.start_time is None ==> start_time == clock::rfc3339_of(0, 0)
            &&& p.answer_time matches Some(t) ==> answer_time == Some(
                clock::rfc3339_of(t.secs, t.nanos),
            )
            &&& p.answer_time is None ==> answer_time is None
            &&& p.ring_time matches Some(t) ==> ringing_time == Some(
                clock::rfc3339_of(t.secs, t.nanos),
            )
            &&& p.ring_time is None ==> ringing_time is None
            &&& p.option matches Some(o) ==> {
                &&& o.caller matches Some(c) ==> from == Some(c@)
                &&& o.caller is None ==> from is None
                &&& o.callee matches Some(c) ==> to == Some(c@)
                &&& o.callee is None ==> to is None
            }
            &&& p.option is None ==> from is None && to is None
            &&& extra == Some(s.leg.extras) && refer == Some(s.leg.is_refer)
            &&& p.hangup_reason matches Some(known) ==> reason == Some(known.name_of())
            &&& p.hangup_reason is None ==> reason == Some(
                state::termination_of(s.terminated_reason).1.name_of(),
            )
            &&& initiator == Some(state::termination_of(s.terminated_reason).2)
        }),
{
}

/// Headers for the hangup pile up behind those that are there, in their order,
/// and none are lost.
pub proof fn law_headers_pile_up(there: Option<Seq<Header>>, more: Option<Seq<Header>>)
    ensures
        joined(there, more) is Some <==> there is Some || more is Some,
        there matches Some(a) ==> joined(there, more)->0.take(a.len() as int) == a,
        more matches Some(b) ==> joined(there, more)->0.skip(
            joined(there, more)->0.len() - b.len(),
        ) == b,
        joined(there, more) matches Some(all) ==> all.len() == (if there is Some {
            there->0.len()
        } else {
            0
        }) + (if more is Some {
            more->0.len()
        } else {
            0
        }),
{
}

/// A call was accepted where the response has a code of the two hundreds, and only
/// there; then its body comes back as it came. Any other response is an error with
/// its code, which says what the first header with a reason says, or else the text
/// of the status line. No response at all counts as one that refuses the media.
pub proof fn law_acceptance_goes_by_code(
    dialog_id: DialogId,
    response: Option<InviteResponse>,
    status_text: Seq<char>,
    r: Result<(DialogId, Option<Vec<u8>>), SipError>,
)
    requires
        Invitation::invited(dialog_id, response, status_text, r),
    ensures
        r is Ok <==> (response matches Some(resp) && resp.code / 100 == 2),
        r matches Ok((id, body)) ==> id == dialog_id && body == Some(response->0.body),
        r matches Err(e) ==> {
            &&& e@ matches SipErrorView::DialogError { reason, dialog_id: id, code }
            &&& id == dialog_id@
            &&& response is None ==> code == 488
            &&& response matches Some(resp) ==> {
                &&& code == resp.code
                &&& sip::first_value(resp.headers@, HeaderName::Reason) matches Some(words)
                    ==> reason == words
                &&& sip::first_value(resp.headers@, HeaderName::Reason) is None ==> reason
                    == status_text
            }
        },
{
}

/// What is seen of a [`DialogAction`] is all that it holds, and nothing else.
pub proof fn law_view_of_dialog_action(it: DialogAction)
    ensures
        it matches DialogAction::Emit { event, must } ==> it@ == (DialogActionView::Emit {
            event: event@,
            must,
        }),
        it matches DialogAction::EarlyMedia { answer } ==> it@ == (DialogActionView::EarlyMedia {
            answer: answer@,
        }),
        it matches DialogAction::Command { command, must } ==> it@ == (DialogActionView::Command {
            command: command@,
            must,
        }),
        it matches DialogAction::HoldTrack { track_id } ==> it@ == (DialogActionView::HoldTrack {
            track_id: track_id@,
        }),
        it matches DialogAction::ResumeTrack { track_id } ==> it@ == (
        DialogActionView::ResumeTrack {
            track_id: track_id@,
        }),
        it matches DialogAction::Renegotiate { track_id, offer } ==> it@ == (
        DialogActionView::Renegotiate {
            track_id: track_id@,
            offer: offer@,
        }),
        it matches DialogAction::Reply { code } ==> it@ == (DialogActionView::Reply { code }),
        it matches DialogAction::ReplySdp { code, sdp } ==> it@ == (DialogActionView::ReplySdp {
            code,
            sdp: sdp@,
        }),
        it is Stop ==> it@ == DialogActionView::Stop,
{
}

/// The actions for a dialog are seen one by one, in their order; and what is seen
/// of the state of a leg is what it holds.
pub proof fn law_view_of_actions(
    actions: Seq<DialogAction>,
    i: int,
    s: InviteDialogStates,
    legs: LegTable,
)
    requires
        0 <= i < actions.len(),
    ensures
        action_views(actions).len() == actions.len(),
        action_views(actions)[i] == actions[i]@,
        s.seen(legs).is_client == s.is_client && s.seen(legs).cancelled == s.cancelled,
        s.seen(legs).session_id == s.session_id@ && s.seen(legs).track_id == s.track_id@,
        s.seen(legs).leg == s.leg.seen(legs),
        s.seen(legs).terminated_reason == s.terminated_reason,
        s.seen(legs).has_early_media == s.has_early_media,
        s.seen(legs).hangup_reason == s.hangup_reason,
{
}

/// A dialog that waits is found under its own number, whatever others wait.
pub proof fn law_waiting_dialog_has_its_number(waiting: Invitation, id: DialogId, i: int)
    requires
        waiting.wf(),
        0 <= i < waiting.pending_dialogs@.len(),
        waiting.pending_dialogs@[i].0.same(&id),
    ensures
        waiting.pending(&id),
        waiting.number_of(&id) == waiting.pending_dialogs@[i].1,
{
    lemma_number(waiting, id, i);
}

/// Whatever is read of an event is its body; the body of an acceptance is read by
/// the side that called alone, and what has no body is not read.
pub proof fn law_bodies_are_what_is_read(is_client: bool, event: DialogEvent)
    ensures
        event matches DialogEvent::Early { body, .. } ==> body_read(is_client, event) == Some(body@),
        event matches DialogEvent::Info { body } ==> body_read(is_client, event) == Some(body@),
        event matches DialogEvent::Message { body, .. } ==> body_read(is_client, event) == Some(
            body@,
        ),
        event matches DialogEvent::Updated { body, .. } ==> body_read(is_client, event) == Some(
            body@,
        ),
        event matches DialogEvent::Confirmed { body, .. } ==> body_read(true, event) == Some(body@),
{
}

}
