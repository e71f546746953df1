use active_call::call::sip::{
    apply_hold_state, reinvite_reply, DialogAction, DialogEvent, DialogStateReceiverGuard,
    Invitation, InviteDialogStates, InviteResponse,
};
use active_call::call::state::{
    resolve_final_answer, CallProgress, LegShared, LegTable, ProgressUpdate,
};
use active_call::callrecord::CallRecordHangupReason;
use active_call::clock::Timestamp;
use active_call::event::SessionEvent;
use active_call::media::track::TrackCommand;
use active_call::sip::{DialogId, Header, Method, SipError, TerminatedReason};

// SDP used to simulate an early-media 183 Session Progress response.
const EARLY_MEDIA_SDP: &str = "v=0\r\n\
    o=- 1000 1 IN IP4 192.168.1.100\r\n\
    s=SIP Call\r\n\
    t=0 0\r\n\
    m=audio 10000 RTP/AVP 0\r\n\
    c=IN IP4 192.168.1.100\r\n\
    a=rtpmap:0 PCMU/8000\r\n\
    a=sendrecv\r\n";

fn make_states(legs: &mut LegTable, has_early_media: bool) -> InviteDialogStates {
    let leg = LegShared::new(legs, 1000, true, CallProgress::default());
    let mut states = InviteDialogStates::new(
        true,
        "test-session".to_string(),
        "test-track".to_string(),
        leg,
        None,
    );
    states.has_early_media = has_early_media;
    states
}

fn dialog(call_id: &str) -> DialogId {
    DialogId {
        call_id: call_id.to_string(),
        local_tag: "l".to_string(),
        remote_tag: "r".to_string(),
    }
}

fn at(secs: i64) -> Timestamp {
    Timestamp { secs, nanos: 0 }
}

#[test]
fn test_early_sdp_stored_in_leg_progress() {
    let mut legs = LegTable::new();
    let mut states = make_states(&mut legs, false);

    let actions = states.on_dialog_event(
        &mut legs,
        DialogEvent::Early { code: 183, body: EARLY_MEDIA_SDP.as_bytes().to_vec() },
        1,
    );
    for action in actions {
        if let DialogAction::EarlyMedia { answer } = action {
            states.on_early_media(&mut legs, answer);
        }
    }

    // Assert: early SDP is stored
    assert!(
        legs.legs[states.leg.place].progress.answer.is_some(),
        "leg progress answer should be set after 183 with SDP"
    );
    assert_eq!(
        legs.legs[states.leg.place].progress.answer.as_deref().unwrap(),
        EARLY_MEDIA_SDP,
        "leg progress answer should contain the early SDP"
    );
    assert!(states.has_early_media, "has_early_media should be true");
}

#[test]
fn test_confirmed_empty_body_keeps_early_sdp() {
    let mut legs = LegTable::new();
    let mut states = make_states(&mut legs, false);
    states.on_early_media(&mut legs, EARLY_MEDIA_SDP.to_string());

    let actions = states.on_dialog_event(
        &mut legs,
        DialogEvent::Confirmed { dialog_id: dialog("dialog-1"), body: vec![] },
        1,
    );
    assert!(actions.is_empty(), "empty body must not be applied");

    let progress = &legs.legs[states.leg.place].progress;
    assert!(
        progress.answer.is_some(),
        "answer must not be None after 200 OK with empty body"
    );
    let stored_answer = progress.answer.as_deref().unwrap();
    assert!(
        !stored_answer.is_empty(),
        "answer must not be empty after 200 OK with empty body"
    );
    assert_eq!(
        stored_answer, EARLY_MEDIA_SDP,
        "answer should still be the early SDP after 200 OK with empty body"
    );
}

#[test]
fn test_answer_fallback_to_early_sdp_when_200ok_empty() {
    let mut legs = LegTable::new();
    let states = make_states(&mut legs, true);
    states
        .leg
        .update_progress(&mut legs, ProgressUpdate::Answer { sdp: EARLY_MEDIA_SDP.to_string() });

    let early = legs.legs[states.leg.place].progress.answer.clone();
    let raw_answer: Option<Vec<u8>> = Some(vec![]); // empty body from 200 OK

    let (answer, already_applied) = resolve_final_answer(raw_answer, early.as_ref()).unwrap();
    assert!(
        !answer.is_empty(),
        "Resolved answer must not be empty — should contain the early SDP"
    );
    assert_eq!(
        answer, EARLY_MEDIA_SDP,
        "Resolved answer should be the early SDP from the 183 handler"
    );
    assert!(
        already_applied,
        "remote_description_already_applied should be true when using early SDP fallback"
    );
}

#[test]
fn test_answer_uses_200ok_sdp_when_present() {
    const FINAL_SDP: &str = "v=0\r\n\
        o=- 2000 2 IN IP4 10.0.0.1\r\n\
        s=SIP Call\r\n\
        t=0 0\r\n\
        m=audio 20000 RTP/AVP 0\r\n\
        c=IN IP4 10.0.0.1\r\n\
        a=rtpmap:0 PCMU/8000\r\n\
        a=sendrecv\r\n";

    let mut legs = LegTable::new();
    let states = make_states(&mut legs, true);
    states
        .leg
        .update_progress(&mut legs, ProgressUpdate::Answer { sdp: EARLY_MEDIA_SDP.to_string() });

    let early = legs.legs[states.leg.place].progress.answer.clone();
    let (answer, already_applied) =
        resolve_final_answer(Some(FINAL_SDP.as_bytes().to_vec()), early.as_ref()).unwrap();

    assert_eq!(
        answer, FINAL_SDP,
        "When 200 OK has SDP, it should be used (not the early SDP)"
    );
    assert!(
        !already_applied,
        "remote_description_already_applied should be false when 200 OK has SDP body"
    );
}

#[test]
fn test_on_terminated_always_emits_events_and_records_state() {
    let mut legs = LegTable::new();
    let mut states = make_states(&mut legs, false);
    states.terminated_reason = Some(TerminatedReason::UacCancel);

    // Another holder of the leg touches unrelated fields, before and after.
    let leg = states.leg.clone();
    leg.update_progress(
        &mut legs,
        ProgressUpdate::Answered { answer: Some("sdp".to_string()), now: at(1) },
    );

    let (track_end, hangup) = states.on_terminated(&mut legs, 9);
    leg.update_progress(&mut legs, ProgressUpdate::Answer { sdp: "other".to_string() });
    assert!(
        matches!(track_end, SessionEvent::TrackEnd { .. }),
        "TrackEnd must be emitted from on_terminated"
    );
    match hangup {
        SessionEvent::Hangup { refer, .. } => {
            assert_eq!(refer, Some(true), "refer flag comes from the leg");
        }
        other => panic!("Hangup must be emitted from on_terminated: {:?}", other),
    }
    // The termination is seen through the clone of the leg.
    let progress = &legs.legs[leg.place].progress;
    assert_eq!(progress.last_status_code, 487);
    assert_eq!(progress.hangup_reason, Some(CallRecordHangupReason::Canceled));
    assert_eq!(progress.answer.as_deref(), Some("sdp"));
}

#[test]
fn ended_leg_reports_its_duration() {
    let mut legs = LegTable::new();
    let mut states = make_states(&mut legs, false);
    states.hangup_reason = Some(CallRecordHangupReason::BySystem);
    legs.legs[states.leg.place].progress.answer_time = Some(at(100));
    let (track_end, _) = states.on_terminated_at(&mut legs, Timestamp { secs: 101, nanos: 500_000_000 }, 4);
    assert_eq!(
        track_end,
        SessionEvent::TrackEnd {
            track_id: "test-track".to_string(),
            timestamp: 4,
            duration: 1500,
            ssrc: 1000,
            play_id: None,
            auto_hangup: Some(CallRecordHangupReason::BySystem),
        }
    );
    // An answer later than the end wraps around.
    let mut legs = LegTable::new();
    let mut states = make_states(&mut legs, false);
    legs.legs[states.leg.place].progress.answer_time = Some(at(101));
    let (track_end, _) = states.on_terminated_at(&mut legs, at(100), 4);
    match track_end {
        SessionEvent::TrackEnd { duration, .. } => assert_eq!(duration, u64::MAX - 999),
        other => panic!("expected the end of the track, got {:?}", other),
    }
}

#[test]
fn ringing_client_reports_and_passes_early_media() {
    let mut legs = LegTable::new();
    let mut states = make_states(&mut legs, false);
    let actions = states.on_dialog_event_at(
        &mut legs,
        DialogEvent::Early { code: 180, body: vec![] },
        at(3),
        5,
    );
    assert_eq!(
        actions,
        vec![DialogAction::Emit {
            event: SessionEvent::Ringing {
                track_id: "test-track".to_string(),
                timestamp: 5,
                early_media: false,
                refer: Some(true),
            },
            must: true,
        }]
    );
    assert_eq!(legs.legs[states.leg.place].progress.ring_time, Some(at(3)));
    assert_eq!(legs.legs[states.leg.place].progress.last_status_code, 180);
    assert!(!states.has_early_media);

    let command = states.on_early_media(&mut legs, "sdp".to_string());
    assert_eq!(
        command,
        TrackCommand::UpdateRemoteDescription {
            track_id: "test-track".to_string(),
            answer: "sdp".to_string(),
            force: false,
        }
    );
}

#[test]
fn called_side_does_not_report_ringing() {
    let mut legs = LegTable::new();
    let mut states = make_states(&mut legs, false);
    states.is_client = false;
    let actions = states.on_dialog_event(
        &mut legs,
        DialogEvent::Early { code: 183, body: b"v=0".to_vec() },
        5,
    );
    assert!(actions.is_empty());
    assert_eq!(legs.legs[states.leg.place].progress.last_status_code, 183);
}

#[test]
fn confirmed_answer_is_trimmed_and_forced_after_early_media() {
    let mut legs = LegTable::new();
    let mut states = make_states(&mut legs, true);
    let actions = states.on_dialog_event(
        &mut legs,
        DialogEvent::Confirmed { dialog_id: dialog("c"), body: b"  v=0\r\n".to_vec() },
        5,
    );
    assert_eq!(
        actions,
        vec![DialogAction::Command {
            command: TrackCommand::UpdateRemoteDescription {
                track_id: "test-track".to_string(),
                answer: "v=0".to_string(),
                force: true,
            },
            must: false,
        }]
    );
    assert_eq!(legs.legs[states.leg.place].progress.session_id, "c-l-r");
    assert_eq!(legs.legs[states.leg.place].progress.last_status_code, 200);
}

#[test]
fn calling_names_the_session() {
    let mut legs = LegTable::new();
    let mut states = make_states(&mut legs, false);
    assert!(states
        .on_dialog_event(&mut legs, DialogEvent::Calling { dialog_id: dialog("x") }, 0)
        .is_empty());
    assert_eq!(legs.legs[states.leg.place].progress.session_id, "x-l-r");
    assert!(states.on_dialog_event(&mut legs, DialogEvent::Trying, 0).is_empty());
    assert!(states.on_dialog_event(&mut legs, DialogEvent::Other, 0).is_empty());
}

#[test]
fn info_with_a_signal_is_a_digit() {
    let mut legs = LegTable::new();
    let mut states = make_states(&mut legs, false);
    let actions = states.on_dialog_event(
        &mut legs,
        DialogEvent::Info { body: b"Signal=5\r\nDuration=160".to_vec() },
        8,
    );
    assert_eq!(
        actions,
        vec![
            DialogAction::Emit {
                event: SessionEvent::Dtmf {
                    track_id: "test-track".to_string(),
                    timestamp: 8,
                    digit: "5".to_string(),
                    refer: Some(true),
                },
                must: true,
            },
            DialogAction::Reply { code: 200 },
        ]
    );
    let only_reply = vec![DialogAction::Reply { code: 200 }];
    assert_eq!(states.on_dialog_event(&mut legs, DialogEvent::Info { body: b"Signal=".to_vec() }, 8), only_reply);
    assert_eq!(states.on_dialog_event(&mut legs, DialogEvent::Info { body: b"x=1".to_vec() }, 8), only_reply);
    assert_eq!(states.on_dialog_event(&mut legs, DialogEvent::Options, 8), only_reply);
}

#[test]
fn info_strips_the_prefix_as_often_as_it_stands() {
    let mut legs = LegTable::new();
    let mut states = make_states(&mut legs, false);
    let actions = states.on_dialog_event(
        &mut legs,
        DialogEvent::Info { body: b"Signal=Signal=#".to_vec() },
        8,
    );
    match &actions[0] {
        DialogAction::Emit { event: SessionEvent::Dtmf { digit, .. }, .. } => assert_eq!(digit, "#"),
        other => panic!("expected a digit, got {:?}", other),
    }
}

#[test]
fn message_is_reported_with_its_type() {
    let mut legs = LegTable::new();
    let mut states = make_states(&mut legs, false);
    let actions = states.on_dialog_event(
        &mut legs,
        DialogEvent::Message {
            headers: vec![
                Header::Unread,
                Header::ContentType("text/plain".to_string()),
                Header::ContentType("text/html".to_string()),
            ],
            body: b"hi".to_vec(),
        },
        3,
    );
    assert_eq!(
        actions,
        vec![
            DialogAction::Emit {
                event: SessionEvent::Message {
                    track_id: "test-track".to_string(),
                    timestamp: 3,
                    body: "hi".to_string(),
                    content_type: Some("text/plain".to_string()),
                    refer: Some(true),
                },
                must: false,
            },
            DialogAction::Reply { code: 200 },
        ]
    );
}

#[test]
fn refer_is_accepted_and_reported() {
    let mut legs = LegTable::new();
    let mut states = make_states(&mut legs, false);
    let actions = states.on_dialog_event(
        &mut legs,
        DialogEvent::Refer {
            headers: vec![
                Header::ReferredBy("<sip:a@b>".to_string()),
                Header::ReferTo("<sip:c@d>".to_string()),
            ],
        },
        3,
    );
    assert_eq!(
        actions,
        vec![
            DialogAction::Reply { code: 202 },
            DialogAction::Emit {
                event: SessionEvent::TransferRequest {
                    track_id: "test-track".to_string(),
                    timestamp: 3,
                    refer_to: "<sip:c@d>".to_string(),
                    referred_by: Some("<sip:a@b>".to_string()),
                    refer: Some(true),
                },
                must: false,
            },
        ]
    );
}

#[test]
fn reinvite_holds_and_renegotiates() {
    let mut legs = LegTable::new();
    let mut states = make_states(&mut legs, false);
    let actions = states.on_dialog_event(
        &mut legs,
        DialogEvent::Updated { method: Method::Invite, body: b"offer".to_vec(), on_hold: true },
        3,
    );
    assert_eq!(actions.len(), 3);
    assert_eq!(actions[0], DialogAction::HoldTrack { track_id: "test-track".to_string() });
    assert_eq!(
        actions[1],
        DialogAction::Emit {
            event: SessionEvent::Hold {
                track_id: "test-track".to_string(),
                timestamp: 3,
                on_hold: true,
                refer: Some(true),
            },
            must: false,
        }
    );
    assert_eq!(
        actions[2],
        DialogAction::Renegotiate {
            track_id: "test-track".to_string(),
            offer: "offer".to_string(),
        }
    );
    assert_eq!(
        reinvite_reply(Some("answer".to_string())),
        DialogAction::ReplySdp { code: 200, sdp: "answer".to_string() }
    );
    assert_eq!(reinvite_reply(None), DialogAction::Reply { code: 200 });
}

#[test]
fn update_without_offer_goes_to_the_track() {
    let mut legs = LegTable::new();
    let mut states = make_states(&mut legs, false);
    let actions = states.on_dialog_event(
        &mut legs,
        DialogEvent::Updated { method: Method::Message, body: b"sdp".to_vec(), on_hold: false },
        3,
    );
    assert_eq!(actions.len(), 4);
    assert_eq!(actions[0], DialogAction::ResumeTrack { track_id: "test-track".to_string() });
    assert_eq!(
        actions[2],
        DialogAction::Command {
            command: TrackCommand::UpdateRemoteDescription {
                track_id: "test-track".to_string(),
                answer: "sdp".to_string(),
                force: false,
            },
            must: true,
        }
    );
    assert_eq!(actions[3], DialogAction::Reply { code: 200 });
}

#[test]
fn hold_state_is_applied_and_reported() {
    let mut legs = LegTable::new();
    let states = make_states(&mut legs, false);
    let actions = apply_hold_state(&states, false, 6);
    assert_eq!(actions[0], DialogAction::ResumeTrack { track_id: "test-track".to_string() });
    assert_eq!(actions.len(), 2);
}

#[test]
fn terminated_dialog_stops() {
    let mut legs = LegTable::new();
    let mut states = make_states(&mut legs, false);
    let actions = states.on_dialog_event(
        &mut legs,
        DialogEvent::Terminated { reason: TerminatedReason::UasBye },
        3,
    );
    assert_eq!(actions, vec![DialogAction::Stop]);
    assert_eq!(states.terminated_reason, Some(TerminatedReason::UasBye));
    states.on_cancelled();
    assert_eq!(states.terminated_reason, Some(TerminatedReason::UacCancel));
}

#[test]
fn guard_hangs_up_once_with_all_headers() {
    let mut legs = LegTable::new();
    let states = make_states(&mut legs, false);
    states.leg.set_extra(&mut legs, "_hangup_headers", "{\"X-B\":\"2\"}".to_string());
    let mut guard = DialogStateReceiverGuard::new(Some(vec![Header::Other(
        "X-A".to_string(),
        "1".to_string(),
    )]));
    guard.recv(&dialog("c"));
    guard.process_dialog(&legs, &states);
    let (id, headers) = guard.drop_async(true).unwrap();
    assert_eq!(id, dialog("c"));
    assert_eq!(
        headers.unwrap(),
        vec![
            Header::Other("X-A".to_string(), "1".to_string()),
            Header::Other("X-B".to_string(), "2".to_string()),
        ]
    );
    assert!(guard.drop_async(true).is_none());
    assert!(guard.take_dialog().is_none());
}

#[test]
fn guard_leaves_a_dialog_that_is_gone() {
    let mut guard = DialogStateReceiverGuard::new(None);
    assert!(guard.drop_async(true).is_none());
    guard.recv(&dialog("c"));
    assert!(guard.drop_async(false).is_none());
}

#[test]
fn pending_calls_are_taken_once() {
    let mut invitation = Invitation::new();
    invitation.add_pending(dialog("a"), 1);
    invitation.add_pending(dialog("b"), 2);
    invitation.add_pending(dialog("a"), 3);
    assert!(invitation.has_pending_call(&dialog("a")));
    assert_eq!(invitation.find_dialog_id_by_session_id("b-l-r"), Some(dialog("b")));
    assert_eq!(invitation.find_dialog_id_by_session_id("z"), None);
    assert_eq!(invitation.get_pending_call(&dialog("a")), Some(3));
    assert_eq!(invitation.get_pending_call(&dialog("a")), None);
    assert!(!invitation.has_pending_call(&dialog("a")));
    assert_eq!(invitation.take_by_session_id("b-l-r"), Some((dialog("b"), 2)));
    assert_eq!(invitation.take_by_session_id("b-l-r"), None);
    invitation.add_pending(dialog("c"), 4);
    assert_eq!(invitation.hangup(&dialog("c")), Some(4));
    assert_eq!(invitation.hangup(&dialog("c")), None);
}

fn response(code: u16, words: &str, headers: Vec<Header>) -> InviteResponse {
    InviteResponse { code, words: words.to_string(), headers, body: b"sdp".to_vec() }
}

fn refused(reason: &str, code: u16) -> Result<(DialogId, Option<Vec<u8>>), SipError> {
    Err(SipError::DialogError { reason: reason.to_string(), dialog_id: dialog("a"), code })
}

#[test]
fn invite_outcomes() {
    assert_eq!(
        Invitation::invite(dialog("a"), Some(response(202, "Accepted", vec![]))),
        Ok((dialog("a"), Some(b"sdp".to_vec())))
    );
    let reasons = vec![
        Header::Unread,
        Header::Reason("Busy".to_string()),
        Header::Reason("Later".to_string()),
    ];
    assert_eq!(
        Invitation::invite(dialog("a"), Some(response(486, "x", reasons))),
        refused("Busy", 486)
    );
    // A known code has its usual words, an unknown one those of the status line.
    assert_eq!(
        Invitation::invite(dialog("a"), Some(response(486, "x", vec![]))),
        refused("486 Busy Here", 486)
    );
    assert_eq!(
        Invitation::invite(dialog("a"), Some(response(499, "Odd", vec![]))),
        refused("499 Odd", 499)
    );
    assert_eq!(
        Invitation::invite_with(dialog("a"), Some(response(300, "x", vec![])), "text".to_string()),
        refused("text", 300)
    );
    assert_eq!(Invitation::invite(dialog("a"), None), refused("no response received", 488));
}
