use active_call::call::state::{
    build_callrecord, build_hangup_event_at, choose_answer, resolve_final_answer, CallFiles,
    CallProgress, CallRuntime, LegShared, LegTable, ProgressUpdate,
};
use active_call::callrecord::{ActiveCallType, CallRecordHangupReason};
use active_call::clock::{millis_since, Timestamp};
use active_call::event::SessionEvent;
use active_call::maps::StringMap;
use active_call::media::ambiance::AmbianceOption;
use active_call::option::{CallOption, RecorderOption};
use active_call::sip::TerminatedReason;

const EARLY_SDP: &str = "v=0\r\no=- 1000 1 IN IP4 192.168.1.100\r\n";

fn at(secs: i64) -> Timestamp {
    Timestamp { secs, nanos: 0 }
}

#[test]
fn early_then_confirmed_progress() {
    let mut p = CallProgress::default();
    p.on_early(183);
    assert!(p.ring_time.is_some());
    assert_eq!(p.last_status_code, 183);

    p.on_confirmed("dialog-1".to_string());
    assert_eq!(p.session_id, "dialog-1");
    assert_eq!(p.last_status_code, 200);
    assert!(p.answer_time.is_some());

    // A second confirmed must not move answer_time.
    let first = p.answer_time;
    p.on_confirmed("dialog-2".to_string());
    assert_eq!(p.answer_time, first);
}

#[test]
fn try_set_answer_keeps_first() {
    let mut p = CallProgress::default();
    p.try_set_answer(EARLY_SDP);
    p.try_set_answer("late");
    assert_eq!(p.answer.as_deref(), Some(EARLY_SDP));
}

#[test]
fn set_hangup_reason_keeps_first() {
    let mut p = CallProgress::default();
    p.set_hangup_reason(CallRecordHangupReason::ByCaller);
    p.set_hangup_reason(CallRecordHangupReason::ByCallee);
    assert_eq!(p.hangup_reason, Some(CallRecordHangupReason::ByCaller));
}

#[test]
fn resolve_final_answer_uses_early_sdp_on_empty_body() {
    let early = EARLY_SDP.to_string();
    let (sdp, applied) = resolve_final_answer(Some(vec![]), Some(&early)).unwrap();
    assert_eq!(sdp, EARLY_SDP);
    assert!(applied);
}

#[test]
fn resolve_final_answer_uses_200ok_body_when_present() {
    let early = EARLY_SDP.to_string();
    let (sdp, applied) = resolve_final_answer(Some(b"final".to_vec()), Some(&early)).unwrap();
    assert_eq!(sdp, "final");
    assert!(!applied);
}

#[test]
fn resolve_final_answer_no_answer_at_all() {
    assert!(resolve_final_answer(None, None).is_err());
    assert!(resolve_final_answer(None, Some(&String::new())).is_err());
}

#[test]
fn blank_body_without_early_answer_is_kept() {
    assert_eq!(resolve_final_answer(Some(b" \r\n".to_vec()), None), Ok((" \r\n".to_string(), false)));
    assert_eq!(resolve_final_answer(None, None), Err("no answer received"));
}

#[test]
fn missing_body_falls_back_to_early_answer() {
    let early = EARLY_SDP.to_string();
    assert_eq!(resolve_final_answer(None, Some(&early)), Ok((early.clone(), true)));
    assert_eq!(
        choose_answer(Some("\t".to_string()), Some(&early)),
        Ok((early.clone(), true))
    );
}

#[test]
fn broken_utf8_is_replaced() {
    let (sdp, applied) = resolve_final_answer(Some(vec![0x61, 0xff, 0x62]), None).unwrap();
    assert_eq!(sdp, "a\u{fffd}b");
    assert!(!applied);
}

#[test]
fn termination_mapping() {
    let info = CallProgress::termination(Some(&TerminatedReason::UacCancel));
    assert_eq!((info.status_code, info.initiator), (487, "caller"));
    assert_eq!(info.hangup_reason, CallRecordHangupReason::Canceled);

    let info = CallProgress::termination(Some(&TerminatedReason::UasDecline));
    assert_eq!((info.status_code, info.initiator), (603, "callee"));
    assert_eq!(info.hangup_reason, CallRecordHangupReason::ByCallee);

    let info = CallProgress::termination(None);
    assert_eq!((info.status_code, info.initiator), (500, "system"));
    assert_eq!(info.hangup_reason, CallRecordHangupReason::BySystem);
}

#[test]
fn termination_of_every_reason() {
    let all = [
        (TerminatedReason::UacBye, 200, CallRecordHangupReason::ByCaller, "caller"),
        (TerminatedReason::UacBusy, 486, CallRecordHangupReason::ByCaller, "caller"),
        (TerminatedReason::UasBye, 200, CallRecordHangupReason::ByCallee, "callee"),
        (TerminatedReason::UasBusy, 486, CallRecordHangupReason::ByCallee, "callee"),
        (TerminatedReason::UacOther(404), 404, CallRecordHangupReason::ByCaller, "system"),
        (TerminatedReason::UasOther(503), 503, CallRecordHangupReason::ByCallee, "system"),
        (TerminatedReason::Timeout, 500, CallRecordHangupReason::BySystem, "system"),
        (TerminatedReason::ProxyError(502), 500, CallRecordHangupReason::BySystem, "system"),
        (TerminatedReason::ProxyAuthRequired, 500, CallRecordHangupReason::BySystem, "system"),
    ];
    for (reason, code, hangup, initiator) in all {
        let info = CallProgress::termination(Some(&reason));
        assert_eq!(info.status_code, code);
        assert_eq!(info.hangup_reason, hangup);
        assert_eq!(info.initiator, initiator);
    }
}

#[test]
fn leg_shared_extras_rcu() {
    let mut legs = LegTable::new();
    let leg = LegShared::new(&mut legs, 42, false, CallProgress::default());
    leg.set_extra(&mut legs, "k", "\"v\"".to_string());
    assert_eq!(legs.legs[leg.place].extras.get("k"), Some("\"v\"".to_string()));
}

#[test]
fn extras_are_replaced_by_name() {
    let mut legs = LegTable::new();
    let leg = LegShared::new(&mut legs, 42, false, CallProgress::default());
    leg.set_extra(&mut legs, "a", "1".to_string());
    leg.set_extra(&mut legs, "b", "2".to_string());
    leg.set_extra(&mut legs, "a", "3".to_string());
    assert_eq!(legs.legs[leg.place].extras.get("a"), Some("3".to_string()));
    assert_eq!(legs.legs[leg.place].extras.get("b"), Some("2".to_string()));
    assert_eq!(legs.legs[leg.place].extras.get("c"), None);
    assert_eq!(legs.legs[leg.place].extras.entries.len(), 2);
}

#[test]
fn merge_option_fills_open_settings() {
    let mut p = CallProgress::default();
    let mut existing = CallOption::default();
    existing.asr = Some("asr-old".to_string());
    existing.tts = Some("tts-old".to_string());
    existing.denoise = Some(true);
    existing.caller = Some("alice".to_string());
    existing.ambiance = Some(AmbianceOption::default());
    p.option = Some(existing);

    let mut option = CallOption::default();
    option.tts = Some("tts-new".to_string());
    let merged = p.merge_option(option);
    assert_eq!(merged.asr.as_deref(), Some("asr-old"));
    assert_eq!(merged.tts.as_deref(), Some("tts-new"));
    assert_eq!(merged.denoise, Some(true));
    assert!(merged.ambiance.is_some());
    // The caller is not among the settings that are filled in.
    assert_eq!(merged.caller, None);
}

#[test]
fn merge_option_without_earlier_settings() {
    let p = CallProgress::default();
    let mut option = CallOption::default();
    option.vad = Some("v".to_string());
    let merged = p.merge_option(option.clone());
    assert_eq!(merged, option);
}

#[test]
fn milliseconds_round_toward_zero() {
    let then = Timestamp { secs: 10, nanos: 999_999_999 };
    let now = Timestamp { secs: 12, nanos: 0 };
    assert_eq!(millis_since(then, now), 1000);
    assert_eq!(millis_since(now, then), -1000);
    assert_eq!(millis_since(at(0), at(1)), 1000);
}

#[test]
fn hangup_event_tells_of_the_leg() {
    let mut p = CallProgress::default();
    p.start_time = Some(at(0));
    p.ring_time = Some(at(60));
    p.hangup_reason = Some(CallRecordHangupReason::ByCallee);
    let mut option = CallOption::default();
    option.caller = Some("alice".to_string());
    option.callee = Some("bob".to_string());
    p.option = Some(option);
    let mut extras = StringMap::new();
    extras.insert("k".to_string(), "1".to_string());
    let event = build_hangup_event_at(
        &p,
        &extras,
        true,
        "track".to_string(),
        Some("callee".to_string()),
        at(86400),
        7,
    );
    match event {
        SessionEvent::Hangup {
            track_id,
            timestamp,
            reason,
            initiator,
            start_time,
            hangup_time,
            answer_time,
            ringing_time,
            from,
            to,
            extra,
            refer,
        } => {
            assert_eq!(track_id, "track");
            assert_eq!(timestamp, 7);
            assert_eq!(reason.as_deref(), Some("ByCallee"));
            assert_eq!(initiator.as_deref(), Some("callee"));
            assert_eq!(start_time, "1970-01-01T00:00:00+00:00");
            assert_eq!(hangup_time, "1970-01-02T00:00:00+00:00");
            assert_eq!(answer_time, None);
            assert_eq!(ringing_time.as_deref(), Some("1970-01-01T00:01:00+00:00"));
            assert_eq!(from.as_deref(), Some("alice"));
            assert_eq!(to.as_deref(), Some("bob"));
            assert_eq!(extra.unwrap().get("k"), Some("1".to_string()));
            assert_eq!(refer, Some(true));
        }
        other => panic!("expected a hangup, got {:?}", other),
    }
}

fn files(size: Option<u64>, dump: bool) -> CallFiles {
    CallFiles {
        recorder_file: "/rec/a.wav".to_string(),
        recorder_size: size,
        dump_event_file: "/dump/a.jsonl".to_string(),
        dump_event_exists: dump,
    }
}

#[test]
fn callrecord_lists_the_recording_that_exists() {
    let mut p = CallProgress::default();
    let mut option = CallOption::default();
    option.recorder = Some(RecorderOption {
        recorder_file: "a.wav".to_string(),
        samplerate: 16000,
        ptime: 200,
        format: None,
        native_samplerate: None,
    });
    option.caller = Some("alice".to_string());
    p.option = Some(option);
    p.last_status_code = 200;
    let extras = StringMap::new();
    let r = build_callrecord(
        &p,
        &extras,
        &LegTable::new(),
        None,
        files(Some(17), true),
        "s1".to_string(),
        ActiveCallType::Sip,
    );
    assert_eq!(r.call_id, "s1");
    assert_eq!(r.recorder.len(), 1);
    assert_eq!(r.recorder[0].path, "/rec/a.wav");
    assert_eq!(r.recorder[0].track_id, "s1");
    assert_eq!(r.recorder[0].size, 17);
    assert_eq!(r.dump_event_file.as_deref(), Some("/dump/a.jsonl"));
    assert_eq!(r.caller, "alice");
    assert_eq!(r.callee, "");
    assert_eq!(r.status_code, 200);
    assert_eq!(r.start_time, at(0));
    // The clock stands well after the year 2020.
    assert!(r.end_time.secs > 1_577_836_800);
    assert!(r.refer_callrecord.is_none());

    let r = build_callrecord(
        &p,
        &extras,
        &LegTable::new(),
        None,
        files(None, false),
        "s1".to_string(),
        ActiveCallType::Sip,
    );
    assert!(r.recorder.is_empty());
    assert_eq!(r.dump_event_file, None);
}

#[test]
fn callrecord_without_settings_lists_no_recording() {
    let p = CallProgress::default();
    let r = build_callrecord(
        &p,
        &StringMap::new(),
        &LegTable::new(),
        None,
        files(Some(17), false),
        "s2".to_string(),
        ActiveCallType::WebSocket,
    );
    assert!(r.recorder.is_empty());
    assert_eq!(r.option, Some(CallOption::default()));
}

#[test]
fn callrecord_holds_the_referred_leg() {
    let mut legs = LegTable::new();
    let leg = LegShared::new(&mut legs, 1, true, CallProgress::default());
    leg.update_progress(&mut legs, ProgressUpdate::Session { session_id: "leg-1".to_string() });
    let p = CallProgress::default();
    let r = build_callrecord(
        &p,
        &StringMap::new(),
        &legs,
        Some((&leg, files(None, false))),
        files(None, false),
        "s3".to_string(),
        ActiveCallType::Sip,
    );
    let kept = r.refer_callrecord.unwrap();
    assert_eq!(kept.call_id, "leg-1");
    assert_eq!(kept.call_type, ActiveCallType::B2bua);
    assert!(kept.refer_callrecord.is_none());
}

#[test]
fn dialled_leg_keeps_offer_and_start() {
    let mut progress = CallProgress::default();
    progress.option = Some(CallOption::default());
    let mut legs = LegTable::new();
    let leg = LegShared::new(&mut legs, 1, false, progress);
    leg.update_progress(&mut legs, ProgressUpdate::Dialled { offer: "v=0".to_string(), now: at(5) });
    assert_eq!(legs.legs[leg.place].progress.start_time, Some(at(5)));
    assert_eq!(legs.legs[leg.place].progress.option.as_ref().unwrap().offer.as_deref(), Some("v=0"));
}

#[test]
fn answered_twice_keeps_the_first_time() {
    let mut p = CallProgress::default();
    p.on_answered_at(at(1));
    p.on_answered_at(at(2));
    assert_eq!(p.answer_time, Some(at(1)));
    let mut q = CallProgress::default();
    q.on_answered();
    assert_eq!(q.last_status_code, 200);
    assert!(q.answer_time.unwrap().is_valid());
}

#[test]
fn fresh_runtime_waits_for_nobody() {
    let runtime = CallRuntime::new();
    assert_eq!(runtime.input_timeout_expire, (0, 0));
    assert!(runtime.ready_to_answer.is_none());
}

#[test]
fn holders_of_a_leg_share_it() {
    let mut legs = LegTable::new();
    let other = LegShared::new(&mut legs, 7, false, CallProgress::default());
    let leg = LegShared::new(&mut legs, 42, true, CallProgress::default());
    let holder = leg.clone();
    leg.set_extra(&mut legs, "k", "1".to_string());
    holder.update_progress(&mut legs, ProgressUpdate::Session { session_id: "s".to_string() });
    assert_eq!(legs.legs[holder.place].extras.get("k"), Some("1".to_string()));
    assert_eq!(legs.legs[leg.place].progress.session_id, "s");
    assert_eq!(legs.legs[other.place].extras.get("k"), None);
    assert_eq!(legs.legs[other.place].progress.session_id, "");
}
